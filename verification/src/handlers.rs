//! Handlers decide how a context or an attachment is rendered: which text its
//! display and debug forms produce, and which formatting style it prefers
//! inside a report.

use vstd::prelude::*;
use vstd::string::StringExecFns;
use crate::object::{Object, concat3};

verus! {

/// Which of the two formatting functions is used to render a value.
#[derive(Copy, Clone, PartialEq, Eq, Structural, Debug, Hash)]
pub enum FormattingFunction {
    /// Render with the value's display text.
    Display,
    /// Render with the value's debug text.
    Debug,
}

impl Default for FormattingFunction {
    fn default() -> (f: Self)
        ensures
            f == FormattingFunction::Display,
    {
        FormattingFunction::Display
    }
}

/// Where an attachment is placed when a report is rendered.
#[derive(Copy, Clone, Debug)]
pub enum AttachmentFormattingPlacement {
    /// Rendered directly among the node's lines.
    Inline,
    /// Rendered inline below a header line.
    InlineWithHeader {
        /// The header line.
        header: &'static str,
    },
    /// Rendered in a named appendix after the report, with a notice in place.
    Appendix {
        /// The name of the appendix.
        appendix_name: &'static str,
    },
    /// Not rendered, but counted in a notice.
    Opaque,
    /// Not rendered at all.
    Hidden,
}

impl Default for AttachmentFormattingPlacement {
    fn default() -> (p: Self)
        ensures
            p == AttachmentFormattingPlacement::Inline,
    {
        AttachmentFormattingPlacement::Inline
    }
}

/// How an attachment prefers to be rendered.
#[derive(Copy, Clone, Debug)]
pub struct AttachmentFormattingStyle {
    /// Where the attachment is placed.
    pub placement: AttachmentFormattingPlacement,
    /// Which formatting function renders it.
    pub function: FormattingFunction,
    /// Attachments of higher priority are rendered first.
    pub priority: i32,
}

impl Default for AttachmentFormattingStyle {
    fn default() -> (s: Self)
        ensures
            s == default_attachment_style(),
    {
        AttachmentFormattingStyle {
            placement: AttachmentFormattingPlacement::Inline,
            function: FormattingFunction::Display,
            priority: 0,
        }
    }
}

/// The default attachment style: inline, display text, priority zero.
pub open spec fn default_attachment_style() -> AttachmentFormattingStyle {
    AttachmentFormattingStyle {
        placement: AttachmentFormattingPlacement::Inline,
        function: FormattingFunction::Display,
        priority: 0,
    }
}

/// How a context prefers to be rendered.
#[derive(Copy, Clone, Debug)]
pub struct ContextFormattingStyle {
    /// Which formatting function renders it.
    pub function: FormattingFunction,
}

impl Default for ContextFormattingStyle {
    fn default() -> (s: Self)
        ensures
            s.function == FormattingFunction::Display,
    {
        ContextFormattingStyle { function: FormattingFunction::Display }
    }
}

/// The handlers that can render a report's context.
#[derive(Copy, Clone, Debug)]
pub enum ContextHandlerKind {
    /// See [`Error`].
    Error,
    /// See [`Display`].
    Display,
    /// See [`Debug`].
    Debug,
    /// See [`RedactDebug`].
    RedactDebug,
    /// See [`ForceDebug`].
    ForceDebug,
    /// See [`Any`].
    Any,
    /// See [`BoxedErrorHandler`].
    BoxedError,
    /// A preformatted context: its texts are stored, and so are the
    /// functions it prefers under display and under debug rendering.
    Preformatted {
        /// The identifier of the type of the context it was made from.
        original_type_id: u64,
        /// Preferred function when the report is rendered for display.
        display_function: FormattingFunction,
        /// Preferred function when the report is rendered for debugging.
        debug_function: FormattingFunction,
    },
}

/// The handlers that can render an attachment.
#[derive(Copy, Clone, Debug)]
pub enum AttachmentHandlerKind {
    /// See [`Display`].
    Display,
    /// See [`Debug`].
    Debug,
    /// See [`RedactDebug`].
    RedactDebug,
    /// See [`ForceDebug`].
    ForceDebug,
    /// See [`Any`].
    Any,
    /// See [`Invisible`].
    Invisible,
    /// The handler of source locations: inline, display text, priority 20.
    Location,
    /// The handler of backtraces: shown below a `Backtrace` header when the
    /// backtrace has entries, hidden otherwise; priority 10.
    Backtrace {
        /// Whether the backtrace holds any entry.
        has_entries: bool,
    },
    /// A preformatted attachment: its texts are stored, and so are the
    /// styles it prefers under display and under debug rendering.
    Preformatted {
        /// The identifier of the type of the value it was made from.
        original_type_id: u64,
        /// Preferred style when the report is rendered for display.
        display_style: AttachmentFormattingStyle,
        /// Preferred style when the report is rendered for debugging.
        debug_style: AttachmentFormattingStyle,
    },
}

/// Handler for error types: the value's own display and debug text. Like
/// every built-in handler, it prefers the display function, even where the
/// report is rendered for debugging.
#[derive(Copy, Clone)]
pub struct Error;

/// Handler for values with display and debug text: the value's own texts;
/// it prefers the display function.
#[derive(Copy, Clone)]
pub struct Display;

/// Handler for values with debug text only: the display text names the type,
/// and the display function is preferred.
#[derive(Copy, Clone)]
pub struct Debug;

/// Like [`Debug`]: the display text names the type and the display function
/// is preferred, so the debug text never shows in a rendered report.
#[derive(Copy, Clone)]
pub struct RedactDebug;

/// Renders the value's debug text in both forms and prefers the debug function.
#[derive(Copy, Clone)]
pub struct ForceDebug;

/// Handler for any value: both forms only name the type.
#[derive(Copy, Clone)]
pub struct Any;

/// Attachment handler that renders nothing and hides the attachment.
#[derive(Copy, Clone)]
pub struct Invisible;

/// Handler for boxed errors: the error's own display and debug text.
#[derive(Copy, Clone, Debug)]
pub struct BoxedErrorHandler;

/// A handler usable for a report's context.
pub trait ContextHandler {
    /// The kind of handler this type stands for.
    spec fn spec_context_kind() -> ContextHandlerKind;

    /// The kind of handler this type stands for.
    fn context_kind() -> (k: ContextHandlerKind)
        ensures
            k == Self::spec_context_kind(),
    ;
}

/// A handler usable for an attachment.
pub trait AttachmentHandler {
    /// The kind of handler this type stands for.
    spec fn spec_attachment_kind() -> AttachmentHandlerKind;

    /// The kind of handler this type stands for.
    fn attachment_kind() -> (k: AttachmentHandlerKind)
        ensures
            k == Self::spec_attachment_kind(),
    ;
}

impl ContextHandler for Error {
    open spec fn spec_context_kind() -> ContextHandlerKind {
        ContextHandlerKind::Error
    }

    fn context_kind() -> (k: ContextHandlerKind) {
        ContextHandlerKind::Error
    }
}

impl ContextHandler for Display {
    open spec fn spec_context_kind() -> ContextHandlerKind {
        ContextHandlerKind::Display
    }

    fn context_kind() -> (k: ContextHandlerKind) {
        ContextHandlerKind::Display
    }
}

impl ContextHandler for Debug {
    open spec fn spec_context_kind() -> ContextHandlerKind {
        ContextHandlerKind::Debug
    }

    fn context_kind() -> (k: ContextHandlerKind) {
        ContextHandlerKind::Debug
    }
}

impl ContextHandler for RedactDebug {
    open spec fn spec_context_kind() -> ContextHandlerKind {
        ContextHandlerKind::RedactDebug
    }

    fn context_kind() -> (k: ContextHandlerKind) {
        ContextHandlerKind::RedactDebug
    }
}

impl ContextHandler for ForceDebug {
    open spec fn spec_context_kind() -> ContextHandlerKind {
        ContextHandlerKind::ForceDebug
    }

    fn context_kind() -> (k: ContextHandlerKind) {
        ContextHandlerKind::ForceDebug
    }
}

impl ContextHandler for Any {
    open spec fn spec_context_kind() -> ContextHandlerKind {
        ContextHandlerKind::Any
    }

    fn context_kind() -> (k: ContextHandlerKind) {
        ContextHandlerKind::Any
    }
}

impl ContextHandler for BoxedErrorHandler {
    open spec fn spec_context_kind() -> ContextHandlerKind {
        ContextHandlerKind::BoxedError
    }

    fn context_kind() -> (k: ContextHandlerKind) {
        ContextHandlerKind::BoxedError
    }
}

impl AttachmentHandler for Display {
    open spec fn spec_attachment_kind() -> AttachmentHandlerKind {
        AttachmentHandlerKind::Display
    }

    fn attachment_kind() -> (k: AttachmentHandlerKind) {
        AttachmentHandlerKind::Display
    }
}

impl AttachmentHandler for Debug {
    open spec fn spec_attachment_kind() -> AttachmentHandlerKind {
        AttachmentHandlerKind::Debug
    }

    fn attachment_kind() -> (k: AttachmentHandlerKind) {
        AttachmentHandlerKind::Debug
    }
}

impl AttachmentHandler for RedactDebug {
    open spec fn spec_attachment_kind() -> AttachmentHandlerKind {
        AttachmentHandlerKind::RedactDebug
    }

    fn attachment_kind() -> (k: AttachmentHandlerKind) {
        AttachmentHandlerKind::RedactDebug
    }
}

impl AttachmentHandler for ForceDebug {
    open spec fn spec_attachment_kind() -> AttachmentHandlerKind {
        AttachmentHandlerKind::ForceDebug
    }

    fn attachment_kind() -> (k: AttachmentHandlerKind) {
        AttachmentHandlerKind::ForceDebug
    }
}

impl AttachmentHandler for Any {
    open spec fn spec_attachment_kind() -> AttachmentHandlerKind {
        AttachmentHandlerKind::Any
    }

    fn attachment_kind() -> (k: AttachmentHandlerKind) {
        AttachmentHandlerKind::Any
    }
}

impl AttachmentHandler for Invisible {
    open spec fn spec_attachment_kind() -> AttachmentHandlerKind {
        AttachmentHandlerKind::Invisible
    }

    fn attachment_kind() -> (k: AttachmentHandlerKind) {
        AttachmentHandlerKind::Invisible
    }
}

/// The text naming a context's type, `Context of type `T``.
pub open spec fn context_type_text(obj: Object) -> Seq<char> {
    "Context of type `"@ + obj.type_label@ + "`"@
}

/// The text naming an attachment's type, `Attachment of type `T``.
pub open spec fn attachment_type_text(obj: Object) -> Seq<char> {
    "Attachment of type `"@ + obj.type_label@ + "`"@
}

/// The text of the catch-all handler, `An object of type T`.
pub open spec fn any_type_text(obj: Object) -> Seq<char> {
    "An object of type "@ + obj.type_label@ + ""@
}

/// The display text that a context handler produces for a value.
pub open spec fn context_display_text(h: ContextHandlerKind, obj: Object) -> Seq<char> {
    match h {
        ContextHandlerKind::Error => obj.display@,
        ContextHandlerKind::Display => obj.display@,
        ContextHandlerKind::Debug => context_type_text(obj),
        ContextHandlerKind::RedactDebug => context_type_text(obj),
        ContextHandlerKind::ForceDebug => obj.debug@,
        ContextHandlerKind::Any => any_type_text(obj),
        ContextHandlerKind::BoxedError => obj.display@,
        ContextHandlerKind::Preformatted { .. } => obj.display@,
    }
}

/// The debug text that a context handler produces for a value.
pub open spec fn context_debug_text(h: ContextHandlerKind, obj: Object) -> Seq<char> {
    match h {
        ContextHandlerKind::Any => any_type_text(obj),
        _ => obj.debug@,
    }
}

/// The function a context handler prefers when the report is rendered with `f`.
pub open spec fn context_preferred_function(
    h: ContextHandlerKind,
    f: FormattingFunction,
) -> FormattingFunction {
    match h {
        ContextHandlerKind::RedactDebug => FormattingFunction::Display,
        ContextHandlerKind::ForceDebug => FormattingFunction::Debug,
        ContextHandlerKind::Any => FormattingFunction::Display,
        ContextHandlerKind::Preformatted { display_function, debug_function, .. } => match f {
            FormattingFunction::Display => display_function,
            FormattingFunction::Debug => debug_function,
        },
        ContextHandlerKind::BoxedError => f,
        _ => FormattingFunction::Display,
    }
}

/// The display text that an attachment handler produces for a value.
pub open spec fn attachment_display_text(h: AttachmentHandlerKind, obj: Object) -> Seq<char> {
    match h {
        AttachmentHandlerKind::Debug => attachment_type_text(obj),
        AttachmentHandlerKind::RedactDebug => attachment_type_text(obj),
        AttachmentHandlerKind::ForceDebug => obj.debug@,
        AttachmentHandlerKind::Any => any_type_text(obj),
        AttachmentHandlerKind::Invisible => Seq::empty(),
        _ => obj.display@,
    }
}

/// The debug text that an attachment handler produces for a value.
pub open spec fn attachment_debug_text(h: AttachmentHandlerKind, obj: Object) -> Seq<char> {
    match h {
        AttachmentHandlerKind::Any => any_type_text(obj),
        AttachmentHandlerKind::Invisible => Seq::empty(),
        AttachmentHandlerKind::Location => obj.display@,
        AttachmentHandlerKind::Backtrace { .. } => obj.display@,
        _ => obj.debug@,
    }
}

/// The style an attachment handler prefers when the report is rendered with `f`.
pub open spec fn attachment_preferred_style(
    h: AttachmentHandlerKind,
    f: FormattingFunction,
) -> AttachmentFormattingStyle {
    match h {
        AttachmentHandlerKind::Display => default_attachment_style(),
        AttachmentHandlerKind::Debug => default_attachment_style(),
        AttachmentHandlerKind::RedactDebug => default_attachment_style(),
        AttachmentHandlerKind::ForceDebug => AttachmentFormattingStyle {
            function: FormattingFunction::Debug,
            ..default_attachment_style()
        },
        AttachmentHandlerKind::Any => default_attachment_style(),
        AttachmentHandlerKind::Invisible => AttachmentFormattingStyle {
            placement: AttachmentFormattingPlacement::Hidden,
            function: f,
            priority: i32::MIN,
        },
        AttachmentHandlerKind::Location => AttachmentFormattingStyle {
            priority: 20,
            ..default_attachment_style()
        },
        AttachmentHandlerKind::Backtrace { has_entries } => AttachmentFormattingStyle {
            placement: if has_entries {
                AttachmentFormattingPlacement::InlineWithHeader { header: "Backtrace" }
            } else {
                AttachmentFormattingPlacement::Hidden
            },
            priority: 10,
            ..default_attachment_style()
        },
        AttachmentHandlerKind::Preformatted { display_style, debug_style, .. } => match f {
            FormattingFunction::Display => display_style,
            FormattingFunction::Debug => debug_style,
        },
    }
}

/// Renders a context's display text.
pub fn context_display(h: ContextHandlerKind, obj: &Object) -> (res: String)
    ensures
        res@ == context_display_text(h, *obj),
        h is Debug || h is RedactDebug ==> res@ == "Context of type `"@ + obj.type_label@ + "`"@,
{
    match h {
        ContextHandlerKind::Error => obj.display.clone(),
        ContextHandlerKind::Display => obj.display.clone(),
        ContextHandlerKind::Debug => concat3("Context of type `", obj.type_label.as_str(), "`"),
        ContextHandlerKind::RedactDebug => concat3(
            "Context of type `",
            obj.type_label.as_str(),
            "`",
        ),
        ContextHandlerKind::ForceDebug => obj.debug.clone(),
        ContextHandlerKind::Any => concat3("An object of type ", obj.type_label.as_str(), ""),
        ContextHandlerKind::BoxedError => obj.display.clone(),
        ContextHandlerKind::Preformatted { .. } => obj.display.clone(),
    }
}

/// Renders a context's debug text.
pub fn context_debug(h: ContextHandlerKind, obj: &Object) -> (res: String)
    ensures
        res@ == context_debug_text(h, *obj),
{
    match h {
        ContextHandlerKind::Any => concat3("An object of type ", obj.type_label.as_str(), ""),
        _ => obj.debug.clone(),
    }
}

/// The function a context handler prefers when the report is rendered with `f`.
pub fn context_preferred_formatting_style(
    h: ContextHandlerKind,
    f: FormattingFunction,
) -> (res: ContextFormattingStyle)
    ensures
        res.function == context_preferred_function(h, f),
{
    let function = match h {
        ContextHandlerKind::RedactDebug => FormattingFunction::Display,
        ContextHandlerKind::ForceDebug => FormattingFunction::Debug,
        ContextHandlerKind::Any => FormattingFunction::Display,
        ContextHandlerKind::Preformatted { display_function, debug_function, .. } => match f {
            FormattingFunction::Display => display_function,
            FormattingFunction::Debug => debug_function,
        },
        ContextHandlerKind::BoxedError => f,
        _ => FormattingFunction::Display,
    };
    ContextFormattingStyle { function }
}

/// Renders an attachment's display text.
pub fn attachment_display(h: AttachmentHandlerKind, obj: &Object) -> (res: String)
    ensures
        res@ == attachment_display_text(h, *obj),
        h is Debug || h is RedactDebug ==> res@ == "Attachment of type `"@ + obj.type_label@ + "`"@,
{
    match h {
        AttachmentHandlerKind::Debug => concat3(
            "Attachment of type `",
            obj.type_label.as_str(),
            "`",
        ),
        AttachmentHandlerKind::RedactDebug => concat3(
            "Attachment of type `",
            obj.type_label.as_str(),
            "`",
        ),
        AttachmentHandlerKind::ForceDebug => obj.debug.clone(),
        AttachmentHandlerKind::Any => concat3("An object of type ", obj.type_label.as_str(), ""),
        AttachmentHandlerKind::Invisible => String::new(),
        _ => obj.display.clone(),
    }
}

/// Renders an attachment's debug text.
pub fn attachment_debug(h: AttachmentHandlerKind, obj: &Object) -> (res: String)
    ensures
        res@ == attachment_debug_text(h, *obj),
{
    match h {
        AttachmentHandlerKind::Any => concat3("An object of type ", obj.type_label.as_str(), ""),
        AttachmentHandlerKind::Invisible => String::new(),
        AttachmentHandlerKind::Location => obj.display.clone(),
        AttachmentHandlerKind::Backtrace { .. } => obj.display.clone(),
        _ => obj.debug.clone(),
    }
}

/// The style an attachment handler prefers when the report is rendered with `f`.
pub fn attachment_preferred_formatting_style(
    h: AttachmentHandlerKind,
    f: FormattingFunction,
) -> (res: AttachmentFormattingStyle)
    ensures
        res == attachment_preferred_style(h, f),
{
    match h {
        AttachmentHandlerKind::Display => AttachmentFormattingStyle::default(),
        AttachmentHandlerKind::Debug => AttachmentFormattingStyle::default(),
        AttachmentHandlerKind::RedactDebug => AttachmentFormattingStyle::default(),
        AttachmentHandlerKind::ForceDebug => AttachmentFormattingStyle {
            placement: AttachmentFormattingPlacement::Inline,
            function: FormattingFunction::Debug,
            priority: 0,
        },
        AttachmentHandlerKind::Any => AttachmentFormattingStyle::default(),
        AttachmentHandlerKind::Invisible => AttachmentFormattingStyle {
            placement: AttachmentFormattingPlacement::Hidden,
            function: f,
            priority: i32::MIN,
        },
        AttachmentHandlerKind::Location => AttachmentFormattingStyle {
            placement: AttachmentFormattingPlacement::Inline,
            function: FormattingFunction::Display,
            priority: 20,
        },
        AttachmentHandlerKind::Backtrace { has_entries } => AttachmentFormattingStyle {
            placement: if has_entries {
                AttachmentFormattingPlacement::InlineWithHeader { header: "Backtrace" }
            } else {
                AttachmentFormattingPlacement::Hidden
            },
            function: FormattingFunction::Display,
            priority: 10,
        },
        AttachmentHandlerKind::Preformatted { display_style, debug_style, .. } => match f {
            FormattingFunction::Display => display_style,
            FormattingFunction::Debug => debug_style,
        },
    }
}

/// What each handler shows of a value, by the value alone: the debug-only
/// handlers name the value's type (`Attachment of type `T`` or `Context of
/// type `T``) in place of its display text, the catch-all handler shows
/// `An object of type T` in both forms, the display and error handlers show
/// the value's own texts, and the forced-debug handler shows its debug text.
pub proof fn lemma_handler_texts(obj: Object)
    ensures
        attachment_display_text(AttachmentHandlerKind::Debug, obj) == "Attachment of type `"@
            + obj.type_label@ + "`"@,
        attachment_display_text(AttachmentHandlerKind::RedactDebug, obj) == "Attachment of type `"@
            + obj.type_label@ + "`"@,
        attachment_debug_text(AttachmentHandlerKind::Debug, obj) == obj.debug@,
        attachment_debug_text(AttachmentHandlerKind::RedactDebug, obj) == obj.debug@,
        attachment_display_text(AttachmentHandlerKind::Display, obj) == obj.display@,
        attachment_debug_text(AttachmentHandlerKind::Display, obj) == obj.debug@,
        attachment_display_text(AttachmentHandlerKind::ForceDebug, obj) == obj.debug@,
        attachment_display_text(AttachmentHandlerKind::Any, obj) == "An object of type "@
            + obj.type_label@,
        attachment_debug_text(AttachmentHandlerKind::Any, obj) == "An object of type "@
            + obj.type_label@,
        attachment_display_text(AttachmentHandlerKind::Invisible, obj).len() == 0,
        context_display_text(ContextHandlerKind::Debug, obj) == "Context of type `"@ + obj.type_label@
            + "`"@,
        context_display_text(ContextHandlerKind::RedactDebug, obj) == "Context of type `"@
            + obj.type_label@ + "`"@,
        context_debug_text(ContextHandlerKind::Debug, obj) == obj.debug@,
        context_display_text(ContextHandlerKind::Error, obj) == obj.display@,
        context_display_text(ContextHandlerKind::Display, obj) == obj.display@,
        context_display_text(ContextHandlerKind::ForceDebug, obj) == obj.debug@,
        context_display_text(ContextHandlerKind::Any, obj) == "An object of type "@ + obj.type_label@,
        context_debug_text(ContextHandlerKind::Any, obj) == "An object of type "@ + obj.type_label@,
{
    reveal_strlit("");
    assert("An object of type "@ + obj.type_label@ + ""@ =~= "An object of type "@ + obj.type_label@);
}

} // verus!
