//! Reports for missing values: an `Option` that is `None` becomes a report
//! whose context says which value was expected.

use vstd::prelude::*;
use vstd::string::StringExecFns;
use crate::handlers::{self, ContextHandler, ContextHandlerKind};
use crate::hooks::Hooks;
use crate::hooks::builtin_hooks::location::Location;
use crate::object::Object;
use crate::report::{Report, ReportView, created, hooks_value};
use crate::text::{debug_quoted, push_debug_str};

verus! {

/// The error of a value that was expected but missing.
#[derive(Copy, Clone, Debug, PartialEq, Eq, Hash)]
pub struct NoneError {
    /// The name of the type of the expected value.
    pub expected_type: &'static str,
}

/// The identifier of the type [`NoneError`] among context types.
pub const NONE_ERROR_TYPE_ID: u64 = 0x2d8f_6b13_e570_a94c;

/// The text of a missing value of the type named `t`.
pub open spec fn none_error_text(t: Seq<char>) -> Seq<char> {
    "Expected value of type "@ + t + ", but found None"@
}

/// The debug text of a missing value of the type named `t`.
pub open spec fn none_error_debug_text(t: Seq<char>) -> Seq<char> {
    "NoneError { expected_type: "@ + debug_quoted(t) + " }"@
}

/// Whether `obj` is the error of a missing value of the type named `t`.
pub open spec fn is_none_error(obj: Object, t: Seq<char>) -> bool {
    &&& obj.type_id == NONE_ERROR_TYPE_ID
    &&& obj.type_label@ == "rootcause::option_ext::NoneError"@
    &&& obj.display@ == none_error_text(t)
    &&& obj.debug@ == none_error_debug_text(t)
}

/// Whether `r` is the report of a missing value of the type named `t`,
/// created at `location` under the installed hooks `hooks`.
pub open spec fn is_none_report(r: ReportView, t: Seq<char>, hooks: Option<Hooks>, location: Location) -> bool {
    &&& is_none_error(r.context, t)
    &&& created(r, r.context, ContextHandlerKind::Error, Seq::empty(), Seq::empty(), hooks, location)
}

/// Whether `r` is the report with the context `context`, rendered by
/// `handler`, over the report of a missing value of the type named `t`.
pub open spec fn is_none_context_report(
    r: ReportView,
    t: Seq<char>,
    context: Object,
    handler: ContextHandlerKind,
    hooks: Option<Hooks>,
    location: Location,
) -> bool {
    &&& r.children.len() == 1
    &&& is_none_report(r.children[0], t, hooks, location)
    &&& created(r, context, handler, r.children, Seq::empty(), hooks, location)
}

impl NoneError {
    /// The error of a missing value of the type named `expected_type`.
    pub fn new(expected_type: &'static str) -> (res: Self)
        ensures
            res.expected_type == expected_type,
    {
        NoneError { expected_type }
    }

    /// The text of the error.
    pub fn to_text(&self) -> (res: String)
        ensures
            res@ == none_error_text(self.expected_type@),
    {
        let mut s = String::from_str("Expected value of type ");
        s.append(self.expected_type);
        s.append(", but found None");
        s
    }

    /// The debug text of the error.
    pub fn debug_text(&self) -> (res: String)
        ensures
            res@ == none_error_debug_text(self.expected_type@),
    {
        let mut s = String::from_str("NoneError { expected_type: ");
        push_debug_str(&mut s, self.expected_type);
        s.append(" }");
        s
    }

    /// The error as a context value.
    pub fn into_object(self) -> (res: Object)
        ensures
            is_none_error(res, self.expected_type@),
    {
        proof {
            reveal_strlit("rootcause::option_ext::NoneError");
        }
        Object {
            type_id: NONE_ERROR_TYPE_ID,
            type_label: String::from_str("rootcause::option_ext::NoneError"),
            display: self.to_text(),
            debug: self.debug_text(),
        }
    }

    /// A report of a missing value of the type named `expected_type`.
    pub fn new_sendsync_report(expected_type: &'static str, hooks: Option<&Hooks>, location: Location) -> (res: Report)
        ensures
            is_none_report(res@, expected_type@, hooks_value(hooks), location),
    {
        Report::new(NoneError::new(expected_type).into_object(), hooks, location)
    }

    /// A report, for use in one thread, of a missing value of the type named
    /// `expected_type`.
    pub fn new_local_report(expected_type: &'static str, hooks: Option<&Hooks>, location: Location) -> (res: Report)
        ensures
            is_none_report(res@, expected_type@, hooks_value(hooks), location),
    {
        let obj = NoneError::new(expected_type).into_object();
        Report::from_parts_local::<handlers::Error>(
            obj,
            crate::report::ReportCollection::new(),
            crate::report::ReportAttachments::new(),
            hooks,
            location,
        )
    }
}

/// Reports for `Option` values that are `None`; the name of the type of the
/// expected value is handed in as `expected_type`.
pub trait OptionExt<V>: Sized {
    /// The value, or a report of the missing value.
    fn ok_or_report(self, expected_type: &'static str, hooks: Option<&Hooks>, location: Location) -> Result<V, Report>;

    /// The value, or a report with the context `context` over a report of
    /// the missing value.
    fn context(
        self,
        expected_type: &'static str,
        context: Object,
        hooks: Option<&Hooks>,
        location: Location,
    ) -> Result<V, Report>;

    /// Like [`OptionExt::context`], with the context made by `context` only
    /// when the value is missing.
    fn context_with<F: FnOnce() -> Object>(
        self,
        expected_type: &'static str,
        context: F,
        hooks: Option<&Hooks>,
        location: Location,
    ) -> Result<V, Report>
        requires
            context.requires(()),
    ;

    /// Like [`OptionExt::context`], with the context rendered by the handler `H`.
    fn context_custom<H: ContextHandler>(
        self,
        expected_type: &'static str,
        context: Object,
        hooks: Option<&Hooks>,
        location: Location,
    ) -> Result<V, Report>;

    /// Like [`OptionExt::context_custom`], with the context made by `context`
    /// only when the value is missing.
    fn context_custom_with<H: ContextHandler, F: FnOnce() -> Object>(
        self,
        expected_type: &'static str,
        context: F,
        hooks: Option<&Hooks>,
        location: Location,
    ) -> Result<V, Report>
        requires
            context.requires(()),
    ;

    /// Like [`OptionExt::context`], for a report used in one thread.
    fn local_context(
        self,
        expected_type: &'static str,
        context: Object,
        hooks: Option<&Hooks>,
        location: Location,
    ) -> Result<V, Report>;

    /// Like [`OptionExt::context_with`], for a report used in one thread.
    fn local_context_with<F: FnOnce() -> Object>(
        self,
        expected_type: &'static str,
        context: F,
        hooks: Option<&Hooks>,
        location: Location,
    ) -> Result<V, Report>
        requires
            context.requires(()),
    ;

    /// Like [`OptionExt::context_custom`], for a report used in one thread.
    fn local_context_custom<H: ContextHandler>(
        self,
        expected_type: &'static str,
        context: Object,
        hooks: Option<&Hooks>,
        location: Location,
    ) -> Result<V, Report>;

    /// Like [`OptionExt::context_custom_with`], for a report used in one thread.
    fn local_context_custom_with<H: ContextHandler, F: FnOnce() -> Object>(
        self,
        expected_type: &'static str,
        context: F,
        hooks: Option<&Hooks>,
        location: Location,
    ) -> Result<V, Report>
        requires
            context.requires(()),
    ;
}

impl<V> OptionExt<V> for Option<V> {
    fn ok_or_report(self, expected_type: &'static str, hooks: Option<&Hooks>, location: Location) -> (res: Result<V, Report>)
        ensures
            match self {
                Some(v) => res == Ok::<V, Report>(v),
                None => res matches Err(r) && is_none_report(r@, expected_type@, hooks_value(hooks), location),
            },
    {
        match self {
            Some(v) => Ok(v),
            None => Err(NoneError::new_sendsync_report(expected_type, hooks, location)),
        }
    }

    fn context(
        self,
        expected_type: &'static str,
        context: Object,
        hooks: Option<&Hooks>,
        location: Location,
    ) -> (res: Result<V, Report>)
        ensures
            match self {
                Some(v) => res == Ok::<V, Report>(v),
                None => res matches Err(r) && is_none_context_report(
                    r@,
                    expected_type@,
                    context,
                    ContextHandlerKind::Display,
                    hooks_value(hooks),
                    location,
                ),
            },
    {
        match self {
            Some(v) => Ok(v),
            None => Err(
                NoneError::new_sendsync_report(expected_type, hooks, location).context(
                    context,
                    hooks,
                    location,
                ),
            ),
        }
    }

    fn context_with<F: FnOnce() -> Object>(
        self,
        expected_type: &'static str,
        context: F,
        hooks: Option<&Hooks>,
        location: Location,
    ) -> (res: Result<V, Report>)
        ensures
            match self {
                Some(v) => res == Ok::<V, Report>(v),
                None => res matches Err(r) && context.ensures((), r@.context) && is_none_context_report(
                    r@,
                    expected_type@,
                    r@.context,
                    ContextHandlerKind::Display,
                    hooks_value(hooks),
                    location,
                ),
            },
    {
        match self {
            Some(v) => Ok(v),
            None => {
                let c = context();
                Err(NoneError::new_sendsync_report(expected_type, hooks, location).context(c, hooks, location))
            },
        }
    }

    fn context_custom<H: ContextHandler>(
        self,
        expected_type: &'static str,
        context: Object,
        hooks: Option<&Hooks>,
        location: Location,
    ) -> (res: Result<V, Report>)
        ensures
            match self {
                Some(v) => res == Ok::<V, Report>(v),
                None => res matches Err(r) && is_none_context_report(
                    r@,
                    expected_type@,
                    context,
                    H::spec_context_kind(),
                    hooks_value(hooks),
                    location,
                ),
            },
    {
        match self {
            Some(v) => Ok(v),
            None => Err(
                NoneError::new_sendsync_report(expected_type, hooks, location).context_custom::<H>(
                    context,
                    hooks,
                    location,
                ),
            ),
        }
    }

    fn context_custom_with<H: ContextHandler, F: FnOnce() -> Object>(
        self,
        expected_type: &'static str,
        context: F,
        hooks: Option<&Hooks>,
        location: Location,
    ) -> (res: Result<V, Report>)
        ensures
            match self {
                Some(v) => res == Ok::<V, Report>(v),
                None => res matches Err(r) && context.ensures((), r@.context) && is_none_context_report(
                    r@,
                    expected_type@,
                    r@.context,
                    H::spec_context_kind(),
                    hooks_value(hooks),
                    location,
                ),
            },
    {
        match self {
            Some(v) => Ok(v),
            None => {
                let c = context();
                Err(
                    NoneError::new_sendsync_report(expected_type, hooks, location).context_custom::<H>(
                        c,
                        hooks,
                        location,
                    ),
                )
            },
        }
    }

    fn local_context(
        self,
        expected_type: &'static str,
        context: Object,
        hooks: Option<&Hooks>,
        location: Location,
    ) -> (res: Result<V, Report>)
        ensures
            match self {
                Some(v) => res == Ok::<V, Report>(v),
                None => res matches Err(r) && is_none_context_report(
                    r@,
                    expected_type@,
                    context,
                    ContextHandlerKind::Display,
                    hooks_value(hooks),
                    location,
                ),
            },
    {
        match self {
            Some(v) => Ok(v),
            None => Err(
                NoneError::new_local_report(expected_type, hooks, location).context(
                    context,
                    hooks,
                    location,
                ),
            ),
        }
    }

    fn local_context_with<F: FnOnce() -> Object>(
        self,
        expected_type: &'static str,
        context: F,
        hooks: Option<&Hooks>,
        location: Location,
    ) -> (res: Result<V, Report>)
        ensures
            match self {
                Some(v) => res == Ok::<V, Report>(v),
                None => res matches Err(r) && context.ensures((), r@.context) && is_none_context_report(
                    r@,
                    expected_type@,
                    r@.context,
                    ContextHandlerKind::Display,
                    hooks_value(hooks),
                    location,
                ),
            },
    {
        match self {
            Some(v) => Ok(v),
            None => {
                let c = context();
                Err(NoneError::new_local_report(expected_type, hooks, location).context(c, hooks, location))
            },
        }
    }

    fn local_context_custom<H: ContextHandler>(
        self,
        expected_type: &'static str,
        context: Object,
        hooks: Option<&Hooks>,
        location: Location,
    ) -> (res: Result<V, Report>)
        ensures
            match self {
                Some(v) => res == Ok::<V, Report>(v),
                None => res matches Err(r) && is_none_context_report(
                    r@,
                    expected_type@,
                    context,
                    H::spec_context_kind(),
                    hooks_value(hooks),
                    location,
                ),
            },
    {
        match self {
            Some(v) => Ok(v),
            None => Err(
                NoneError::new_local_report(expected_type, hooks, location).context_custom::<H>(
                    context,
                    hooks,
                    location,
                ),
            ),
        }
    }

    fn local_context_custom_with<H: ContextHandler, F: FnOnce() -> Object>(
        self,
        expected_type: &'static str,
        context: F,
        hooks: Option<&Hooks>,
        location: Location,
    ) -> (res: Result<V, Report>)
        ensures
            match self {
                Some(v) => res == Ok::<V, Report>(v),
                None => res matches Err(r) && context.ensures((), r@.context) && is_none_context_report(
                    r@,
                    expected_type@,
                    r@.context,
                    H::spec_context_kind(),
                    hooks_value(hooks),
                    location,
                ),
            },
    {
        match self {
            Some(v) => Ok(v),
            None => {
                let c = context();
                Err(
                    NoneError::new_local_report(expected_type, hooks, location).context_custom::<H>(
                        c,
                        hooks,
                        location,
                    ),
                )
            },
        }
    }
}

} // verus!
