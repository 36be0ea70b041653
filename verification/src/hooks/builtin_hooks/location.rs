//! Source locations: where in the program a report was created, attached to
//! the report when it is created.

use vstd::prelude::*;
use vstd::string::StringExecFns;
use crate::handlers::{
    AttachmentFormattingStyle, AttachmentHandler, AttachmentHandlerKind, FormattingFunction,
    attachment_preferred_style,
};
use crate::object::Object;
use crate::report::ReportAttachment;
use crate::text::{decimal, push_decimal};

verus! {

/// A place in the program's source: a file and a line in it.
#[derive(Copy, Clone, Debug, PartialEq, Eq, Hash)]
pub struct Location {
    /// The path of the source file.
    pub file: &'static str,
    /// The line, counted from 1.
    pub line: u32,
}

/// The text of a location: the file, a colon and the line.
pub open spec fn location_text(loc: Location) -> Seq<char> {
    loc.file@ + ":"@ + decimal(loc.line as nat)
}

/// The identifier of the type [`Location`] among the types of attached values.
pub const LOCATION_TYPE_ID: u64 = 0x3c59_a1e7_0d42_b866;

/// Whether `a` is the attachment that stands for the location `loc`.
pub open spec fn is_location_attachment(a: ReportAttachment, loc: Location) -> bool {
    &&& a.object.type_id == LOCATION_TYPE_ID
    &&& a.object.type_label@ == "rootcause::hooks::builtin_hooks::location::Location"@
    &&& a.object.display@ == location_text(loc)
    &&& a.object.debug@ == location_text(loc)
    &&& a.handler == AttachmentHandlerKind::Location
}

impl Location {
    /// The location at line `line` of the file `file`.
    pub fn new(file: &'static str, line: u32) -> (res: Self)
        ensures
            res.file == file,
            res.line == line,
    {
        Location { file, line }
    }

    /// The text of the location: `file:line`.
    pub fn to_text(&self) -> (res: String)
        ensures
            res@ == location_text(*self),
    {
        let mut s = String::from_str(self.file);
        s.append(":");
        push_decimal(&mut s, self.line as u64);
        s
    }
}

/// Renders locations as `file:line`, in both forms, with priority 20.
#[derive(Copy, Clone)]
pub struct LocationHandler;

impl AttachmentHandler for LocationHandler {
    open spec fn spec_attachment_kind() -> AttachmentHandlerKind {
        AttachmentHandlerKind::Location
    }

    fn attachment_kind() -> (k: AttachmentHandlerKind) {
        AttachmentHandlerKind::Location
    }
}

impl LocationHandler {
    /// The text of `value`.
    pub fn display(value: &Location) -> (res: String)
        ensures
            res@ == location_text(*value),
    {
        value.to_text()
    }

    /// The debug text of `value`, which is its text.
    pub fn debug(value: &Location) -> (res: String)
        ensures
            res@ == location_text(*value),
    {
        value.to_text()
    }

    /// The style a location prefers: inline, with priority 20.
    pub fn preferred_formatting_style(_value: &Location, f: FormattingFunction) -> (res:
        AttachmentFormattingStyle)
        ensures
            res == attachment_preferred_style(AttachmentHandlerKind::Location, f),
    {
        crate::handlers::attachment_preferred_formatting_style(AttachmentHandlerKind::Location, f)
    }

    /// `value` as an attachment rendered by this handler.
    pub fn attachment(value: Location) -> (res: ReportAttachment)
        ensures
            is_location_attachment(res, value),
    {
        let text = value.to_text();
        let object = Object {
            type_id: LOCATION_TYPE_ID,
            type_label: String::from_str("rootcause::hooks::builtin_hooks::location::Location"),
            display: text.clone(),
            debug: text,
        };
        proof {
            reveal_strlit("rootcause::hooks::builtin_hooks::location::Location");
        }
        ReportAttachment { object, handler: AttachmentHandlerKind::Location }
    }
}

/// The creation hook that attaches the location where a report was created.
#[derive(Copy, Clone)]
pub struct LocationHook;

} // verus!
