//! What the report-building macros expand to.

use vstd::prelude::*;
use vstd::string::StringExecFns;
use crate::handlers::{self, AttachmentHandlerKind, ContextHandlerKind};
use crate::hooks::Hooks;
use crate::hooks::builtin_hooks::location::Location;
use crate::object::Object;
use crate::report::{Report, ReportAttachment, created, hooks_value};
use crate::text::{debug_quoted, push_debug_str};

pub mod kind;

verus! {

/// The identifier of the type `&str` among the types of reported values.
pub const STR_TYPE_ID: u64 = 0x6a3e_d915_04c7_b28f;

/// The identifier of the type `String` among the types of reported values.
pub const STRING_TYPE_ID: u64 = 0xc07b_58e2_9f14_6d3a;

/// Whether `obj` is the message `message`: a `&str` where `literal` holds,
/// else a `String`.
pub open spec fn is_message(obj: Object, message: Seq<char>, literal: bool) -> bool {
    &&& obj.type_id == (if literal {
        STR_TYPE_ID
    } else {
        STRING_TYPE_ID
    })
    &&& obj.type_label@ == (if literal {
        "&str"@
    } else {
        "alloc::string::String"@
    })
    &&& obj.display@ == message
    &&& obj.debug@ == debug_quoted(message)
}

/// The message `message` as a reported value: a `&str` where `literal`
/// holds, else a `String`.
pub fn message_object(message: String, literal: bool) -> (res: Object)
    ensures
        is_message(res, message@, literal),
{
    let mut debug = String::new();
    push_debug_str(&mut debug, message.as_str());
    proof {
        reveal_strlit("&str");
        reveal_strlit("alloc::string::String");
    }
    Object {
        type_id: if literal {
            STR_TYPE_ID
        } else {
            STRING_TYPE_ID
        },
        type_label: if literal {
            String::from_str("&str")
        } else {
            String::from_str("alloc::string::String")
        },
        display: message,
        debug,
    }
}

/// A new report of the formatted message `message`, rendered by the
/// [`handlers::Display`] handler; `literal` tells whether the message was a
/// literal without arguments.
pub fn format_report(message: String, literal: bool, hooks: Option<&Hooks>, location: Location) -> (res: Report)
    ensures
        is_message(res@.context, message@, literal),
        created(
            res@,
            res@.context,
            ContextHandlerKind::Display,
            Seq::empty(),
            Seq::empty(),
            hooks_value(hooks),
            location,
        ),
{
    Report::new_custom::<handlers::Display>(message_object(message, literal), hooks, location)
}

/// A new attachment of the formatted message `message`, rendered by the
/// [`handlers::Display`] handler.
pub fn format_report_attachment(message: String, literal: bool) -> (res: ReportAttachment)
    ensures
        is_message(res.object, message@, literal),
        res.handler == AttachmentHandlerKind::Display,
{
    ReportAttachment::new_custom::<handlers::Display>(message_object(message, literal))
}

} // verus!
