//! The handler a report-building macro picks for a value: the error handler
//! for errors, else the display handler, else the debug handler, else the
//! handler that shows only the type. The choice is made by the compiler from
//! the traits the value's type implements; `Wrap` and the reference levels
//! in the impls order the candidates.

use vstd::prelude::*;
use crate::handlers::{self, AttachmentHandler, ContextHandler};
use crate::hooks::Hooks;
use crate::hooks::builtin_hooks::location::Location;
use crate::markers;
use crate::object::Object;
use crate::report::{Report, ReportAttachment, ReportAttachments, ReportCollection, created, hooks_value};

verus! {

/// A borrowed value whose handler is being chosen.
pub struct Wrap<'a, T>(pub &'a T);

/// Picks the thread safety of values that may be shared between threads.
pub trait SendSyncKind {
    /// The marker of values shared between threads.
    fn thread_safety(&self) -> markers::SendSync {
        markers::SendSync
    }
}

impl<C: Send + Sync> SendSyncKind for C {}

/// Picks the thread safety of values that stay in one thread.
pub trait LocalKind {
    /// The marker of values used in one thread.
    fn thread_safety(&self) -> markers::Local {
        markers::Local
    }
}

impl<C> LocalKind for &C {}

/// Picks the error handler.
pub trait HandlerErrorKind {
    /// The error handler.
    fn handler(&self) -> handlers::Error {
        handlers::Error
    }
}

/// Picks the display handler.
pub trait HandlerDisplayKind {
    /// The display handler.
    fn handler(&self) -> handlers::Display {
        handlers::Display
    }
}

impl<'a, C: core::fmt::Display> HandlerDisplayKind for &&Wrap<'a, C> {}

/// Picks the debug handler.
pub trait HandlerDebugKind {
    /// The debug handler.
    fn handler(&self) -> handlers::Debug {
        handlers::Debug
    }
}

impl<'a, C: core::fmt::Debug> HandlerDebugKind for &Wrap<'a, C> {}

/// Picks the handler that shows only the type.
pub trait HandlerAnyKind {
    /// The handler that shows only the type.
    fn handler(&self) -> handlers::Any {
        handlers::Any
    }
}

impl<'a, C> HandlerAnyKind for Wrap<'a, C> {}

/// A new report of `context`, rendered by the handler `H` that was picked
/// for it, with no children and no attachments.
pub fn macro_helper_new_report<H: ContextHandler, T: markers::ThreadSafetyMarker>(
    _handler: H,
    _thread_safety: T,
    context: Object,
    hooks: Option<&Hooks>,
    location: Location,
) -> (res: Report)
    ensures
        created(
            res@,
            context,
            H::spec_context_kind(),
            Seq::empty(),
            Seq::empty(),
            hooks_value(hooks),
            location,
        ),
{
    let mut report = Report {
        context,
        context_handler: H::context_kind(),
        children: ReportCollection::new(),
        attachments: ReportAttachments::new(),
    };
    proof {
        crate::report::lemma_views(report.children.reports@);
    }
    markers::run_creation_hooks::<T>(&mut report, hooks, location);
    report
}

/// A new attachment of `attachment`, rendered by the handler `H` that was
/// picked for it.
pub fn macro_helper_new_report_attachment<H: AttachmentHandler, T: markers::ThreadSafetyMarker>(
    _handler: H,
    _thread_safety: T,
    attachment: Object,
) -> (res: ReportAttachment)
    ensures
        res.object == attachment,
        res.handler == H::spec_attachment_kind(),
{
    ReportAttachment::new_custom::<H>(attachment)
}

} // verus!
