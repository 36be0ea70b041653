//! Reports for failed results: the error of a `Result` becomes a report, to
//! which a context or an attachment can be added on the way.

use vstd::prelude::*;
use crate::handlers::{self, AttachmentHandler, AttachmentHandlerKind, ContextHandler, ContextHandlerKind};
use crate::hooks::Hooks;
use crate::hooks::builtin_hooks::location::Location;
use crate::into_report::{IntoReport, IntoReportCollection};
use crate::object::Object;
use crate::report::{Report, ReportAttachment, ReportView, created, hooks_value};

mod sealed;

verus! {

/// Whether `r` is the report with the context `context`, rendered by
/// `handler`, over the reports that `e` becomes.
pub open spec fn is_context_report<E: IntoReportCollection>(
    r: ReportView,
    e: E,
    context: Object,
    handler: ContextHandlerKind,
    hooks: Option<Hooks>,
    location: Location,
) -> bool {
    &&& e.spec_into_collection(hooks, location, r.children)
    &&& created(r, context, handler, r.children, Seq::empty(), hooks, location)
}

/// Whether `r` is the report that `e` becomes with the attachment
/// `attachment`, rendered by `handler`, added at the end.
pub open spec fn is_attached_report<E: IntoReport>(
    r: ReportView,
    e: E,
    attachment: Object,
    handler: AttachmentHandlerKind,
    hooks: Option<Hooks>,
    location: Location,
) -> bool {
    &&& r.attachments.len() > 0
    &&& r.attachments.last() == (ReportAttachment { object: attachment, handler })
    &&& e.spec_into_report(hooks, location, ReportView { attachments: r.attachments.drop_last(), ..r })
}

/// Reports for `Result` values that hold an error.
pub trait ResultExt<V, E>: sealed::Sealed + Sized {

    /// The value, or the error as a report.
    fn into_report(self, hooks: Option<&Hooks>, location: Location) -> Result<V, Report>
        where
            E: IntoReport,
    ;

    /// The value, or a report with the context `context` over the reports that the error becomes.
    fn context(self, context: Object, hooks: Option<&Hooks>, location: Location) -> Result<V, Report>
        where
            E: IntoReportCollection,
    ;

    /// The value, or a report with the context `context`, rendered by the handler `H`, over the reports that the error becomes.
    fn context_with_handler<H: ContextHandler>(self, context: Object, hooks: Option<&Hooks>, location: Location) -> Result<V, Report>
        where
            E: IntoReportCollection,
    ;

    /// Like [`ResultExt::context`], with the context made by `context` only on an error.
    fn context_lazy<F: FnOnce() -> Object>(self, context: F, hooks: Option<&Hooks>, location: Location) -> Result<V, Report>
        where
            E: IntoReportCollection,
        requires
            context.requires(()),
    ;

    /// Like [`ResultExt::context_with_handler`], with the context made by `context` only on an error.
    fn context_with_handler_lazy<H: ContextHandler, F: FnOnce() -> Object>(self, context: F, hooks: Option<&Hooks>, location: Location) -> Result<V, Report>
        where
            E: IntoReportCollection,
        requires
            context.requires(()),
    ;

    /// The value, or the error as a report with `attachment` added.
    fn attach(self, attachment: Object, hooks: Option<&Hooks>, location: Location) -> Result<V, Report>
        where
            E: IntoReport,
    ;

    /// The value, or the error as a report with `attachment`, rendered by the handler `H`, added.
    fn attach_with_handler<H: AttachmentHandler>(self, attachment: Object, hooks: Option<&Hooks>, location: Location) -> Result<V, Report>
        where
            E: IntoReport,
    ;

    /// Like [`ResultExt::attach`], with the attachment made by `attachment` only on an error.
    fn attach_lazy<F: FnOnce() -> Object>(self, attachment: F, hooks: Option<&Hooks>, location: Location) -> Result<V, Report>
        where
            E: IntoReport,
        requires
            attachment.requires(()),
    ;

    /// Like [`ResultExt::attach_with_handler`], with the attachment made by `attachment` only on an error.
    fn attach_lazy_with_handler<H: AttachmentHandler, F: FnOnce() -> Object>(self, attachment: F, hooks: Option<&Hooks>, location: Location) -> Result<V, Report>
        where
            E: IntoReport,
        requires
            attachment.requires(()),
    ;

    /// The value, or the error as a report, for use in one thread.
    fn local_into_report(self, hooks: Option<&Hooks>, location: Location) -> Result<V, Report>
        where
            E: IntoReport,
    ;

    /// The value, or a report with the context `context` over the reports that the error becomes, for use in one thread.
    fn local_context(self, context: Object, hooks: Option<&Hooks>, location: Location) -> Result<V, Report>
        where
            E: IntoReportCollection,
    ;

    /// The value, or a report with the context `context`, rendered by the handler `H`, over the reports that the error becomes, for use in one thread.
    fn local_context_with_handler<H: ContextHandler>(self, context: Object, hooks: Option<&Hooks>, location: Location) -> Result<V, Report>
        where
            E: IntoReportCollection,
    ;

    /// Like [`ResultExt::local_context`], with the context made by `context` only on an error.
    fn local_context_lazy<F: FnOnce() -> Object>(self, context: F, hooks: Option<&Hooks>, location: Location) -> Result<V, Report>
        where
            E: IntoReportCollection,
        requires
            context.requires(()),
    ;

    /// Like [`ResultExt::local_context_with_handler`], with the context made by `context` only on an error.
    fn local_context_with_handler_lazy<H: ContextHandler, F: FnOnce() -> Object>(self, context: F, hooks: Option<&Hooks>, location: Location) -> Result<V, Report>
        where
            E: IntoReportCollection,
        requires
            context.requires(()),
    ;

    /// The value, or the error as a report with `attachment` added, for use in one thread.
    fn local_attach(self, attachment: Object, hooks: Option<&Hooks>, location: Location) -> Result<V, Report>
        where
            E: IntoReport,
    ;

    /// The value, or the error as a report with `attachment`, rendered by the handler `H`, added, for use in one thread.
    fn local_attach_with_handler<H: AttachmentHandler>(self, attachment: Object, hooks: Option<&Hooks>, location: Location) -> Result<V, Report>
        where
            E: IntoReport,
    ;

    /// Like [`ResultExt::local_attach`], with the attachment made by `attachment` only on an error.
    fn local_attach_lazy<F: FnOnce() -> Object>(self, attachment: F, hooks: Option<&Hooks>, location: Location) -> Result<V, Report>
        where
            E: IntoReport,
        requires
            attachment.requires(()),
    ;

    /// Like [`ResultExt::local_attach_with_handler`], with the attachment made by `attachment` only on an error.
    fn local_attach_lazy_with_handler<H: AttachmentHandler, F: FnOnce() -> Object>(self, attachment: F, hooks: Option<&Hooks>, location: Location) -> Result<V, Report>
        where
            E: IntoReport,
        requires
            attachment.requires(()),
    ;
}

impl<V, E> ResultExt<V, E> for Result<V, E> {
    fn into_report(self, hooks: Option<&Hooks>, location: Location) -> (res: Result<V, Report>)
        where
            E: IntoReport,
        ensures
            match self {
                Ok(v) => res == Ok::<V, Report>(v),
                Err(e) => res matches Err(r) && e.spec_into_report(hooks_value(hooks), location, r@),
            },
    {
        match self {
            Ok(v) => Ok(v),
            Err(e) => Err(e.into_report(hooks, location)),
        }
    }

    fn context(self, context: Object, hooks: Option<&Hooks>, location: Location) -> (res: Result<V, Report>)
        where
            E: IntoReportCollection,
        ensures
            match self {
                Ok(v) => res == Ok::<V, Report>(v),
                Err(e) => res matches Err(r) && is_context_report(
                    r@,
                    e,
                    context,
                    ContextHandlerKind::Display,
                    hooks_value(hooks),
                    location,
                ),
            },
    {
        match self {
            Ok(v) => Ok(v),
            Err(e) => {
                let children = e.into_report_collection(hooks, location);
                Err(children.context_custom::<handlers::Display>(context, hooks, location))
            },
        }
    }

    fn context_with_handler<H: ContextHandler>(self, context: Object, hooks: Option<&Hooks>, location: Location) -> (res: Result<V, Report>)
        where
            E: IntoReportCollection,
        ensures
            match self {
                Ok(v) => res == Ok::<V, Report>(v),
                Err(e) => res matches Err(r) && is_context_report(
                    r@,
                    e,
                    context,
                    H::spec_context_kind(),
                    hooks_value(hooks),
                    location,
                ),
            },
    {
        match self {
            Ok(v) => Ok(v),
            Err(e) => {
                let children = e.into_report_collection(hooks, location);
                Err(children.context_custom::<H>(context, hooks, location))
            },
        }
    }

    fn context_lazy<F: FnOnce() -> Object>(self, context: F, hooks: Option<&Hooks>, location: Location) -> (res: Result<V, Report>)
        where
            E: IntoReportCollection,
        ensures
            match self {
                Ok(v) => res == Ok::<V, Report>(v),
                Err(e) => res matches Err(r) && context.ensures((), r@.context) && is_context_report(
                    r@,
                    e,
                    r@.context,
                    ContextHandlerKind::Display,
                    hooks_value(hooks),
                    location,
                ),
            },
    {
        match self {
            Ok(v) => Ok(v),
            Err(e) => {
                let c = context();
                let children = e.into_report_collection(hooks, location);
                Err(children.context_custom::<handlers::Display>(c, hooks, location))
            },
        }
    }

    fn context_with_handler_lazy<H: ContextHandler, F: FnOnce() -> Object>(self, context: F, hooks: Option<&Hooks>, location: Location) -> (res: Result<V, Report>)
        where
            E: IntoReportCollection,
        ensures
            match self {
                Ok(v) => res == Ok::<V, Report>(v),
                Err(e) => res matches Err(r) && context.ensures((), r@.context) && is_context_report(
                    r@,
                    e,
                    r@.context,
                    H::spec_context_kind(),
                    hooks_value(hooks),
                    location,
                ),
            },
    {
        match self {
            Ok(v) => Ok(v),
            Err(e) => {
                let c = context();
                let children = e.into_report_collection(hooks, location);
                Err(children.context_custom::<H>(c, hooks, location))
            },
        }
    }

    fn attach(self, attachment: Object, hooks: Option<&Hooks>, location: Location) -> (res: Result<V, Report>)
        where
            E: IntoReport,
        ensures
            match self {
                Ok(v) => res == Ok::<V, Report>(v),
                Err(e) => res matches Err(r) && is_attached_report(
                    r@,
                    e,
                    attachment,
                    AttachmentHandlerKind::Display,
                    hooks_value(hooks),
                    location,
                ),
            },
    {
        match self {
            Ok(v) => Ok(v),
            Err(e) => {
                let r = e.into_report(hooks, location);
                let ghost rv = r@;
                let res = r.attach_custom::<handlers::Display>(attachment);
                assert(res@.attachments.drop_last() =~= rv.attachments);
                assert(ReportView { attachments: res@.attachments.drop_last(), ..res@ } == rv);
                Err(res)
            },
        }
    }

    fn attach_with_handler<H: AttachmentHandler>(self, attachment: Object, hooks: Option<&Hooks>, location: Location) -> (res: Result<V, Report>)
        where
            E: IntoReport,
        ensures
            match self {
                Ok(v) => res == Ok::<V, Report>(v),
                Err(e) => res matches Err(r) && is_attached_report(
                    r@,
                    e,
                    attachment,
                    H::spec_attachment_kind(),
                    hooks_value(hooks),
                    location,
                ),
            },
    {
        match self {
            Ok(v) => Ok(v),
            Err(e) => {
                let r = e.into_report(hooks, location);
                let ghost rv = r@;
                let res = r.attach_custom::<H>(attachment);
                assert(res@.attachments.drop_last() =~= rv.attachments);
                assert(ReportView { attachments: res@.attachments.drop_last(), ..res@ } == rv);
                Err(res)
            },
        }
    }

    fn attach_lazy<F: FnOnce() -> Object>(self, attachment: F, hooks: Option<&Hooks>, location: Location) -> (res: Result<V, Report>)
        where
            E: IntoReport,
        ensures
            match self {
                Ok(v) => res == Ok::<V, Report>(v),
                Err(e) => res matches Err(r) && attachment.ensures((), r@.attachments.last().object) && is_attached_report(
                    r@,
                    e,
                    r@.attachments.last().object,
                    AttachmentHandlerKind::Display,
                    hooks_value(hooks),
                    location,
                ),
            },
    {
        match self {
            Ok(v) => Ok(v),
            Err(e) => {
                let a = attachment();
                let r = e.into_report(hooks, location);
                let ghost rv = r@;
                let res = r.attach_custom::<handlers::Display>(a);
                assert(res@.attachments.drop_last() =~= rv.attachments);
                assert(ReportView { attachments: res@.attachments.drop_last(), ..res@ } == rv);
                Err(res)
            },
        }
    }

    fn attach_lazy_with_handler<H: AttachmentHandler, F: FnOnce() -> Object>(self, attachment: F, hooks: Option<&Hooks>, location: Location) -> (res: Result<V, Report>)
        where
            E: IntoReport,
        ensures
            match self {
                Ok(v) => res == Ok::<V, Report>(v),
                Err(e) => res matches Err(r) && attachment.ensures((), r@.attachments.last().object) && is_attached_report(
                    r@,
                    e,
                    r@.attachments.last().object,
                    H::spec_attachment_kind(),
                    hooks_value(hooks),
                    location,
                ),
            },
    {
        match self {
            Ok(v) => Ok(v),
            Err(e) => {
                let a = attachment();
                let r = e.into_report(hooks, location);
                let ghost rv = r@;
                let res = r.attach_custom::<H>(a);
                assert(res@.attachments.drop_last() =~= rv.attachments);
                assert(ReportView { attachments: res@.attachments.drop_last(), ..res@ } == rv);
                Err(res)
            },
        }
    }

    fn local_into_report(self, hooks: Option<&Hooks>, location: Location) -> (res: Result<V, Report>)
        where
            E: IntoReport,
        ensures
            match self {
                Ok(v) => res == Ok::<V, Report>(v),
                Err(e) => res matches Err(r) && e.spec_into_report(hooks_value(hooks), location, r@),
            },
    {
        match self {
            Ok(v) => Ok(v),
            Err(e) => Err(e.into_report(hooks, location)),
        }
    }

    fn local_context(self, context: Object, hooks: Option<&Hooks>, location: Location) -> (res: Result<V, Report>)
        where
            E: IntoReportCollection,
        ensures
            match self {
                Ok(v) => res == Ok::<V, Report>(v),
                Err(e) => res matches Err(r) && is_context_report(
                    r@,
                    e,
                    context,
                    ContextHandlerKind::Display,
                    hooks_value(hooks),
                    location,
                ),
            },
    {
        match self {
            Ok(v) => Ok(v),
            Err(e) => {
                let children = e.into_report_collection(hooks, location);
                Err(children.context_custom::<handlers::Display>(context, hooks, location))
            },
        }
    }

    fn local_context_with_handler<H: ContextHandler>(self, context: Object, hooks: Option<&Hooks>, location: Location) -> (res: Result<V, Report>)
        where
            E: IntoReportCollection,
        ensures
            match self {
                Ok(v) => res == Ok::<V, Report>(v),
                Err(e) => res matches Err(r) && is_context_report(
                    r@,
                    e,
                    context,
                    H::spec_context_kind(),
                    hooks_value(hooks),
                    location,
                ),
            },
    {
        match self {
            Ok(v) => Ok(v),
            Err(e) => {
                let children = e.into_report_collection(hooks, location);
                Err(children.context_custom::<H>(context, hooks, location))
            },
        }
    }

    fn local_context_lazy<F: FnOnce() -> Object>(self, context: F, hooks: Option<&Hooks>, location: Location) -> (res: Result<V, Report>)
        where
            E: IntoReportCollection,
        ensures
            match self {
                Ok(v) => res == Ok::<V, Report>(v),
                Err(e) => res matches Err(r) && context.ensures((), r@.context) && is_context_report(
                    r@,
                    e,
                    r@.context,
                    ContextHandlerKind::Display,
                    hooks_value(hooks),
                    location,
                ),
            },
    {
        match self {
            Ok(v) => Ok(v),
            Err(e) => {
                let c = context();
                let children = e.into_report_collection(hooks, location);
                Err(children.context_custom::<handlers::Display>(c, hooks, location))
            },
        }
    }

    fn local_context_with_handler_lazy<H: ContextHandler, F: FnOnce() -> Object>(self, context: F, hooks: Option<&Hooks>, location: Location) -> (res: Result<V, Report>)
        where
            E: IntoReportCollection,
        ensures
            match self {
                Ok(v) => res == Ok::<V, Report>(v),
                Err(e) => res matches Err(r) && context.ensures((), r@.context) && is_context_report(
                    r@,
                    e,
                    r@.context,
                    H::spec_context_kind(),
                    hooks_value(hooks),
                    location,
                ),
            },
    {
        match self {
            Ok(v) => Ok(v),
            Err(e) => {
                let c = context();
                let children = e.into_report_collection(hooks, location);
                Err(children.context_custom::<H>(c, hooks, location))
            },
        }
    }

    fn local_attach(self, attachment: Object, hooks: Option<&Hooks>, location: Location) -> (res: Result<V, Report>)
        where
            E: IntoReport,
        ensures
            match self {
                Ok(v) => res == Ok::<V, Report>(v),
                Err(e) => res matches Err(r) && is_attached_report(
                    r@,
                    e,
                    attachment,
                    AttachmentHandlerKind::Display,
                    hooks_value(hooks),
                    location,
                ),
            },
    {
        match self {
            Ok(v) => Ok(v),
            Err(e) => {
                let r = e.into_report(hooks, location);
                let ghost rv = r@;
                let res = r.attach_custom::<handlers::Display>(attachment);
                assert(res@.attachments.drop_last() =~= rv.attachments);
                assert(ReportView { attachments: res@.attachments.drop_last(), ..res@ } == rv);
                Err(res)
            },
        }
    }

    fn local_attach_with_handler<H: AttachmentHandler>(self, attachment: Object, hooks: Option<&Hooks>, location: Location) -> (res: Result<V, Report>)
        where
            E: IntoReport,
        ensures
            match self {
                Ok(v) => res == Ok::<V, Report>(v),
                Err(e) => res matches Err(r) && is_attached_report(
                    r@,
                    e,
                    attachment,
                    H::spec_attachment_kind(),
                    hooks_value(hooks),
                    location,
                ),
            },
    {
        match self {
            Ok(v) => Ok(v),
            Err(e) => {
                let r = e.into_report(hooks, location);
                let ghost rv = r@;
                let res = r.attach_custom::<H>(attachment);
                assert(res@.attachments.drop_last() =~= rv.attachments);
                assert(ReportView { attachments: res@.attachments.drop_last(), ..res@ } == rv);
                Err(res)
            },
        }
    }

    fn local_attach_lazy<F: FnOnce() -> Object>(self, attachment: F, hooks: Option<&Hooks>, location: Location) -> (res: Result<V, Report>)
        where
            E: IntoReport,
        ensures
            match self {
                Ok(v) => res == Ok::<V, Report>(v),
                Err(e) => res matches Err(r) && attachment.ensures((), r@.attachments.last().object) && is_attached_report(
                    r@,
                    e,
                    r@.attachments.last().object,
                    AttachmentHandlerKind::Display,
                    hooks_value(hooks),
                    location,
                ),
            },
    {
        match self {
            Ok(v) => Ok(v),
            Err(e) => {
                let a = attachment();
                let r = e.into_report(hooks, location);
                let ghost rv = r@;
                let res = r.attach_custom::<handlers::Display>(a);
                assert(res@.attachments.drop_last() =~= rv.attachments);
                assert(ReportView { attachments: res@.attachments.drop_last(), ..res@ } == rv);
                Err(res)
            },
        }
    }

    fn local_attach_lazy_with_handler<H: AttachmentHandler, F: FnOnce() -> Object>(self, attachment: F, hooks: Option<&Hooks>, location: Location) -> (res: Result<V, Report>)
        where
            E: IntoReport,
        ensures
            match self {
                Ok(v) => res == Ok::<V, Report>(v),
                Err(e) => res matches Err(r) && attachment.ensures((), r@.attachments.last().object) && is_attached_report(
                    r@,
                    e,
                    r@.attachments.last().object,
                    H::spec_attachment_kind(),
                    hooks_value(hooks),
                    location,
                ),
            },
    {
        match self {
            Ok(v) => Ok(v),
            Err(e) => {
                let a = attachment();
                let r = e.into_report(hooks, location);
                let ghost rv = r@;
                let res = r.attach_custom::<H>(a);
                assert(res@.attachments.drop_last() =~= rv.attachments);
                assert(ReportView { attachments: res@.attachments.drop_last(), ..res@ } == rv);
                Err(res)
            },
        }
    }
}

} // verus!
