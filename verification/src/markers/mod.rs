//! Markers that tell, in a report's type, who owns it and whether it may be
//! shared between threads.

use vstd::prelude::*;
use crate::hooks::Hooks;
use crate::hooks::builtin_hooks::location::Location;
use crate::hooks::report_creation::{creation_adds, run_creation_hooks_local, run_creation_hooks_sendsync};
use crate::report::{Report, hooks_value};

mod sealed_context_marker;
mod sealed_report_ownership_marker;
mod sealed_report_ref_ownership_marker;
mod sealed_send_sync_marker;

verus! {

/// A report that is owned alone and may be changed.
#[derive(Copy, Clone, PartialEq, Eq, PartialOrd, Ord, Debug, Default, Hash)]
pub struct Mutable;

/// A report that may be shared and cloned, and so not changed.
#[derive(Copy, Clone, PartialEq, Eq, PartialOrd, Ord, Debug, Default, Hash)]
pub struct Cloneable;

/// A reference to a report that may not be cloned.
#[derive(Copy, Clone, PartialEq, Eq, PartialOrd, Ord, Debug, Default, Hash)]
pub struct Uncloneable;

/// A report whose values may be sent and shared between threads.
#[derive(Copy, Clone, PartialEq, Eq, PartialOrd, Ord, Debug, Default, Hash)]
pub struct SendSync;

/// A report that stays in one thread.
#[derive(Copy, Clone, PartialEq, Eq, PartialOrd, Ord, Debug, Default, Hash)]
pub struct Local;

/// A type that can stand as the context or an attachment of a report.
pub trait ObjectMarker: sealed_context_marker::Sealed {}

impl<T> ObjectMarker for T {}

/// How a report is owned.
pub trait ReportOwnershipMarker: sealed_report_ownership_marker::Sealed {
    /// How a reference to such a report is owned.
    type RefMarker: ReportRefOwnershipMarker;
}

impl ReportOwnershipMarker for Mutable {
    type RefMarker = Uncloneable;
}

impl ReportOwnershipMarker for Cloneable {
    type RefMarker = Cloneable;
}

/// How a reference to a report is owned.
pub trait ReportRefOwnershipMarker: sealed_report_ref_ownership_marker::Sealed {}

impl ReportRefOwnershipMarker for Cloneable {}

impl ReportRefOwnershipMarker for Uncloneable {}

/// Whether a report may be shared between threads; this decides which
/// variant of the creation hooks runs.
pub trait ThreadSafetyMarker: sealed_send_sync_marker::Sealed {
    /// Whether the marker is [`Local`].
    spec fn spec_is_local() -> bool;

    /// Whether the marker is [`Local`].
    fn is_local() -> (res: bool)
        ensures
            res == Self::spec_is_local(),
    ;
}

impl ThreadSafetyMarker for SendSync {
    open spec fn spec_is_local() -> bool {
        false
    }

    fn is_local() -> (res: bool) {
        false
    }
}

impl ThreadSafetyMarker for Local {
    open spec fn spec_is_local() -> bool {
        true
    }

    fn is_local() -> (res: bool) {
        true
    }
}

/// A type that can stand in a report with the thread safety `T`.
pub trait ObjectMarkerFor<T: ThreadSafetyMarker>: ObjectMarker {}

impl<O> ObjectMarkerFor<Local> for O {}

impl<O: Send + Sync> ObjectMarkerFor<SendSync> for O {}

/// Runs the creation hooks on `report`, created at `location`, in the
/// variant that the thread safety `T` selects.
pub fn run_creation_hooks<T: ThreadSafetyMarker>(report: &mut Report, hooks: Option<&Hooks>, location: Location)
    ensures
        final(report).context == old(report).context,
        final(report).context_handler == old(report).context_handler,
        final(report).children == old(report).children,
        old(report).attachments.items@.len() <= final(report).attachments.items@.len(),
        final(report).attachments.items@.take(old(report).attachments.items@.len() as int)
            == old(report).attachments.items@,
        creation_adds(
            hooks_value(hooks),
            location,
            old(report).children.reports@.len() > 0,
            final(report).attachments.items@.skip(old(report).attachments.items@.len() as int),
        ),
{
    if T::is_local() {
        run_creation_hooks_local(report, hooks, location);
    } else {
        run_creation_hooks_sendsync(report, hooks, location);
    }
}

} // verus!
