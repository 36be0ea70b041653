//! Conversions into reports and report collections.

use vstd::prelude::*;
use crate::hooks::Hooks;
use crate::hooks::builtin_hooks::location::Location;
use crate::handlers::ContextHandlerKind;
use crate::object::Object;
use crate::report::{Report, ReportCollection, ReportView, created, hooks_value};

verus! {

/// A value that can become a report.
pub trait IntoReport: Sized {
    /// Whether `r` is what `self` becomes when created at `location` under
    /// the installed hooks `hooks`.
    spec fn spec_into_report(self, hooks: Option<Hooks>, location: Location, r: ReportView) -> bool;

    /// This value as a report, created at `location` under the installed
    /// hooks `hooks`.
    fn into_report(self, hooks: Option<&Hooks>, location: Location) -> (res: Report)
        ensures
            self.spec_into_report(hooks_value(hooks), location, res@),
    ;
}

impl IntoReport for Report {
    /// A report stays as it is.
    open spec fn spec_into_report(self, hooks: Option<Hooks>, location: Location, r: ReportView) -> bool {
        r == self@
    }

    fn into_report(self, hooks: Option<&Hooks>, location: Location) -> (res: Report) {
        self
    }
}

impl IntoReport for Object {
    /// An error becomes a new report of it, rendered by the error handler.
    open spec fn spec_into_report(self, hooks: Option<Hooks>, location: Location, r: ReportView) -> bool {
        created(r, self, ContextHandlerKind::Error, Seq::empty(), Seq::empty(), hooks, location)
    }

    fn into_report(self, hooks: Option<&Hooks>, location: Location) -> (res: Report) {
        Report::new(self, hooks, location)
    }
}

/// A value that can become a collection of reports.
pub trait IntoReportCollection: Sized {
    /// Whether `rs` is what `self` becomes when created at `location` under
    /// the installed hooks `hooks`.
    spec fn spec_into_collection(
        self,
        hooks: Option<Hooks>,
        location: Location,
        rs: Seq<ReportView>,
    ) -> bool;

    /// This value as a collection of reports.
    fn into_report_collection(self, hooks: Option<&Hooks>, location: Location) -> (res:
        ReportCollection)
        ensures
            self.spec_into_collection(hooks_value(hooks), location, res@),
    ;
}

impl IntoReportCollection for Report {
    /// A report becomes the collection of itself alone.
    open spec fn spec_into_collection(
        self,
        hooks: Option<Hooks>,
        location: Location,
        rs: Seq<ReportView>,
    ) -> bool {
        rs == seq![self@]
    }

    fn into_report_collection(self, hooks: Option<&Hooks>, location: Location) -> (res:
        ReportCollection) {
        let ghost me = self@;
        let mut c = ReportCollection::new();
        c.push(self);
        assert(c@ =~= seq![me]);
        c
    }
}

impl IntoReportCollection for ReportCollection {
    /// A collection stays as it is.
    open spec fn spec_into_collection(
        self,
        hooks: Option<Hooks>,
        location: Location,
        rs: Seq<ReportView>,
    ) -> bool {
        rs == self@
    }

    fn into_report_collection(self, hooks: Option<&Hooks>, location: Location) -> (res:
        ReportCollection) {
        self
    }
}

impl IntoReportCollection for Object {
    /// An error becomes the collection of a new report of it alone.
    open spec fn spec_into_collection(
        self,
        hooks: Option<Hooks>,
        location: Location,
        rs: Seq<ReportView>,
    ) -> bool {
        &&& rs.len() == 1
        &&& created(rs[0], self, ContextHandlerKind::Error, Seq::empty(), Seq::empty(), hooks, location)
    }

    fn into_report_collection(self, hooks: Option<&Hooks>, location: Location) -> (res:
        ReportCollection) {
        let r = Report::new(self, hooks, location);
        let ghost rv = r@;
        let mut c = ReportCollection::new();
        c.push(r);
        assert(c@ =~= seq![rv]);
        c
    }
}

} // verus!
