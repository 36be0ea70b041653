//! Reports as plain errors, for code that expects an error type, and the
//! errors of other libraries as reports.

use vstd::prelude::*;
use crate::handlers::FormattingFunction;
use crate::hooks::Hooks;
use crate::hooks::builtin_hooks::report_formatter::render_reports;
use crate::hooks::report_formatter::{format_report, installed_layout};
use crate::handlers::{BoxedErrorHandler, ContextHandlerKind};
use crate::hooks::builtin_hooks::location::Location;
use crate::object::Object;
use crate::report::{Report, created, hooks_value};

verus! {

/// A report that stands as an error: it renders as the report does.
pub struct ReportAsError(pub Report);

impl Clone for ReportAsError {
    fn clone(&self) -> (res: Self)
        ensures
            res.0@ == self.0@,
    {
        ReportAsError(self.0.clone_report())
    }
}

impl ReportAsError {
    /// The report as an error.
    pub fn new(report: Report) -> (res: Self)
        ensures
            res.0 == report,
    {
        ReportAsError(report)
    }

    /// The error's text: the report rendered for display in the layout the
    /// installed hooks `hooks` ask for.
    pub fn display_text(&self, hooks: Option<&Hooks>) -> (res: String)
        ensures
            res@ == render_reports(
                installed_layout(hooks_value(hooks)),
                FormattingFunction::Display,
                seq![self.0@],
            ),
    {
        format_report(&self.0, hooks, FormattingFunction::Display)
    }

    /// The error's debug text: the report rendered for debugging.
    pub fn debug_text(&self, hooks: Option<&Hooks>) -> (res: String)
        ensures
            res@ == render_reports(
                installed_layout(hooks_value(hooks)),
                FormattingFunction::Debug,
                seq![self.0@],
            ),
    {
        format_report(&self.0, hooks, FormattingFunction::Debug)
    }

    /// The report.
    pub fn into_report(self) -> (res: Report)
        ensures
            res == self.0,
    {
        self.0
    }
}


/// A boxed error of another library, described as a value.
pub struct BoxedError(pub Object);

/// Conversion of another library's errors into reports.
pub trait IntoRootcause {
    /// What the conversion gives.
    type Output;

    /// The error as a report, created at `location` under the installed
    /// hooks `hooks`.
    fn into_rootcause(self, hooks: Option<&Hooks>, location: Location) -> Self::Output;
}

impl IntoRootcause for BoxedError {
    type Output = Report;

    fn into_rootcause(self, hooks: Option<&Hooks>, location: Location) -> (res: Report)
        ensures
            created(
                res@,
                self.0,
                ContextHandlerKind::BoxedError,
                Seq::empty(),
                Seq::empty(),
                hooks_value(hooks),
                location,
            ),
    {
        Report::new_custom::<BoxedErrorHandler>(self.0, hooks, location)
    }
}

impl<T> IntoRootcause for Result<T, BoxedError> {
    type Output = Result<T, Report>;

    fn into_rootcause(self, hooks: Option<&Hooks>, location: Location) -> (res: Result<T, Report>)
        ensures
            match self {
                Ok(v) => res == Ok::<T, Report>(v),
                Err(e) => res matches Err(r) && created(
                    r@,
                    e.0,
                    ContextHandlerKind::BoxedError,
                    Seq::empty(),
                    Seq::empty(),
                    hooks_value(hooks),
                    location,
                ),
            },
    {
        match self {
            Ok(v) => Ok(v),
            Err(e) => Err(e.into_rootcause(hooks, location)),
        }
    }
}

/// Conversion of reports into plain errors.
pub trait IntoBoxedError {
    /// What the conversion gives.
    type Output;

    /// The report as a plain error.
    fn into_boxed_error(self) -> Self::Output;
}

impl IntoBoxedError for Report {
    type Output = ReportAsError;

    fn into_boxed_error(self) -> (res: ReportAsError)
        ensures
            res.0 == self,
    {
        ReportAsError(self)
    }
}

impl<T> IntoBoxedError for Result<T, Report> {
    type Output = Result<T, ReportAsError>;

    fn into_boxed_error(self) -> (res: Result<T, ReportAsError>)
        ensures
            match self {
                Ok(v) => res == Ok::<T, ReportAsError>(v),
                Err(r) => res matches Err(e) && e.0 == r,
            },
    {
        match self {
            Ok(v) => Ok(v),
            Err(r) => Err(ReportAsError(r)),
        }
    }
}

} // verus!
