//! Rendering reports with the layout the installed hooks ask for.

use vstd::prelude::*;
use crate::handlers::FormattingFunction;
use crate::hooks::Hooks;
use crate::hooks::builtin_hooks::report_formatter::{
    DefaultReportFormatter, render_reports, spec_unicode_ansi,
};
use crate::report::{Report, hooks_value, views};

verus! {

/// Renders whole reports.
pub trait ReportFormatter {
    /// The text of the reports `reports` rendered with `f`.
    fn format_reports(&self, reports: &[Report], f: FormattingFunction) -> String;

    /// The text of the report `report` rendered with `f`.
    fn format_report(&self, report: &Report, f: FormattingFunction) -> String;
}

impl ReportFormatter for DefaultReportFormatter {
    fn format_reports(&self, reports: &[Report], f: FormattingFunction) -> (res: String)
        ensures
            res@ == render_reports(*self, f, views(reports@)),
    {
        DefaultReportFormatter::format_reports(self, reports, f)
    }

    fn format_report(&self, report: &Report, f: FormattingFunction) -> (res: String)
        ensures
            res@ == render_reports(*self, f, seq![report@]),
    {
        DefaultReportFormatter::format_report(self, report, f)
    }
}

/// The layout that the installed hooks `hooks` ask for: their report
/// formatter, or the default layout where they set none or none are
/// installed.
pub open spec fn installed_layout(hooks: Option<Hooks>) -> DefaultReportFormatter {
    match hooks {
        Some(h) => match h.report_formatter {
            Some(f) => f,
            None => spec_unicode_ansi(),
        },
        None => spec_unicode_ansi(),
    }
}

fn layout_of(hooks: Option<&Hooks>) -> (res: DefaultReportFormatter)
    ensures
        res == installed_layout(hooks_value(hooks)),
{
    match hooks {
        Some(h) => match h.report_formatter {
            Some(f) => f,
            None => DefaultReportFormatter::unicode_ansi(),
        },
        None => DefaultReportFormatter::unicode_ansi(),
    }
}

/// The text of `report` rendered with `f` in the layout the installed hooks
/// `hooks` ask for.
pub fn format_report(report: &Report, hooks: Option<&Hooks>, f: FormattingFunction) -> (res: String)
    ensures
        res@ == render_reports(installed_layout(hooks_value(hooks)), f, seq![report@]),
{
    layout_of(hooks).format_report(report, f)
}

/// The text of `reports` rendered with `f` in the layout the installed hooks
/// `hooks` ask for.
pub fn format_reports(reports: &[Report], hooks: Option<&Hooks>, f: FormattingFunction) -> (res: String)
    ensures
        res@ == render_reports(installed_layout(hooks_value(hooks)), f, views(reports@)),
{
    layout_of(hooks).format_reports(reports, f)
}

} // verus!
