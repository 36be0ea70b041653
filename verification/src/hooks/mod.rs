//! Hooks customize what gets collected when a report is created and how
//! reports are rendered.

use vstd::prelude::*;
use crate::hooks::builtin_hooks::location::LocationHook;
use crate::hooks::builtin_hooks::report_formatter::DefaultReportFormatter;
use crate::hooks::report_creation::{
    CollectorRef, CreationHook, StoredCreationHook, attachment_hook_to_untyped,
    collector_description, location_hook,
};

pub mod builtin_hooks;
pub mod formatting_overrides;
pub mod report_formatter;
pub mod report_creation;

verus! {

/// A set of hooks: those that run when a report is created, in order, and
/// the layout reports are rendered in.
pub struct Hooks {
    /// The creation hooks, in the order they run.
    pub report_creation: Vec<StoredCreationHook>,
    /// The layout reports are rendered in; the default layout where unset.
    pub report_formatter: Option<DefaultReportFormatter>,
}

impl Hooks {
    /// The default hooks: the location of each report is attached.
    pub fn new() -> (res: Self)
        ensures
            res.report_creation@.len() == 1,
            res.report_creation@[0].hook == CreationHook::Location(LocationHook),
            res.report_creation@[0].description@ == collector_description(
                "rootcause::hooks::builtin_hooks::location::Location"@,
                "rootcause::hooks::builtin_hooks::location::LocationHandler"@,
                "rootcause::hooks::builtin_hooks::location::LocationHook"@,
            ),
            res.report_formatter is None,
    {
        let mut report_creation: Vec<StoredCreationHook> = Vec::new();
        report_creation.push(location_hook());
        Hooks { report_creation, report_formatter: None }
    }

    /// Hooks that do nothing when a report is created.
    pub fn new_without_locations() -> (res: Self)
        ensures
            res.report_creation@.len() == 0,
            res.report_formatter is None,
    {
        Hooks { report_creation: Vec::new(), report_formatter: None }
    }

    /// These hooks with `hook` run last when a report is created.
    pub fn report_creation_hook(self, hook: StoredCreationHook) -> (res: Self)
        ensures
            res.report_creation@ == self.report_creation@.push(hook),
            res.report_formatter == self.report_formatter,
    {
        let mut s = self;
        s.report_creation.push(hook);
        s
    }

    /// These hooks with the attachment collector `collector`, named
    /// `collector_type`, run last when a report is created; it collects
    /// values of the type named `attachment_type`, rendered by the handler
    /// named `handler_type`.
    pub fn attachment_collector(
        self,
        collector: CollectorRef,
        attachment_type: &'static str,
        handler_type: &'static str,
        collector_type: &'static str,
    ) -> (res: Self)
        ensures
            res.report_creation@.len() == self.report_creation@.len() + 1,
            res.report_creation@.drop_last() == self.report_creation@,
            res.report_creation@.last().hook == CreationHook::Collector(collector),
            res.report_creation@.last().description@ == collector_description(
                attachment_type@,
                handler_type@,
                collector_type@,
            ),
            res.report_formatter == self.report_formatter,
    {
        let mut s = self;
        let ghost before = s.report_creation@;
        let hook = attachment_hook_to_untyped(collector, attachment_type, handler_type, collector_type);
        s.report_creation.push(hook);
        assert(s.report_creation@.drop_last() =~= before);
        s
    }

    /// These hooks with reports rendered in the layout `formatter`.
    pub fn report_formatter(self, formatter: DefaultReportFormatter) -> (res: Self)
        ensures
            res.report_creation@ == self.report_creation@,
            res.report_formatter == Some(formatter),
    {
        let mut s = self;
        s.report_formatter = Some(formatter);
        s
    }
}

impl Default for Hooks {
    fn default() -> (res: Self)
        ensures
            res.report_creation@.len() == 1,
            res.report_creation@[0].hook == CreationHook::Location(LocationHook),
            res.report_formatter is None,
    {
        Hooks::new()
    }
}

} // verus!
