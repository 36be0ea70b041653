//! Report creation hooks: what runs each time a report is created, such as
//! the collection of the location and of a backtrace.

use vstd::prelude::*;
use vstd::string::StringExecFns;
use crate::hooks::Hooks;
use crate::hooks::builtin_hooks::backtrace::{BacktraceCollector, adds_backtrace};
use crate::hooks::builtin_hooks::location::{
    Location, LocationHandler, LocationHook, is_location_attachment,
};
use crate::handlers::AttachmentHandlerKind;
use crate::object::Object;
use crate::report::{Report, ReportAttachment};

verus! {

/// Something that runs each time a report is created and may add to it.
pub trait ReportCreationHook {
    /// Runs on a report created for use in one thread, created at `location`.
    fn on_local_creation(&self, report: &mut Report, location: Location);

    /// Runs on a report created for use across threads, created at `location`.
    fn on_sendsync_creation(&self, report: &mut Report, location: Location);
}

/// Collects a value to attach to each report that is created.
pub trait AttachmentCollector: Sync {
    /// Collects the value to attach to a report created at `location`. It is
    /// called once for each report created.
    fn collect(&self, location: Location) -> Object;
}

/// A collector that lives as long as the program, as a hook set holds it,
/// with the handler that renders what it collects.
#[derive(Copy, Clone)]
pub struct CollectorRef {
    /// The collector.
    pub collector: &'static dyn AttachmentCollector,
    /// The handler of the collected values.
    pub handler: AttachmentHandlerKind,
}

/// The kinds of creation hook a hook set can hold.
#[derive(Copy, Clone)]
pub enum CreationHook {
    /// Attaches the location where the report was created.
    Location(LocationHook),
    /// Attaches a backtrace of where the report was created.
    Backtrace(BacktraceCollector),
    /// Attaches the value a collector collects, with the collector's handler.
    Collector(CollectorRef),
}

impl AttachmentCollector for LocationHook {
    fn collect(&self, location: Location) -> Object {
        LocationHandler::attachment(location).object
    }
}

/// Appends the collected value `object`, rendered by `handler`, after the
/// attachments of `report`; nothing else of the report changes.
pub fn attach_collected(report: &mut Report, object: Object, handler: AttachmentHandlerKind)
    ensures
        final(report).context == old(report).context,
        final(report).context_handler == old(report).context_handler,
        final(report).children == old(report).children,
        final(report).attachments.items@ == old(report).attachments.items@.push(
            ReportAttachment { object, handler },
        ),
{
    report.attachments.push(ReportAttachment { object, handler });
}

/// Whether `added` is what the hook `hook` may add to a report created at
/// `loc`; `has_children` tells whether the report has children.
pub open spec fn hook_adds(
    hook: CreationHook,
    loc: Location,
    has_children: bool,
    added: Seq<ReportAttachment>,
) -> bool {
    match hook {
        CreationHook::Location(_) => added.len() == 1 && is_location_attachment(added[0], loc),
        CreationHook::Backtrace(c) => adds_backtrace(c, has_children, added),
        CreationHook::Collector(c) => added.len() == 1 && added[0].handler == c.handler,
    }
}

/// Whether `added` is what the hooks `hooks` may add, one after the other,
/// to a report created at `loc`.
pub open spec fn hooks_add(
    hooks: Seq<StoredCreationHook>,
    loc: Location,
    has_children: bool,
    added: Seq<ReportAttachment>,
) -> bool {
    exists|parts: Seq<Seq<ReportAttachment>>|
        #![trigger parts.flatten_alt()]
        {
            &&& parts.len() == hooks.len()
            &&& forall|i: int|
                0 <= i < hooks.len() ==> hook_adds(hooks[i].hook, loc, has_children, #[trigger] parts[i])
            &&& added == parts.flatten_alt()
        }
}

/// Whether `added` is what creating a report at `loc` adds under the
/// installed hooks `hooks`; where no hooks are installed, the location is
/// attached.
pub open spec fn creation_adds(
    hooks: Option<Hooks>,
    loc: Location,
    has_children: bool,
    added: Seq<ReportAttachment>,
) -> bool {
    match hooks {
        Some(h) => hooks_add(h.report_creation@, loc, has_children, added),
        None => added.len() == 1 && is_location_attachment(added[0], loc),
    }
}

impl ReportCreationHook for LocationHook {
    fn on_local_creation(&self, report: &mut Report, location: Location)
        ensures
            final(report).context == old(report).context,
            final(report).context_handler == old(report).context_handler,
            final(report).children == old(report).children,
            final(report).attachments.items@ == old(report).attachments.items@.push(
                final(report).attachments.items@.last(),
            ),
            is_location_attachment(final(report).attachments.items@.last(), location),
    {
        report.attachments.push(LocationHandler::attachment(location));
    }

    fn on_sendsync_creation(&self, report: &mut Report, location: Location)
        ensures
            final(report).context == old(report).context,
            final(report).context_handler == old(report).context_handler,
            final(report).children == old(report).children,
            final(report).attachments.items@ == old(report).attachments.items@.push(
                final(report).attachments.items@.last(),
            ),
            is_location_attachment(final(report).attachments.items@.last(), location),
    {
        report.attachments.push(LocationHandler::attachment(location));
    }
}

impl CreationHook {
    /// Runs the hook on `report`, created at `location`.
    pub fn run(&self, report: &mut Report, location: Location)
        ensures
            final(report).context == old(report).context,
            final(report).context_handler == old(report).context_handler,
            final(report).children == old(report).children,
            old(report).attachments.items@.len() <= final(report).attachments.items@.len(),
            final(report).attachments.items@.take(old(report).attachments.items@.len() as int)
                == old(report).attachments.items@,
            hook_adds(
                *self,
                location,
                old(report).children.reports@.len() > 0,
                final(report).attachments.items@.skip(old(report).attachments.items@.len() as int),
            ),
    {
        let ghost old_items = report.attachments.items@;
        match self {
            CreationHook::Location(h) => {
                h.on_sendsync_creation(report, location);
                assert(report.attachments.items@.skip(old_items.len() as int) =~= seq![
                    report.attachments.items@.last(),
                ]);
                assert(report.attachments.items@.take(old_items.len() as int) =~= old_items);
            },
            CreationHook::Backtrace(c) => {
                c.on_creation(report);
            },
            CreationHook::Collector(c) => {
                let object = c.collector.collect(location);
                attach_collected(report, object, c.handler);
                assert(report.attachments.items@.skip(old_items.len() as int) =~= seq![
                    report.attachments.items@.last(),
                ]);
                assert(report.attachments.items@.take(old_items.len() as int) =~= old_items);
            },
        }
    }
}

/// A creation hook as the hook set keeps it, with a description of it.
pub struct StoredCreationHook {
    /// The hook.
    pub hook: CreationHook,
    /// What the hook is, for inspection.
    pub description: String,
}

impl Clone for StoredCreationHook {
    fn clone(&self) -> (res: Self)
        ensures
            res == *self,
    {
        StoredCreationHook { hook: self.hook, description: self.description.clone() }
    }
}

/// Stores the creation hook `hook`, whose type is named `hook_type`.
pub fn creation_hook_to_untyped(hook: CreationHook, hook_type: &'static str) -> (res:
    StoredCreationHook)
    ensures
        res.hook == hook,
        res.description@ == "CreationHook<"@ + hook_type@ + ">"@,
{
    let mut description = String::from_str("CreationHook<");
    description.append(hook_type);
    description.append(">");
    StoredCreationHook { hook, description }
}

/// The description of an attachment collector named `collector_type`, which
/// collects values of the type named `attachment_type` rendered by the
/// handler named `handler_type`.
pub open spec fn collector_description(
    attachment_type: Seq<char>,
    handler_type: Seq<char>,
    collector_type: Seq<char>,
) -> Seq<char> {
    "AttachmentCollector<"@ + attachment_type + ", "@ + handler_type + ", "@ + collector_type + ">"@
}

fn describe_collector(
    attachment_type: &'static str,
    handler_type: &'static str,
    collector_type: &'static str,
) -> (res: String)
    ensures
        res@ == collector_description(attachment_type@, handler_type@, collector_type@),
{
    let mut description = String::from_str("AttachmentCollector<");
    description.append(attachment_type);
    description.append(", ");
    description.append(handler_type);
    description.append(", ");
    description.append(collector_type);
    description.append(">");
    description
}

/// Stores the attachment collector `collector`, named `collector_type`, which
/// collects values of the type named `attachment_type` rendered by the
/// handler named `handler_type`. The stored hook, when run, collects one
/// value and appends it with the collector's handler (see
/// [`CreationHook::run`]).
pub fn attachment_hook_to_untyped(
    collector: CollectorRef,
    attachment_type: &'static str,
    handler_type: &'static str,
    collector_type: &'static str,
) -> (res: StoredCreationHook)
    ensures
        res.hook == CreationHook::Collector(collector),
        res.description@ == collector_description(attachment_type@, handler_type@, collector_type@),
{
    StoredCreationHook {
        hook: CreationHook::Collector(collector),
        description: describe_collector(attachment_type, handler_type, collector_type),
    }
}

/// Runs the creation hooks on `report`, created at `location`: each hook of
/// `hooks` in order, or, where no hooks are installed, the attaching of the
/// location.
pub fn run_creation_hooks_sendsync(report: &mut Report, hooks: Option<&Hooks>, location: Location)
    ensures
        final(report).context == old(report).context,
        final(report).context_handler == old(report).context_handler,
        final(report).children == old(report).children,
        old(report).attachments.items@.len() <= final(report).attachments.items@.len(),
        final(report).attachments.items@.take(old(report).attachments.items@.len() as int)
            == old(report).attachments.items@,
        creation_adds(
            match hooks {
                Some(h) => Some(*h),
                None => None,
            },
            location,
            old(report).children.reports@.len() > 0,
            final(report).attachments.items@.skip(old(report).attachments.items@.len() as int),
        ),
{
    let ghost old_items = report.attachments.items@;
    let ghost has_children = report.children.reports@.len() > 0;
    match hooks {
        Some(h) => {
            let ghost mut parts: Seq<Seq<ReportAttachment>> = Seq::empty();
            let mut i: usize = 0;
            while i < h.report_creation.len()
                invariant
                    i <= h.report_creation@.len(),
                    parts.len() == i,
                    forall|j: int|
                        0 <= j < i ==> hook_adds(
                            h.report_creation@[j].hook,
                            location,
                            has_children,
                            #[trigger] parts[j],
                        ),
                    report.attachments.items@ == old_items + parts.flatten_alt(),
                    report.context == old(report).context,
                    report.context_handler == old(report).context_handler,
                    report.children == old(report).children,
                    has_children == (report.children.reports@.len() > 0),
                decreases h.report_creation@.len() - i,
            {
                let ghost before = report.attachments.items@;
                h.report_creation[i].hook.run(report, location);
                let ghost added = report.attachments.items@.skip(before.len() as int);
                proof {
                    assert(report.attachments.items@ =~= before + added);
                    let p2 = parts.push(added);
                    assert(p2.drop_last() =~= parts);
                    assert(p2.flatten_alt() == parts.flatten_alt() + added);
                    parts = p2;
                }
                i = i + 1;
            }
            proof {
                assert(report.attachments.items@.skip(old_items.len() as int) =~= parts.flatten_alt());
                assert(report.attachments.items@.take(old_items.len() as int) =~= old_items);
            }
        },
        None => {
            report.attachments.push(LocationHandler::attachment(location));
            assert(report.attachments.items@.skip(old_items.len() as int) =~= seq![
                report.attachments.items@.last(),
            ]);
            assert(report.attachments.items@.take(old_items.len() as int) =~= old_items);
        },
    }
}

/// Runs the creation hooks on `report`, created for use in one thread at
/// `location`; the hooks do the same as for a report used across threads.
pub fn run_creation_hooks_local(report: &mut Report, hooks: Option<&Hooks>, location: Location)
    ensures
        final(report).context == old(report).context,
        final(report).context_handler == old(report).context_handler,
        final(report).children == old(report).children,
        old(report).attachments.items@.len() <= final(report).attachments.items@.len(),
        final(report).attachments.items@.take(old(report).attachments.items@.len() as int)
            == old(report).attachments.items@,
        creation_adds(
            match hooks {
                Some(h) => Some(*h),
                None => None,
            },
            location,
            old(report).children.reports@.len() > 0,
            final(report).attachments.items@.skip(old(report).attachments.items@.len() as int),
        ),
{
    run_creation_hooks_sendsync(report, hooks, location)
}


/// The hook that attaches the location of each report, stored with the
/// description of the location collector.
pub fn location_hook() -> (res: StoredCreationHook)
    ensures
        res.hook == CreationHook::Location(LocationHook),
        res.description@ == collector_description(
            "rootcause::hooks::builtin_hooks::location::Location"@,
            "rootcause::hooks::builtin_hooks::location::LocationHandler"@,
            "rootcause::hooks::builtin_hooks::location::LocationHook"@,
        ),
{
    StoredCreationHook {
        hook: CreationHook::Location(LocationHook),
        description: describe_collector(
            "rootcause::hooks::builtin_hooks::location::Location",
            "rootcause::hooks::builtin_hooks::location::LocationHandler",
            "rootcause::hooks::builtin_hooks::location::LocationHook",
        ),
    }
}

/// The creation hooks in place before any is registered: the attaching of
/// the location.
pub fn default_hooks() -> (res: Vec<StoredCreationHook>)
    ensures
        res@.len() == 1,
        res@[0].hook == CreationHook::Location(LocationHook),
{
    let mut hooks: Vec<StoredCreationHook> = Vec::new();
    hooks.push(location_hook());
    hooks
}

/// Adds `hook` at the end of the registered creation hooks `registered`,
/// which start as the default hooks when none were registered before.
pub fn register_report_creation_hook(registered: &mut Option<Vec<StoredCreationHook>>, hook: StoredCreationHook)
    ensures
        (*final(registered)) is Some,
        match *old(registered) {
            Some(v) => (*final(registered))->0@ == v@.push(hook),
            None => {
                &&& (*final(registered))->0@.len() == 2
                &&& (*final(registered))->0@[0].hook == CreationHook::Location(LocationHook)
                &&& (*final(registered))->0@[1] == hook
            },
        },
{
    let mut hooks = match registered.take() {
        Some(v) => v,
        None => default_hooks(),
    };
    hooks.push(hook);
    *registered = Some(hooks);
}


/// Adds the attachment collector `collector`, named `collector_type`, at the
/// end of the registered creation hooks `registered`, which start as the
/// default hooks when none were registered before; it collects values of
/// the type named `attachment_type`, rendered by the handler named
/// `handler_type`.
pub fn register_attachment_collector_hook(
    registered: &mut Option<Vec<StoredCreationHook>>,
    collector: CollectorRef,
    attachment_type: &'static str,
    handler_type: &'static str,
    collector_type: &'static str,
)
    ensures
        (*final(registered)) is Some,
        ({
            let hook = (*final(registered))->0@.last();
            &&& hook.hook == CreationHook::Collector(collector)
            &&& hook.description@ == collector_description(
                attachment_type@,
                handler_type@,
                collector_type@,
            )
        }),
        match *old(registered) {
            Some(v) => (*final(registered))->0@.drop_last() == v@,
            None => {
                &&& (*final(registered))->0@.len() == 2
                &&& (*final(registered))->0@[0].hook == CreationHook::Location(LocationHook)
            },
        },
{
    let hook = attachment_hook_to_untyped(collector, attachment_type, handler_type, collector_type);
    register_report_creation_hook(registered, hook);
    proof {
        match *old(registered) {
            Some(v) => {
                assert((*registered)->0@.drop_last() =~= v@);
            },
            None => {},
        }
    }
}

} // verus!
