use rootcause::compat::{BoxedError, IntoBoxedError, IntoRootcause};
use rootcause::__private::kind::{HandlerAnyKind, Wrap};
use rootcause::__private::{format_report, format_report_attachment, message_object};
use rootcause::__private::kind::{macro_helper_new_report, macro_helper_new_report_attachment};
use rootcause::handlers::{
    AttachmentHandlerKind, ContextHandlerKind, Display, FormattingFunction, RedactDebug,
};
use rootcause::hooks::builtin_hooks::location::{Location, LocationHandler, LocationHook};
use rootcause::hooks::formatting_overrides::{
    choose_attachment_hook, choose_context_hook, debug_attachment_hooks, debug_context_hooks,
    HookChoice, HookDescription, HookRegistry,
};
use rootcause::hooks::report_creation::{
    attach_collected, attachment_hook_to_untyped, creation_hook_to_untyped, default_hooks,
    register_report_creation_hook, run_creation_hooks_local, run_creation_hooks_sendsync,
    AttachmentCollector, CollectorRef, CreationHook,
};
use rootcause::hooks::Hooks;
use rootcause::markers::{Local, SendSync};
use rootcause::object::Object;
use rootcause::preformatted::{PreformattedAttachment, PreformattedContext};
use rootcause::report::{Report, ReportAttachment, ReportAttachments, ReportCollection};

fn at(line: u32) -> Location {
    Location::new("src/x.rs", line)
}

fn msg(s: &str) -> Object {
    message_object(s.to_string(), true)
}

fn quiet() -> Hooks {
    Hooks::new_without_locations()
}

#[test]
fn context_makes_the_report_the_only_child() {
    let h = quiet();
    let inner = Report::new(msg("inner"), Some(&h), at(1)).attach(msg("note"));
    let outer = inner.context(msg("outer"), Some(&h), at(2));
    assert_eq!(outer.current_context().display, "outer");
    assert!(matches!(outer.context_handler, ContextHandlerKind::Display));
    assert_eq!(outer.children().len(), 1);
    let child = outer.children().get(0).unwrap();
    assert_eq!(child.current_context().display, "inner");
    assert_eq!(child.attachments().len(), 1);
    assert!(outer.attachments().is_empty());
}

#[test]
fn new_uses_the_error_handler() {
    let r = Report::new(msg("e"), Some(&quiet()), at(1));
    assert!(matches!(r.context_handler, ContextHandlerKind::Error));
    assert_eq!(r.current_context_type_id(), rootcause::__private::STR_TYPE_ID);
}

#[test]
fn attach_appends_in_order() {
    let r = Report::new(msg("e"), Some(&quiet()), at(1))
        .attach(msg("a"))
        .attach_custom::<rootcause::handlers::Debug>(msg("b"));
    assert_eq!(r.attachments().len(), 2);
    assert_eq!(r.attachments().get(0).unwrap().inner().display, "a");
    assert!(matches!(r.attachments().get(1).unwrap().handler, AttachmentHandlerKind::Debug));
    assert!(r.attachments().get(2).is_none());
}

#[test]
fn creation_hooks_attach_the_location() {
    let h = Hooks::new();
    let r = Report::new(msg("e"), Some(&h), Location::new("main.rs", 42));
    assert_eq!(r.attachments().len(), 1);
    let a = r.attachments().get(0).unwrap();
    assert!(matches!(a.handler, AttachmentHandlerKind::Location));
    assert_eq!(a.inner().display, "main.rs:42");
    assert_eq!(a.format_inner(FormattingFunction::Debug), "main.rs:42");
    assert_eq!(a.preferred_formatting_style(FormattingFunction::Display).priority, 20);
}

#[test]
fn hooks_run_in_order() {
    let h = Hooks::new().report_creation_hook(creation_hook_to_untyped(
        CreationHook::Location(LocationHook),
        "rootcause::hooks::builtin_hooks::location::LocationHook",
    ));
    let mut r = Report {
        context: msg("e"),
        context_handler: ContextHandlerKind::Display,
        children: ReportCollection::new(),
        attachments: ReportAttachments::new(),
    };
    run_creation_hooks_sendsync(&mut r, Some(&h), at(5));
    assert_eq!(r.attachments().len(), 2);
}

#[test]
fn hook_descriptions() {
    let h = Hooks::new();
    assert_eq!(
        h.report_creation[0].description,
        "AttachmentCollector<rootcause::hooks::builtin_hooks::location::Location, rootcause::hooks::builtin_hooks::location::LocationHandler, rootcause::hooks::builtin_hooks::location::LocationHook>"
    );
    let s = creation_hook_to_untyped(CreationHook::Location(LocationHook), "my::Hook");
    assert_eq!(s.description, "CreationHook<my::Hook>");
    let a = attachment_hook_to_untyped(CollectorRef { collector: &LocationHook, handler: AttachmentHandlerKind::Location }, "A", "H", "C");
    assert_eq!(a.description, "AttachmentCollector<A, H, C>");
    assert!(matches!(a.hook, CreationHook::Collector(_)));
}

#[test]
fn registering_starts_from_the_default_hooks() {
    let mut registered = None;
    register_report_creation_hook(&mut registered, creation_hook_to_untyped(CreationHook::Location(LocationHook), "X"));
    assert_eq!(registered.as_ref().unwrap().len(), 2);
    register_report_creation_hook(&mut registered, creation_hook_to_untyped(CreationHook::Location(LocationHook), "Y"));
    let v = registered.unwrap();
    assert_eq!(v.len(), 3);
    assert_eq!(v[2].description, "CreationHook<Y>");
    assert_eq!(default_hooks().len(), 1);
}

#[test]
fn iteration_is_depth_first_pre_order() {
    let h = quiet();
    let a = Report::new(msg("a"), Some(&h), at(1));
    let b = Report::new(msg("b"), Some(&h), at(1)).context(msg("c"), Some(&h), at(1));
    let mut kids = ReportCollection::new();
    kids.push(b);
    kids.push(a);
    let top = kids.context(msg("top"), Some(&h), at(1));
    let order: Vec<String> = top.iter_all().iter().map(|r| r.current_context().display.clone()).collect();
    assert_eq!(order, vec!["top", "c", "b", "a"]);
    let mut it = top.iter();
    assert_eq!(it.next().unwrap().current_context().display, "top");
    assert_eq!(it.next().unwrap().current_context().display, "c");
    assert_eq!(it.next().unwrap().current_context().display, "b");
    assert_eq!(it.next().unwrap().current_context().display, "a");
    assert!(it.next().is_none());
    assert!(it.next().is_none());
}

#[test]
fn collection_push_pop() {
    let h = quiet();
    let mut c = ReportCollection::new();
    assert!(c.is_empty());
    c.push(Report::new(msg("x"), Some(&h), at(1)));
    c.push(Report::new(msg("y"), Some(&h), at(1)));
    assert_eq!(c.len(), 2);
    assert_eq!(c.pop().unwrap().current_context().display, "y");
    assert_eq!(c.len(), 1);
    assert!(c.pop().is_some());
    assert!(c.pop().is_none());
}

#[test]
fn attachments_push_pop() {
    let mut a = ReportAttachments::new();
    a.push(ReportAttachment::new(msg("x")));
    assert_eq!(a.len(), 1);
    assert_eq!(a.pop().unwrap().inner().display, "x");
    assert!(a.pop().is_none());
    assert!(a.is_empty());
}

#[test]
fn clone_copies_the_tree() {
    let h = Hooks::new();
    let r = Report::new(msg("a"), Some(&h), at(1)).context(msg("b"), Some(&h), at(2));
    let c = r.clone();
    assert_eq!(c.children().len(), 1);
    assert_eq!(c.children().get(0).unwrap().attachments().len(), 1);
    assert_eq!(c.current_context().display, "b");
}

#[test]
fn preformatting_keeps_texts_and_types() {
    let h = quiet();
    let r = Report::new_custom::<RedactDebug>(
        Object::new(11, "my::Secret".to_string(), "s3cr3t".to_string(), "Secret(s3cr3t)".to_string()),
        Some(&h),
        at(1),
    )
    .attach(msg("note"));
    let ctx = PreformattedContext::new_from_context(&r);
    assert_eq!(ctx.original_type_id(), 11);
    assert_eq!(ctx.display, "Context of type `my::Secret`");
    assert_eq!(ctx.debug, "Secret(s3cr3t)");
    assert_eq!(ctx.debug_preferred_formatting_style.function, FormattingFunction::Display);
    let att = PreformattedAttachment::new_from_attachment(r.attachments().get(0).unwrap());
    assert_eq!(att.original_type_id(), rootcause::__private::STR_TYPE_ID);
    assert_eq!(att.debug, "\"note\"");
    let p = r.preformat();
    assert!(matches!(p.context_handler, ContextHandlerKind::Preformatted { original_type_id: 11, .. }));
    assert_eq!(p.attachments().len(), 1);
}

#[test]
fn hook_choice_prefers_the_source_type() {
    let h = quiet();
    let r = Report::new(Object::new(3, "T".to_string(), "t".to_string(), "t".to_string()), Some(&h), at(1));
    assert_eq!(choose_context_hook(&r, &[3]), HookChoice::Direct(3));
    assert_eq!(choose_context_hook(&r, &[4]), HookChoice::Unhooked);
    let p = r.preformat();
    assert_eq!(choose_context_hook(&p, &[3]), HookChoice::Preformatted(3));
    let a = LocationHandler::attachment(at(1));
    let id = a.inner_type_id();
    assert_eq!(choose_attachment_hook(&a, &[id]), HookChoice::Direct(id));
    let pa = PreformattedAttachment::new_from_attachment(&a).into_attachment();
    assert_eq!(choose_attachment_hook(&pa, &[id]), HookChoice::Preformatted(id));
    assert_eq!(choose_attachment_hook(&pa, &[]), HookChoice::Unhooked);
}

#[test]
fn formatting_hook_descriptions() {
    let d = HookDescription { hook_type: "my::Fmt", hooked_type: "my::Err", added_at: Location::new("m.rs", 3) };
    assert_eq!(debug_attachment_hooks(&[d]), vec!["Attachment hook my::Fmt for attachment type my::Err registered at m.rs:3".to_string()]);
    assert_eq!(debug_context_hooks(&[d]), vec!["Context hook my::Fmt for context type my::Err registered at m.rs:3".to_string()]);
}

#[test]
fn macro_helpers() {
    let h = quiet();
    let r = format_report("x = 1".to_string(), false, Some(&h), at(1));
    assert!(matches!(r.context_handler, ContextHandlerKind::Display));
    assert_eq!(r.current_context().type_label, "alloc::string::String");
    let a = format_report_attachment("lit".to_string(), true);
    assert_eq!(a.inner().type_label, "&str");
    assert_eq!(a.inner().debug, "\"lit\"");
    let w = Wrap(&5u8);
    let handler = w.handler();
    let r2 = macro_helper_new_report(handler, Local, msg("m"), Some(&h), at(1));
    assert!(matches!(r2.context_handler, ContextHandlerKind::Any));
    let r3 = macro_helper_new_report(Display, SendSync, msg("m"), None, at(9));
    assert_eq!(r3.attachments().len(), 1);
    let a2 = macro_helper_new_report_attachment(rootcause::handlers::Debug, SendSync, msg("m"));
    assert!(matches!(a2.handler, AttachmentHandlerKind::Debug));
}

#[test]
fn report_as_error_renders_the_report() {
    let h = quiet().report_formatter(rootcause::hooks::builtin_hooks::report_formatter::DefaultReportFormatter::ascii_no_ansi());
    let e = rootcause::compat::ReportAsError::new(Report::new(msg("bad"), Some(&h), at(1)));
    assert_eq!(e.display_text(Some(&h)), "\no  bad\n");
    assert_eq!(e.clone().debug_text(Some(&h)), "\no  bad\n");
}

#[test]
fn boxed_errors_become_reports_and_back() {
    let h = quiet();
    let e = BoxedError(Object::new(1, "Box<dyn Error>".to_string(), "oops".to_string(), "Oops".to_string()));
    let r = e.into_rootcause(Some(&h), at(1));
    assert!(matches!(r.context_handler, ContextHandlerKind::BoxedError));
    let res: Result<u8, Report> = Err(r);
    let back = res.into_boxed_error().unwrap_err();
    assert_eq!(back.into_report().current_context().display, "oops");
    let ok: Result<u8, BoxedError> = Ok(3);
    assert_eq!(ok.into_rootcause(Some(&h), at(1)).unwrap(), 3);
}

#[test]
fn thread_safety_selects_the_same_hooks() {
    let h = Hooks::new();
    let mut a = Report {
        context: msg("e"),
        context_handler: ContextHandlerKind::Display,
        children: ReportCollection::new(),
        attachments: ReportAttachments::new(),
    };
    let mut b = a.clone();
    rootcause::markers::run_creation_hooks::<Local>(&mut a, Some(&h), at(3));
    rootcause::markers::run_creation_hooks::<SendSync>(&mut b, Some(&h), at(3));
    assert_eq!(a.attachments().len(), 1);
    assert_eq!(b.attachments().len(), 1);
    assert_eq!(a.attachments().get(0).unwrap().inner().display, b.attachments().get(0).unwrap().inner().display);
    let c = Report::from_parts_local::<Display>(msg("x"), ReportCollection::new(), ReportAttachments::new(), Some(&h), at(4));
    assert_eq!(c.attachments().get(0).unwrap().inner().display, "src/x.rs:4");
}

#[test]
fn attachment_collectors_are_added_last() {
    let h = quiet().attachment_collector(CollectorRef { collector: &RequestId, handler: AttachmentHandlerKind::Display }, "A", "H", "C");
    assert_eq!(h.report_creation.len(), 1);
    assert_eq!(h.report_creation[0].description, "AttachmentCollector<A, H, C>");
    let mut registered = None;
    rootcause::hooks::report_creation::register_attachment_collector_hook(
        &mut registered,
        CollectorRef { collector: &RequestId, handler: AttachmentHandlerKind::Display },
        "A",
        "H",
        "C",
    );
    let v = registered.unwrap();
    assert_eq!(v.len(), 2);
    assert!(matches!(v[0].hook, CreationHook::Location(_)));
    assert_eq!(v[1].description, "AttachmentCollector<A, H, C>");
}

struct RequestId;

impl AttachmentCollector for RequestId {
    fn collect(&self, _location: Location) -> Object {
        msg("request 42")
    }
}

fn report_with_one_attachment() -> Report {
    let mut attachments = ReportAttachments::new();
    attachments.push(ReportAttachment { object: msg("first"), handler: AttachmentHandlerKind::Display });
    Report {
        context: msg("e"),
        context_handler: ContextHandlerKind::Display,
        children: ReportCollection::new(),
        attachments,
    }
}

#[test]
fn collector_value_is_appended_after_the_attachments() {
    let h = quiet().attachment_collector(CollectorRef { collector: &RequestId, handler: AttachmentHandlerKind::Display }, "A", "H", "C");
    for local in [false, true] {
        let mut r = report_with_one_attachment();
        if local {
            run_creation_hooks_local(&mut r, Some(&h), at(5));
        } else {
            run_creation_hooks_sendsync(&mut r, Some(&h), at(5));
        }
        assert_eq!(r.attachments().len(), 2);
        assert_eq!(r.attachments().get(0).unwrap().inner().display, "first");
        let added = r.attachments().get(1).unwrap();
        assert_eq!(added.inner().display, "request 42");
        assert!(matches!(added.handler, AttachmentHandlerKind::Display));
        assert_eq!(r.current_context().display, "e");
        assert_eq!(r.children().len(), 0);
    }
}

#[test]
fn location_hook_collects_the_location() {
    let h = quiet().attachment_collector(CollectorRef { collector: &LocationHook, handler: AttachmentHandlerKind::Location }, "A", "H", "C");
    let mut r = report_with_one_attachment();
    run_creation_hooks_sendsync(&mut r, Some(&h), at(8));
    let added = r.attachments().get(1).unwrap();
    assert_eq!(added.inner().display, "src/x.rs:8");
    assert!(matches!(added.handler, AttachmentHandlerKind::Location));
}

#[test]
fn attach_collected_appends_exactly_that_value() {
    let mut r = report_with_one_attachment();
    attach_collected(&mut r, msg("v"), AttachmentHandlerKind::Debug);
    assert_eq!(r.attachments().len(), 2);
    assert_eq!(r.attachments().get(1).unwrap().inner().display, "v");
    assert!(matches!(r.attachments().get(1).unwrap().handler, AttachmentHandlerKind::Debug));
}

#[test]
fn hook_registry_keeps_one_hook_per_type() {
    let first = HookDescription { hook_type: "my::A", hooked_type: "my::Err", added_at: Location::new("m.rs", 1) };
    let second = HookDescription { hook_type: "my::B", hooked_type: "my::Err", added_at: Location::new("m.rs", 2) };
    let other = HookDescription { hook_type: "my::C", hooked_type: "my::Other", added_at: Location::new("m.rs", 3) };
    let mut reg = HookRegistry::new();
    reg.register(7, first);
    reg.register(9, other);
    reg.register(7, second);
    assert_eq!(reg.type_ids(), vec![7, 9]);
    assert_eq!(
        debug_context_hooks(&reg.descriptions()),
        vec![
            "Context hook my::B for context type my::Err registered at m.rs:2".to_string(),
            "Context hook my::C for context type my::Other registered at m.rs:3".to_string(),
        ]
    );
    let r = Report::new(Object::new(9, "T".to_string(), "t".to_string(), "t".to_string()), Some(&quiet()), at(1));
    assert_eq!(choose_context_hook(&r, &reg.type_ids()), HookChoice::Direct(9));
}
