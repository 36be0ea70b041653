use rootcause::__private::message_object;
use rootcause::handlers::ContextHandlerKind;
use rootcause::hooks::builtin_hooks::location::Location;
use rootcause::hooks::Hooks;
use rootcause::into_report::{IntoReport, IntoReportCollection};
use rootcause::iterator_ext::IteratorExt;
use rootcause::object::Object;
use rootcause::option_ext::{NoneError, OptionExt};
use rootcause::report::Report;
use rootcause::result_ext::ResultExt;

fn at(line: u32) -> Location {
    Location::new("src/x.rs", line)
}

fn msg(s: &str) -> Object {
    message_object(s.to_string(), true)
}

#[test]
fn none_error_texts() {
    let e = NoneError::new("core::option::Option<u32>");
    assert_eq!(e.to_text(), "Expected value of type core::option::Option<u32>, but found None");
    assert_eq!(e.debug_text(), "NoneError { expected_type: \"core::option::Option<u32>\" }");
    let o = e.into_object();
    assert_eq!(o.type_label, "rootcause::option_ext::NoneError");
}

#[test]
fn ok_or_report() {
    let h = Hooks::new_without_locations();
    assert_eq!(Some(3).ok_or_report("u32", Some(&h), at(1)).unwrap(), 3);
    let r = None::<u32>.ok_or_report("u32", Some(&h), at(1)).unwrap_err();
    assert_eq!(r.current_context().display, "Expected value of type u32, but found None");
    assert!(matches!(r.context_handler, ContextHandlerKind::Error));
}

#[test]
fn option_context_wraps_the_none_report() {
    let h = Hooks::new();
    let r = None::<u8>.context("u8", msg("loading"), Some(&h), at(2)).unwrap_err();
    assert_eq!(r.current_context().display, "loading");
    assert_eq!(r.attachments().len(), 1);
    let inner = r.children().get(0).unwrap();
    assert_eq!(inner.current_context().display, "Expected value of type u8, but found None");
    assert_eq!(inner.attachments().len(), 1);
    let r2 = None::<u8>.context_with("u8", || msg("lazy"), Some(&h), at(2)).unwrap_err();
    assert_eq!(r2.current_context().display, "lazy");
    let r3 = None::<u8>.local_context_custom::<rootcause::handlers::Debug>("u8", msg("dbg"), Some(&h), at(2)).unwrap_err();
    assert!(matches!(r3.context_handler, ContextHandlerKind::Debug));
    assert_eq!(Some(1u8).local_context("u8", msg("x"), Some(&h), at(2)).unwrap(), 1);
}

#[test]
fn result_into_report_and_context() {
    let h = Hooks::new_without_locations();
    let ok: Result<i32, Object> = Ok(4);
    assert_eq!(ok.into_report(Some(&h), at(1)).unwrap(), 4);
    let err: Result<i32, Object> = Err(msg("io"));
    let r = err.context(msg("reading"), Some(&h), at(1)).unwrap_err();
    assert_eq!(r.current_context().display, "reading");
    assert_eq!(r.children().len(), 1);
    assert_eq!(r.children().get(0).unwrap().current_context().display, "io");
    let err2: Result<i32, Report> = Err(Report::new(msg("deep"), Some(&h), at(1)));
    let r2 = err2.attach(msg("extra"), Some(&h), at(1)).unwrap_err();
    assert_eq!(r2.current_context().display, "deep");
    assert_eq!(r2.attachments().get(0).unwrap().inner().display, "extra");
    let err3: Result<i32, Object> = Err(msg("e"));
    let r3 = err3.local_attach_lazy(|| msg("later"), Some(&h), at(1)).unwrap_err();
    assert_eq!(r3.attachments().len(), 1);
}

#[test]
fn conversions() {
    let h = Hooks::new_without_locations();
    let r = msg("x").into_report(Some(&h), at(1));
    assert_eq!(r.current_context().display, "x");
    let c = msg("y").into_report_collection(Some(&h), at(1));
    assert_eq!(c.len(), 1);
    let c2 = r.into_report_collection(Some(&h), at(1));
    assert_eq!(c2.len(), 1);
}

#[test]
fn collect_all_values() {
    let h = Hooks::new_without_locations();
    let items: Vec<Result<u8, Object>> = vec![Ok(1), Ok(2), Ok(3)];
    assert_eq!(items.collect_reports_vec(Some(&h), at(1)).unwrap(), vec![1, 2, 3]);
}

#[test]
fn collect_every_error() {
    let h = Hooks::new_without_locations();
    let items: Vec<Result<u8, Object>> = vec![Ok(1), Err(msg("a")), Ok(2), Err(msg("b"))];
    let errors = items.collect_reports_vec(Some(&h), at(1)).unwrap_err();
    assert_eq!(errors.len(), 2);
    assert_eq!(errors.get(0).unwrap().current_context().display, "a");
    assert_eq!(errors.get(1).unwrap().current_context().display, "b");
}

fn parse(s: &str) -> Result<u8, Object> {
    s.parse::<u8>().map_err(|e| {
        Object::new(9, "core::num::error::ParseIntError".to_string(), e.to_string(), format!("{e:?}"))
    })
}

#[test]
fn collect_reports_vec_collects_all_errors() {
    let h = Hooks::new_without_locations();
    let inputs = vec!["1", "2", "invalid", "4", "bad"];
    let items: Vec<Result<u8, Object>> = inputs.into_iter().map(parse).collect();
    let all_errors = items.collect_reports_vec(Some(&h), at(1)).unwrap_err();
    assert_eq!(all_errors.len(), 2);
    assert_eq!(all_errors.get(0).unwrap().current_context().display, "invalid digit found in string");
}
