use rootcause::handlers::{
    attachment_debug, attachment_display, attachment_preferred_formatting_style, context_debug,
    context_display, context_preferred_formatting_style, AttachmentFormattingPlacement,
    AttachmentHandlerKind, ContextHandlerKind, FormattingFunction,
};
use rootcause::hooks::builtin_hooks::location::Location;
use rootcause::object::Object;
use rootcause::text::{
    after_last_double_colon, decimal_string, push_debug_str, split_lines, starts_with, str_eq,
    str_eq_ignore_ascii_case,
};

#[test]
fn decimals() {
    assert_eq!(decimal_string(0), "0");
    assert_eq!(decimal_string(1234567890), "1234567890");
    assert_eq!(decimal_string(u64::MAX), "18446744073709551615");
}

#[test]
fn lines_like_std() {
    assert_eq!(split_lines("a\nb\r\nc"), vec!["a", "b", "c"]);
    assert_eq!(split_lines("a\n"), vec!["a"]);
    assert_eq!(split_lines(""), Vec::<String>::new());
    assert_eq!(split_lines("\n\n"), vec!["", ""]);
}

#[test]
fn comparisons() {
    assert!(str_eq("abc", "abc"));
    assert!(!str_eq("abc", "abd"));
    assert!(starts_with("hello", "he"));
    assert!(!starts_with("he", "hello"));
    assert!(str_eq_ignore_ascii_case("/SRC/a.RS", "/src/A.rs"));
    assert!(!str_eq_ignore_ascii_case("ab", "abc"));
}

#[test]
fn last_path_segment() {
    assert_eq!(after_last_double_colon("a::b::c"), "c");
    assert_eq!(after_last_double_colon("plain"), "plain");
    assert_eq!(after_last_double_colon("x:::y"), "y");
}

#[test]
fn debug_strings() {
    let mut s = String::new();
    push_debug_str(&mut s, "a\"b\\c\n\t\u{1b}é");
    assert_eq!(s, format!("{:?}", "a\"b\\c\n\t\u{1b}é"));
}

#[test]
fn location_text() {
    assert_eq!(Location::new("src/a.rs", 7).to_text(), "src/a.rs:7");
}

fn obj() -> Object {
    Object::new(1, "my::E".to_string(), "shown".to_string(), "E { x: 1 }".to_string())
}

#[test]
fn handler_texts() {
    let o = obj();
    assert_eq!(context_display(ContextHandlerKind::Error, &o), "shown");
    assert_eq!(context_display(ContextHandlerKind::Debug, &o), "Context of type `my::E`");
    assert_eq!(context_debug(ContextHandlerKind::Debug, &o), "E { x: 1 }");
    assert_eq!(context_display(ContextHandlerKind::Any, &o), "An object of type my::E");
    assert_eq!(context_display(ContextHandlerKind::ForceDebug, &o), "E { x: 1 }");
    assert_eq!(attachment_display(AttachmentHandlerKind::RedactDebug, &o), "Attachment of type `my::E`");
    assert_eq!(attachment_display(AttachmentHandlerKind::Invisible, &o), "");
    assert_eq!(attachment_debug(AttachmentHandlerKind::Display, &o), "E { x: 1 }");
}

#[test]
fn built_in_handlers_prefer_display_under_debug_rendering() {
    let debug = FormattingFunction::Debug;
    for h in [ContextHandlerKind::Error, ContextHandlerKind::Display, ContextHandlerKind::Debug, ContextHandlerKind::Any, ContextHandlerKind::RedactDebug] {
        assert_eq!(context_preferred_formatting_style(h, debug).function, FormattingFunction::Display);
    }
    assert_eq!(context_preferred_formatting_style(ContextHandlerKind::ForceDebug, FormattingFunction::Display).function, debug);
    assert_eq!(context_preferred_formatting_style(ContextHandlerKind::BoxedError, debug).function, debug);
    for h in [AttachmentHandlerKind::Display, AttachmentHandlerKind::Debug, AttachmentHandlerKind::Any] {
        let style = attachment_preferred_formatting_style(h, debug);
        assert_eq!(style.function, FormattingFunction::Display);
        assert!(matches!(style.placement, AttachmentFormattingPlacement::Inline));
        assert_eq!(style.priority, 0);
    }
    assert_eq!(attachment_preferred_formatting_style(AttachmentHandlerKind::ForceDebug, FormattingFunction::Display).function, debug);
}
