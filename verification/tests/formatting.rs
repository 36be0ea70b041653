use rootcause::__private::message_object;
use rootcause::handlers::{
    AttachmentFormattingPlacement, AttachmentFormattingStyle, Display, ForceDebug, FormattingFunction,
    Invisible,
};
use rootcause::hooks::builtin_hooks::location::Location;
use rootcause::hooks::builtin_hooks::report_formatter::DefaultReportFormatter;
use rootcause::hooks::report_formatter::{format_report, format_reports};
use rootcause::hooks::Hooks;
use rootcause::object::Object;
use rootcause::preformatted::PreformattedAttachment;
use rootcause::report::Report;

fn at(line: u32) -> Location {
    Location::new("examples/basic.rs", line)
}

fn msg(s: &str) -> Object {
    message_object(s.to_string(), true)
}

fn strip_ansi(s: &str) -> String {
    let mut out = String::new();
    let mut chars = s.chars();
    while let Some(c) = chars.next() {
        if c == '\x1b' {
            for d in chars.by_ref() {
                if d == 'm' {
                    break;
                }
            }
        } else {
            out.push(c);
        }
    }
    out
}

fn readme_report(hooks: &Hooks) -> Report {
    let io = Object::new(
        7,
        "std::io::error::Error".to_string(),
        "No such file or directory (os error 2)".to_string(),
        "Os { code: 2, kind: NotFound, message: \"No such file or directory\" }".to_string(),
    );
    let read = Report::new(io, Some(hooks), at(28));
    let load = read
        .context(msg("Failed to load application configuration"), Some(hooks), at(41))
        .attach(message_object("Config path: /nonexistent/config.toml".to_string(), false))
        .attach(msg("Expected format: TOML"));
    load.context(msg("Application startup failed"), Some(hooks), at(69))
        .attach(message_object("Environment: production".to_string(), false))
}

#[test]
fn readme_chain_renders_as_documented() {
    let hooks = Hooks::new();
    let report = readme_report(&hooks);
    let text = format_report(&report, Some(&hooks), FormattingFunction::Display);
    let expected = "\n \u{25cf} Application startup failed\n \u{251c} examples/basic.rs:69\n \u{251c} Environment: production\n \u{2502}\n \u{25cf} Failed to load application configuration\n \u{251c} examples/basic.rs:41\n \u{251c} Config path: /nonexistent/config.toml\n \u{251c} Expected format: TOML\n \u{2502}\n \u{25cf} No such file or directory (os error 2)\n \u{2570} examples/basic.rs:28\n";
    assert_eq!(strip_ansi(&text), expected);
}

#[test]
fn default_layout_keeps_terminal_colors() {
    let hooks = Hooks::new_without_locations();
    let r = Report::new_custom::<Display>(msg("boom"), Some(&hooks), at(1));
    let text = format_report(&r, None, FormattingFunction::Display);
    assert_eq!(text, "\n \x1b[97m\u{25cf} \x1b[1mboom\x1b[0m\n");
}

#[test]
fn single_report_ascii() {
    let hooks = Hooks::new_without_locations();
    let r = Report::new_custom::<Display>(msg("boom"), Some(&hooks), at(3));
    let text = DefaultReportFormatter::ascii_no_ansi().format_report(&r, FormattingFunction::Display);
    assert_eq!(text, "\no  boom\n");
}

#[test]
fn report_with_location_ascii() {
    let hooks = Hooks::new();
    let r = Report::new_custom::<Display>(msg("boom"), Some(&hooks), Location::new("src/main.rs", 3));
    let text = DefaultReportFormatter::ascii_no_ansi().format_report(&r, FormattingFunction::Display);
    assert_eq!(text, "\no  boom\n|- src/main.rs:3\n");
}

#[test]
fn no_hooks_installed_attaches_location() {
    let r = Report::new_custom::<Display>(msg("boom"), None, Location::new("src/lib.rs", 12));
    let text = DefaultReportFormatter::ascii_no_ansi().format_report(&r, FormattingFunction::Display);
    assert_eq!(text, "\no  boom\n|- src/lib.rs:12\n");
}

#[test]
fn context_over_child_ascii() {
    let hooks = Hooks::new_without_locations();
    let inner = Report::new_custom::<Display>(msg("inner"), Some(&hooks), at(3));
    let outer = inner.context(msg("outer"), Some(&hooks), at(4));
    let text = DefaultReportFormatter::ascii_no_ansi().format_report(&outer, FormattingFunction::Display);
    assert_eq!(text, "\no  outer\no  inner\n");
}

#[test]
fn several_children_ascii() {
    let hooks = Hooks::new_without_locations();
    let mut children = rootcause::report::ReportCollection::new();
    children.push(Report::new_custom::<Display>(msg("first"), Some(&hooks), at(1)).attach(msg("a1")));
    children.push(Report::new_custom::<Display>(msg("second"), Some(&hooks), at(2)).attach(msg("b1")));
    let top = children.context(msg("top"), Some(&hooks), at(3));
    let text = DefaultReportFormatter::ascii_no_ansi().format_report(&top, FormattingFunction::Display);
    assert_eq!(
        text,
        "\no  top\n|--> o  first\n|    |- a1\n|--> o  second\n     |- b1\n"
    );
}

#[test]
fn multi_line_context_ascii() {
    let hooks = Hooks::new_without_locations();
    let r = Report::new_custom::<Display>(msg("one\ntwo\r\nthree\n"), Some(&hooks), at(1));
    let text = DefaultReportFormatter::ascii_no_ansi().format_report(&r, FormattingFunction::Display);
    assert_eq!(text, "\no  one\n|  two\n|  three\n");
}

#[test]
fn debug_rendering_keeps_the_display_text_of_built_in_handlers() {
    let hooks = Hooks::new_without_locations();
    let r = Report::new_custom::<Display>(msg("say \"hi\""), Some(&hooks), at(1))
        .attach_custom::<Display>(msg("note"));
    let text = DefaultReportFormatter::ascii_no_ansi().format_report(&r, FormattingFunction::Debug);
    assert_eq!(text, "\no  say \"hi\"\n|- note\n");
}

#[test]
fn force_debug_renders_the_debug_text() {
    let hooks = Hooks::new_without_locations();
    let r = Report::new_custom::<ForceDebug>(msg("say \"hi\""), Some(&hooks), at(1));
    let text = DefaultReportFormatter::ascii_no_ansi().format_report(&r, FormattingFunction::Display);
    assert_eq!(text, "\no  \"say \\\"hi\\\"\"\n");
}

#[test]
fn attachments_sorted_by_priority_and_hidden_dropped() {
    let r = Report::new_custom::<Display>(msg("boom"), None, Location::new("f.rs", 9))
        .attach(msg("plain"))
        .attach_custom::<Invisible>(msg("secret"));
    let text = DefaultReportFormatter::ascii_no_ansi().format_report(&r, FormattingFunction::Display);
    assert_eq!(text, "\no  boom\n|- f.rs:9\n|- plain\n");
}

fn styled(text: &str, placement: AttachmentFormattingPlacement, priority: i32) -> rootcause::report::ReportAttachment {
    let style = AttachmentFormattingStyle { placement, function: FormattingFunction::Display, priority };
    PreformattedAttachment {
        original_type_id: 5,
        display: text.to_string(),
        debug: text.to_string(),
        display_preferred_formatting_style: style,
        debug_preferred_formatting_style: style,
    }
    .into_attachment()
}

#[test]
fn appendices_and_opaque_notice_ascii() {
    let hooks = Hooks::new_without_locations();
    let mut r = Report::new_custom::<Display>(msg("boom"), Some(&hooks), at(1));
    r.attachments_mut().push(styled("long text", AttachmentFormattingPlacement::Appendix { appendix_name: "Details" }, 0));
    r.attachments_mut().push(styled("more text", AttachmentFormattingPlacement::Appendix { appendix_name: "Details" }, 0));
    r.attachments_mut().push(styled("hidden", AttachmentFormattingPlacement::Opaque, 0));
    let text = DefaultReportFormatter::ascii_no_ansi().format_report(&r, FormattingFunction::Display);
    assert_eq!(
        text,
        "\no  boom\n|- See Details #1 below\n|- See Details #2 below\n|- 1 additional opaque attachment\n----------------------------------------\n Details #1\n\n long text\n----------------------------------------\n Details #2\n\n more text\n----------------------------------------\n"
    );
}

#[test]
fn headered_attachment_ascii() {
    let hooks = Hooks::new_without_locations();
    let mut r = Report::new_custom::<Display>(msg("boom"), Some(&hooks), at(1));
    r.attachments_mut().push(styled("l1\nl2", AttachmentFormattingPlacement::InlineWithHeader { header: "Notes" }, 0));
    let text = DefaultReportFormatter::ascii_no_ansi().format_report(&r, FormattingFunction::Display);
    assert_eq!(text, "\no  boom\n|- Notes\n  |- l1\n  |- l2\n");
}

#[test]
fn several_top_level_reports_ascii() {
    let hooks = Hooks::new_without_locations();
    let reports = vec![
        Report::new_custom::<Display>(msg("a"), Some(&hooks), at(1)),
        Report::new_custom::<Display>(msg("b"), Some(&hooks), at(2)),
    ];
    let text = DefaultReportFormatter::ascii_no_ansi().format_reports(&reports, FormattingFunction::Display);
    assert_eq!(text, "\no  a\n--\no  b\n");
}

#[test]
fn installed_formatter_is_used() {
    let hooks = Hooks::new_without_locations().report_formatter(DefaultReportFormatter::ascii_no_ansi());
    let reports = vec![Report::new_custom::<Display>(msg("a"), Some(&hooks), at(1))];
    assert_eq!(format_reports(&reports, Some(&hooks), FormattingFunction::Display), "\no  a\n");
}

#[test]
fn preformatted_report_renders_the_same() {
    let hooks = Hooks::new();
    let report = readme_report(&hooks);
    let pre = report.preformat();
    for layout in [DefaultReportFormatter::ascii_no_ansi(), DefaultReportFormatter::unicode_ansi()] {
        for f in [FormattingFunction::Display, FormattingFunction::Debug] {
            assert_eq!(layout.format_report(&pre, f), layout.format_report(&report, f));
        }
    }
    assert_eq!(pre.current_context().type_label, "rootcause::preformatted::PreformattedContext");
}
