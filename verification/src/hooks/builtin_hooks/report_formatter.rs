//! The default report layout: each report node is rendered as its context
//! followed by its attachments and then its children, indented below it, and
//! attachments that ask for an appendix are rendered after all reports.

use vstd::prelude::*;
use vstd::string::StringExecFns;
use crate::handlers::{
    self, AttachmentFormattingPlacement, AttachmentFormattingStyle, FormattingFunction,
};
use crate::report::{attachment_text, views, Report, ReportAttachment, ReportView};
use crate::text::{decimal, lines, push_decimal, split_lines};
use super::appendices::{
    appendices_into_vec, appendices_is_empty, appendices_new, appendices_push, appendix_contents,
    group_count, groups_push, AppendixGroups, Appendices,
};

verus! {

/// The text placed before and after one rendered line.
#[derive(Copy, Clone)]
pub struct LineFormatting {
    /// Placed before the line.
    pub prefix: &'static str,
    /// Placed after the line.
    pub suffix: &'static str,
}

impl LineFormatting {
    /// A line formatting with the given prefix and suffix.
    pub fn new(prefix: &'static str, suffix: &'static str) -> (res: Self)
        ensures
            res.prefix == prefix,
            res.suffix == suffix,
    {
        LineFormatting { prefix, suffix }
    }
}

/// How the lines of one rendered value are decorated: a value of one line
/// uses `standalone_line`; otherwise its first line uses `first_line`, its
/// last line `last_line` and the lines between `middle_line`.
#[derive(Copy, Clone)]
pub struct ItemFormatting {
    /// For a value of a single line.
    pub standalone_line: LineFormatting,
    /// For the first of several lines.
    pub first_line: LineFormatting,
    /// For the lines between the first and the last.
    pub middle_line: LineFormatting,
    /// For the last of several lines.
    pub last_line: LineFormatting,
}

impl ItemFormatting {
    /// An item formatting from (prefix, suffix) pairs.
    pub fn new(
        standalone_line: (&'static str, &'static str),
        first_line: (&'static str, &'static str),
        middle_line: (&'static str, &'static str),
        last_line: (&'static str, &'static str),
    ) -> (res: Self)
        ensures
            res.standalone_line == (LineFormatting {
                prefix: standalone_line.0,
                suffix: standalone_line.1,
            }),
            res.first_line == (LineFormatting { prefix: first_line.0, suffix: first_line.1 }),
            res.middle_line == (LineFormatting { prefix: middle_line.0, suffix: middle_line.1 }),
            res.last_line == (LineFormatting { prefix: last_line.0, suffix: last_line.1 }),
    {
        ItemFormatting {
            standalone_line: LineFormatting::new(standalone_line.0, standalone_line.1),
            first_line: LineFormatting::new(first_line.0, first_line.1),
            middle_line: LineFormatting::new(middle_line.0, middle_line.1),
            last_line: LineFormatting::new(last_line.0, last_line.1),
        }
    }
}

/// How a node is rendered: its header value, and the prefix added to the
/// lines of everything rendered below it.
#[derive(Copy, Clone)]
pub struct NodeConfig {
    /// The formatting of the node's own value.
    pub header: ItemFormatting,
    /// Added to the line prefix of the node's contents.
    pub prefix_children: &'static str,
}

impl NodeConfig {
    /// A node configuration from (prefix, suffix) pairs and a children prefix.
    pub fn new(
        standalone_line: (&'static str, &'static str),
        first_line: (&'static str, &'static str),
        middle_line: (&'static str, &'static str),
        last_line: (&'static str, &'static str),
        prefix_children: &'static str,
    ) -> (res: Self)
        ensures
            res.header == (ItemFormatting {
                standalone_line: LineFormatting {
                    prefix: standalone_line.0,
                    suffix: standalone_line.1,
                },
                first_line: LineFormatting { prefix: first_line.0, suffix: first_line.1 },
                middle_line: LineFormatting { prefix: middle_line.0, suffix: middle_line.1 },
                last_line: LineFormatting { prefix: last_line.0, suffix: last_line.1 },
            }),
            res.prefix_children == prefix_children,
    {
        NodeConfig {
            header: ItemFormatting::new(standalone_line, first_line, middle_line, last_line),
            prefix_children,
        }
    }
}

/// The configuration of the default report layout.
#[derive(Copy, Clone)]
pub struct DefaultReportFormatter {
    /// Written before everything else.
    pub report_header: &'static str,
    /// The line prefix of the report nodes.
    pub report_line_prefix_always: &'static str,
    /// The line prefix of the appendices.
    pub appendix_line_prefix_always: &'static str,
    /// A node that is its parent's only child, or a top-level report.
    pub context_standalone_formatting: NodeConfig,
    /// A child that is not its parent's last.
    pub context_middle_formatting: NodeConfig,
    /// The last of several children.
    pub context_last_formatting: NodeConfig,
    /// An inline attachment that is not the last line of its node.
    pub attachment_middle_formatting: ItemFormatting,
    /// An inline attachment that ends its node.
    pub attachment_last_formatting: ItemFormatting,
    /// A headered attachment that is not the last of its node.
    pub headered_attachment_middle_formatting: NodeConfig,
    /// A headered attachment that ends its node.
    pub headered_attachment_last_formatting: NodeConfig,
    /// The data below an attachment's header.
    pub headered_attachment_data_formatting: ItemFormatting,
    /// Written (with the line prefix) before a headered attachment's data.
    pub headered_attachment_data_prefix: Option<&'static str>,
    /// Written (with the line prefix) after a headered attachment's data.
    pub headered_attachment_data_suffix: Option<&'static str>,
    /// The notice of an appendix entry that is not the last line of its node.
    pub see_also_notice_middle_formatting: LineFormatting,
    /// The notice of an appendix entry that ends its node.
    pub see_also_notice_last_formatting: LineFormatting,
    /// The opaque-attachment notice of a node with children.
    pub opaque_notice_middle_formatting: LineFormatting,
    /// The opaque-attachment notice of a node without children.
    pub opaque_notice_last_formatting: LineFormatting,
    /// Written between a node's attachments and its children.
    pub attachment_child_separator: Option<&'static str>,
    /// Written between two children.
    pub child_child_separator: Option<&'static str>,
    /// Written between two top-level reports.
    pub report_report_separator: &'static str,
    /// Written between the reports and the appendices.
    pub report_appendix_separator: &'static str,
    /// Written between two appendix entries.
    pub appendix_appendix_separator: &'static str,
    /// The heading line of an appendix entry.
    pub appendix_header: LineFormatting,
    /// The body of an appendix entry.
    pub appendix_body: ItemFormatting,
    /// Written after the appendices.
    pub appendices_footer: &'static str,
    /// Written at the end when there is no appendix.
    pub no_appendices_footer: &'static str,
}


/// A line formatting with the prefix `p` and the suffix `s`.
pub open spec fn line_formatting_of(p: &'static str, s: &'static str) -> LineFormatting {
    LineFormatting { prefix: p, suffix: s }
}

/// An item formatting from (prefix, suffix) pairs.
pub open spec fn item_formatting_of(
    standalone_line: (&'static str, &'static str),
    first_line: (&'static str, &'static str),
    middle_line: (&'static str, &'static str),
    last_line: (&'static str, &'static str),
) -> ItemFormatting {
    ItemFormatting {
        standalone_line: line_formatting_of(standalone_line.0, standalone_line.1),
        first_line: line_formatting_of(first_line.0, first_line.1),
        middle_line: line_formatting_of(middle_line.0, middle_line.1),
        last_line: line_formatting_of(last_line.0, last_line.1),
    }
}

/// A node configuration from (prefix, suffix) pairs and a children prefix.
pub open spec fn node_config_of(
    standalone_line: (&'static str, &'static str),
    first_line: (&'static str, &'static str),
    middle_line: (&'static str, &'static str),
    last_line: (&'static str, &'static str),
    prefix_children: &'static str,
) -> NodeConfig {
    NodeConfig {
        header: item_formatting_of(standalone_line, first_line, middle_line, last_line),
        prefix_children,
    }
}

/// The layout drawn with ASCII characters and no terminal colors.
pub open spec fn spec_ascii_no_ansi() -> DefaultReportFormatter {
    DefaultReportFormatter {
        report_header: "\n",
        report_line_prefix_always: "",
        appendix_line_prefix_always: "",
        context_standalone_formatting: node_config_of(
            ("o  ", "\n"),
            ("o  ", "\n"),
            ("|  ", "\n"),
            ("|  ", "\n"),
            "",
        ),
        context_middle_formatting: node_config_of(
            ("|--> o  ", "\n"),
            ("|--> o  ", "\n"),
            ("|    |  ", "\n"),
            ("|    |  ", "\n"),
            "|    ",
        ),
        context_last_formatting: node_config_of(
            ("|--> o  ", "\n"),
            ("|--> o  ", "\n"),
            ("     |  ", "\n"),
            ("     |  ", "\n"),
            "     ",
        ),
        attachment_middle_formatting: item_formatting_of(
            ("|- ", "\n"),
            ("|- ", "\n"),
            ("|  ", "\n"),
            ("|  ", "\n"),
        ),
        attachment_last_formatting: item_formatting_of(
            ("|- ", "\n"),
            ("|- ", "\n"),
            ("   ", "\n"),
            ("   ", "\n"),
        ),
        headered_attachment_middle_formatting: node_config_of(
            ("|- ", "\n"),
            ("|- ", "\n"),
            ("|  ", "\n"),
            ("|  ", "\n"),
            "| ",
        ),
        headered_attachment_last_formatting: node_config_of(
            ("|- ", "\n"),
            ("|- ", "\n"),
            ("  ", "\n"),
            ("  ", "\n"),
            "  ",
        ),
        headered_attachment_data_formatting: item_formatting_of(
            ("|- ", "\n"),
            ("|- ", "\n"),
            ("|- ", "\n"),
            ("|- ", "\n"),
        ),
        headered_attachment_data_prefix: None,
        headered_attachment_data_suffix: None,
        see_also_notice_middle_formatting: line_formatting_of("|- See ", " below\n"),
        see_also_notice_last_formatting: line_formatting_of("|- See ", " below\n"),
        opaque_notice_middle_formatting: line_formatting_of("|- ", "\n"),
        opaque_notice_last_formatting: line_formatting_of("|- ", "\n"),
        attachment_child_separator: None,
        child_child_separator: None,
        report_report_separator: "--\n",
        report_appendix_separator: "----------------------------------------\n",
        appendix_appendix_separator: "----------------------------------------\n",
        appendix_header: line_formatting_of(" ", "\n\n"),
        appendix_body: item_formatting_of((" ", "\n"), (" ", "\n"), (" ", "\n"), (" ", "\n")),
        appendices_footer: "----------------------------------------\n",
        no_appendices_footer: "",
    }
}

/// The layout drawn with box-drawing characters and terminal colors.
pub open spec fn spec_unicode_ansi() -> DefaultReportFormatter {
    DefaultReportFormatter {
        report_header: "\n",
        report_line_prefix_always: " ",
        appendix_line_prefix_always: "",
        context_standalone_formatting: node_config_of(
            ("\x1b[97m● \x1b[1m", "\x1b[0m\n"),
            ("\x1b[97m● \x1b[1m", "\x1b[0m\n"),
            ("│ \x1b[1;97m", "\x1b[0m\n"),
            ("│ \x1b[1;97m", "\x1b[0m\n"),
            "",
        ),
        context_middle_formatting: node_config_of(
            ("├─ \x1b[97m● \x1b[1m", "\x1b[0m\n"),
            ("├─ \x1b[97m● \x1b[1m", "\x1b[0m\n"),
            ("│  │ \x1b[1;97m", "\x1b[0m\n"),
            ("│  │ \x1b[1;97m", "\x1b[0m\n"),
            "│  ",
        ),
        context_last_formatting: node_config_of(
            ("╰─ \x1b[97m● \x1b[1m", "\x1b[0m\n"),
            ("╰─ \x1b[97m● \x1b[1m", "\x1b[0m\n"),
            ("   │ \x1b[1;97m", "\x1b[0m\n"),
            ("   │ \x1b[1;97m", "\x1b[0m\n"),
            "   ",
        ),
        attachment_middle_formatting: item_formatting_of(
            ("├ ", "\n"),
            ("├ ", "\n"),
            ("│ ", "\n"),
            ("│ ", "\n"),
        ),
        attachment_last_formatting: item_formatting_of(
            ("╰ ", "\n"),
            ("╰ ", "\n"),
            ("  ", "\n"),
            ("  ", "\n"),
        ),
        headered_attachment_middle_formatting: node_config_of(
            ("├ \x1b[4m", "\x1b[0m\n"),
            ("├ \x1b[4m", "\x1b[0m\n"),
            ("│\x1b[4m", "\x1b[0m\n"),
            ("│\x1b[4m", "\x1b[0m\n"),
            "│ ",
        ),
        headered_attachment_last_formatting: node_config_of(
            ("╰ \x1b[4m", "\x1b[0m\n"),
            ("╰ \x1b[4m", "\x1b[0m\n"),
            (" \x1b[4m", "\x1b[0m\n"),
            (" \x1b[4m", "\x1b[0m\n"),
            "  ",
        ),
        headered_attachment_data_formatting: item_formatting_of(
            ("│ ", "\n"),
            ("│ ", "\n"),
            ("│ ", "\n"),
            ("│ ", "\n"),
        ),
        headered_attachment_data_prefix: None,
        headered_attachment_data_suffix: Some("╰─\n"),
        see_also_notice_middle_formatting: line_formatting_of(
            "├ See \x1b[4m",
            "\x1b[0m below\n",
        ),
        see_also_notice_last_formatting: line_formatting_of(
            "╰ See \x1b[4m",
            "\x1b[0m below\n",
        ),
        opaque_notice_middle_formatting: line_formatting_of("├ ", "\n"),
        opaque_notice_last_formatting: line_formatting_of("╰ ", "\n"),
        attachment_child_separator: Some("│\n"),
        child_child_separator: Some("│\n"),
        report_report_separator: "━━\n",
        report_appendix_separator: "\n━━━━━━━━━━━━━━━━━━━━━━━━━━━━━━━━━━━━━━━━\n",
        appendix_appendix_separator: "\n━━━━━━━━━━━━━━━━━━━━━━━━━━━━━━━━━━━━━━━━\n",
        appendix_header: line_formatting_of(" \x1b[4m", "\x1b[0m\n\n"),
        appendix_body: item_formatting_of((" ", "\n"), (" ", "\n"), (" ", "\n"), (" ", "\n")),
        appendices_footer: "\n━━━━━━━━━━━━━━━━━━━━━━━━━━━━━━━━━━━━━━━━\n",
        no_appendices_footer: "",
    }
}

impl DefaultReportFormatter {
    /// The layout drawn with ASCII characters and no terminal colors.
    pub fn ascii_no_ansi() -> (res: Self)
        ensures
            res == spec_ascii_no_ansi(),
    {
        DefaultReportFormatter {
            report_header: "\n",
            report_line_prefix_always: "",
            appendix_line_prefix_always: "",
            context_standalone_formatting: NodeConfig::new(
                ("o  ", "\n"),
                ("o  ", "\n"),
                ("|  ", "\n"),
                ("|  ", "\n"),
                "",
            ),
            context_middle_formatting: NodeConfig::new(
                ("|--> o  ", "\n"),
                ("|--> o  ", "\n"),
                ("|    |  ", "\n"),
                ("|    |  ", "\n"),
                "|    ",
            ),
            context_last_formatting: NodeConfig::new(
                ("|--> o  ", "\n"),
                ("|--> o  ", "\n"),
                ("     |  ", "\n"),
                ("     |  ", "\n"),
                "     ",
            ),
            attachment_middle_formatting: ItemFormatting::new(
                ("|- ", "\n"),
                ("|- ", "\n"),
                ("|  ", "\n"),
                ("|  ", "\n"),
            ),
            attachment_last_formatting: ItemFormatting::new(
                ("|- ", "\n"),
                ("|- ", "\n"),
                ("   ", "\n"),
                ("   ", "\n"),
            ),
            headered_attachment_middle_formatting: NodeConfig::new(
                ("|- ", "\n"),
                ("|- ", "\n"),
                ("|  ", "\n"),
                ("|  ", "\n"),
                "| ",
            ),
            headered_attachment_last_formatting: NodeConfig::new(
                ("|- ", "\n"),
                ("|- ", "\n"),
                ("  ", "\n"),
                ("  ", "\n"),
                "  ",
            ),
            headered_attachment_data_formatting: ItemFormatting::new(
                ("|- ", "\n"),
                ("|- ", "\n"),
                ("|- ", "\n"),
                ("|- ", "\n"),
            ),
            headered_attachment_data_prefix: None,
            headered_attachment_data_suffix: None,
            see_also_notice_middle_formatting: LineFormatting::new("|- See ", " below\n"),
            see_also_notice_last_formatting: LineFormatting::new("|- See ", " below\n"),
            opaque_notice_middle_formatting: LineFormatting::new("|- ", "\n"),
            opaque_notice_last_formatting: LineFormatting::new("|- ", "\n"),
            attachment_child_separator: None,
            child_child_separator: None,
            report_report_separator: "--\n",
            report_appendix_separator: "----------------------------------------\n",
            appendix_appendix_separator: "----------------------------------------\n",
            appendix_header: LineFormatting::new(" ", "\n\n"),
            appendix_body: ItemFormatting::new((" ", "\n"), (" ", "\n"), (" ", "\n"), (" ", "\n")),
            appendices_footer: "----------------------------------------\n",
            no_appendices_footer: "",
        }
    }

    /// The layout drawn with box-drawing characters and terminal colors.
    pub fn unicode_ansi() -> (res: Self)
        ensures
            res == spec_unicode_ansi(),
    {
        DefaultReportFormatter {
            report_header: "\n",
            report_line_prefix_always: " ",
            appendix_line_prefix_always: "",
            context_standalone_formatting: NodeConfig::new(
                ("\x1b[97m● \x1b[1m", "\x1b[0m\n"),
                ("\x1b[97m● \x1b[1m", "\x1b[0m\n"),
                ("│ \x1b[1;97m", "\x1b[0m\n"),
                ("│ \x1b[1;97m", "\x1b[0m\n"),
                "",
            ),
            context_middle_formatting: NodeConfig::new(
                ("├─ \x1b[97m● \x1b[1m", "\x1b[0m\n"),
                ("├─ \x1b[97m● \x1b[1m", "\x1b[0m\n"),
                ("│  │ \x1b[1;97m", "\x1b[0m\n"),
                ("│  │ \x1b[1;97m", "\x1b[0m\n"),
                "│  ",
            ),
            context_last_formatting: NodeConfig::new(
                ("╰─ \x1b[97m● \x1b[1m", "\x1b[0m\n"),
                ("╰─ \x1b[97m● \x1b[1m", "\x1b[0m\n"),
                ("   │ \x1b[1;97m", "\x1b[0m\n"),
                ("   │ \x1b[1;97m", "\x1b[0m\n"),
                "   ",
            ),
            attachment_middle_formatting: ItemFormatting::new(
                ("├ ", "\n"),
                ("├ ", "\n"),
                ("│ ", "\n"),
                ("│ ", "\n"),
            ),
            attachment_last_formatting: ItemFormatting::new(
                ("╰ ", "\n"),
                ("╰ ", "\n"),
                ("  ", "\n"),
                ("  ", "\n"),
            ),
            headered_attachment_middle_formatting: NodeConfig::new(
                ("├ \x1b[4m", "\x1b[0m\n"),
                ("├ \x1b[4m", "\x1b[0m\n"),
                ("│\x1b[4m", "\x1b[0m\n"),
                ("│\x1b[4m", "\x1b[0m\n"),
                "│ ",
            ),
            headered_attachment_last_formatting: NodeConfig::new(
                ("╰ \x1b[4m", "\x1b[0m\n"),
                ("╰ \x1b[4m", "\x1b[0m\n"),
                (" \x1b[4m", "\x1b[0m\n"),
                (" \x1b[4m", "\x1b[0m\n"),
                "  ",
            ),
            headered_attachment_data_formatting: ItemFormatting::new(
                ("│ ", "\n"),
                ("│ ", "\n"),
                ("│ ", "\n"),
                ("│ ", "\n"),
            ),
            headered_attachment_data_prefix: None,
            headered_attachment_data_suffix: Some("╰─\n"),
            see_also_notice_middle_formatting: LineFormatting::new(
                "├ See \x1b[4m",
                "\x1b[0m below\n",
            ),
            see_also_notice_last_formatting: LineFormatting::new(
                "╰ See \x1b[4m",
                "\x1b[0m below\n",
            ),
            opaque_notice_middle_formatting: LineFormatting::new("├ ", "\n"),
            opaque_notice_last_formatting: LineFormatting::new("╰ ", "\n"),
            attachment_child_separator: Some("│\n"),
            child_child_separator: Some("│\n"),
            report_report_separator: "━━\n",
            report_appendix_separator: "\n━━━━━━━━━━━━━━━━━━━━━━━━━━━━━━━━━━━━━━━━\n",
            appendix_appendix_separator: "\n━━━━━━━━━━━━━━━━━━━━━━━━━━━━━━━━━━━━━━━━\n",
            appendix_header: LineFormatting::new(" \x1b[4m", "\x1b[0m\n\n"),
            appendix_body: ItemFormatting::new((" ", "\n"), (" ", "\n"), (" ", "\n"), (" ", "\n")),
            appendices_footer: "\n━━━━━━━━━━━━━━━━━━━━━━━━━━━━━━━━━━━━━━━━\n",
            no_appendices_footer: "",
        }
    }
}

impl Default for DefaultReportFormatter {
    /// The default layout: the Unicode layout with terminal colors.
    fn default() -> (res: Self)
        ensures
            res == spec_unicode_ansi(),
    {
        Self::unicode_ansi()
    }
}

// ---------------------------------------------------------------------------
// The layout, stated over report values
// ---------------------------------------------------------------------------

/// One rendered line: the line prefix, the formatting's prefix, the line and
/// the formatting's suffix.
pub open spec fn line_text(prefix: Seq<char>, lf: LineFormatting, line: Seq<char>) -> Seq<char> {
    prefix + lf.prefix@ + line + lf.suffix@
}

/// The line formatting of a line by whether it is the first and the last.
pub open spec fn pick_line(fmt: ItemFormatting, first: bool, last: bool) -> LineFormatting {
    if first && last {
        fmt.standalone_line
    } else if first {
        fmt.first_line
    } else if last {
        fmt.last_line
    } else {
        fmt.middle_line
    }
}

/// The lines `ls[i..]` of an item, rendered.
pub open spec fn item_lines(prefix: Seq<char>, fmt: ItemFormatting, ls: Seq<Seq<char>>, i: int) -> Seq<char>
    decreases ls.len() - i,
{
    if i < 0 || i >= ls.len() {
        Seq::empty()
    } else {
        line_text(prefix, pick_line(fmt, i == 0, i + 1 == ls.len()), ls[i]) + item_lines(
            prefix,
            fmt,
            ls,
            i + 1,
        )
    }
}

/// A value's text rendered line by line.
pub open spec fn item_text(prefix: Seq<char>, fmt: ItemFormatting, text: Seq<char>) -> Seq<char> {
    item_lines(prefix, fmt, lines(text), 0)
}

/// The text of a report's context when the report is rendered with `f`.
pub open spec fn context_text(r: ReportView, f: FormattingFunction) -> Seq<char> {
    match handlers::context_preferred_function(r.context_handler, f) {
        FormattingFunction::Display => handlers::context_display_text(r.context_handler, r.context),
        FormattingFunction::Debug => handlers::context_debug_text(r.context_handler, r.context),
    }
}

/// Whether an attachment of this style is rendered in its node.
pub open spec fn is_shown(style: AttachmentFormattingStyle) -> bool {
    match style.placement {
        AttachmentFormattingPlacement::Opaque => false,
        AttachmentFormattingPlacement::Hidden => false,
        _ => true,
    }
}

/// Whether an attachment of this style is counted as opaque.
pub open spec fn is_opaque(style: AttachmentFormattingStyle) -> bool {
    style.placement is Opaque
}

/// The preferred style of an attachment when its report is rendered with `f`.
pub open spec fn style_of(a: ReportAttachment, f: FormattingFunction) -> AttachmentFormattingStyle {
    handlers::attachment_preferred_style(a.handler, f)
}

/// The shown attachments among `atts`, each with its style and index, in order.
pub open spec fn shown_attachments(atts: Seq<ReportAttachment>, f: FormattingFunction) -> Seq<
    (AttachmentFormattingStyle, usize),
>
    decreases atts.len(),
{
    if atts.len() == 0 {
        Seq::empty()
    } else {
        let rest = shown_attachments(atts.drop_last(), f);
        let st = style_of(atts.last(), f);
        if is_shown(st) {
            rest.push((st, (atts.len() - 1) as usize))
        } else {
            rest
        }
    }
}

/// The number of opaque attachments among `atts`.
pub open spec fn opaque_count(atts: Seq<ReportAttachment>, f: FormattingFunction) -> nat
    decreases atts.len(),
{
    if atts.len() == 0 {
        0
    } else {
        opaque_count(atts.drop_last(), f) + if is_opaque(style_of(atts.last(), f)) {
            1nat
        } else {
            0nat
        }
    }
}

/// The place where an entry of priority `p` goes in a sequence ordered by
/// descending priority: after every entry whose priority is not lower.
pub open spec fn insert_pos(s: Seq<(AttachmentFormattingStyle, usize)>, p: i32) -> nat
    decreases s.len(),
{
    if s.len() == 0 {
        0
    } else if s[0].0.priority < p {
        0
    } else {
        1 + insert_pos(s.drop_first(), p)
    }
}

/// `s` ordered by descending priority; entries of equal priority keep their order.
pub open spec fn sort_by_priority(s: Seq<(AttachmentFormattingStyle, usize)>) -> Seq<
    (AttachmentFormattingStyle, usize),
>
    decreases s.len(),
{
    if s.len() == 0 {
        Seq::empty()
    } else {
        let sorted = sort_by_priority(s.drop_last());
        sorted.insert(insert_pos(sorted, s.last().0.priority) as int, s.last())
    }
}

/// The node configuration of a report by whether it is its parent's first and last child.
pub open spec fn node_config(cfg: DefaultReportFormatter, first: bool, last: bool) -> NodeConfig {
    if first && last {
        cfg.context_standalone_formatting
    } else if last {
        cfg.context_last_formatting
    } else {
        cfg.context_middle_formatting
    }
}

/// The text `prefix + s` if `s` is given, nothing otherwise.
pub open spec fn opt_line(prefix: Seq<char>, s: Option<&'static str>) -> Seq<char> {
    match s {
        Some(t) => prefix + t@,
        None => Seq::empty(),
    }
}

/// The notice that names an appendix entry, `name #n`.
pub open spec fn appendix_ref(name: Seq<char>, n: nat) -> Seq<char> {
    name + " #"@ + decimal(n)
}

/// One attachment rendered, and the appendices after it.
pub open spec fn render_attachment(
    cfg: DefaultReportFormatter,
    prefix: Seq<char>,
    apps: AppendixGroups,
    style: AttachmentFormattingStyle,
    a: ReportAttachment,
    is_last: bool,
) -> (Seq<char>, AppendixGroups) {
    let text = attachment_text(a, style.function);
    match style.placement {
        AttachmentFormattingPlacement::Inline => (
            item_text(
                prefix,
                if is_last {
                    cfg.attachment_last_formatting
                } else {
                    cfg.attachment_middle_formatting
                },
                text,
            ),
            apps,
        ),
        AttachmentFormattingPlacement::InlineWithHeader { header } => {
            let nc = if is_last {
                cfg.headered_attachment_last_formatting
            } else {
                cfg.headered_attachment_middle_formatting
            };
            let inner = prefix + nc.prefix_children@;
            (
                item_text(prefix, nc.header, header@) + opt_line(
                    inner,
                    cfg.headered_attachment_data_prefix,
                ) + item_text(inner, cfg.headered_attachment_data_formatting, text) + opt_line(
                    inner,
                    cfg.headered_attachment_data_suffix,
                ),
                apps,
            )
        },
        AttachmentFormattingPlacement::Appendix { appendix_name } => {
            let apps2 = groups_push(apps, appendix_name@, text);
            (
                line_text(
                    prefix,
                    if is_last {
                        cfg.see_also_notice_last_formatting
                    } else {
                        cfg.see_also_notice_middle_formatting
                    },
                    appendix_ref(appendix_name@, group_count(apps2, appendix_name@)),
                ),
                apps2,
            )
        },
        _ => (Seq::empty(), apps),
    }
}

/// The sorted shown attachments `sorted[k..]` of a node rendered in order.
pub open spec fn render_attachments(
    cfg: DefaultReportFormatter,
    prefix: Seq<char>,
    apps: AppendixGroups,
    atts: Seq<ReportAttachment>,
    sorted: Seq<(AttachmentFormattingStyle, usize)>,
    k: int,
    has_children: bool,
) -> (Seq<char>, AppendixGroups)
    decreases sorted.len() - k,
{
    if k < 0 || k >= sorted.len() {
        (Seq::empty(), apps)
    } else {
        let (o1, a1) = render_attachment(
            cfg,
            prefix,
            apps,
            sorted[k].0,
            atts[sorted[k].1 as int],
            k + 1 == sorted.len() && !has_children,
        );
        let (o2, a2) = render_attachments(cfg, prefix, a1, atts, sorted, k + 1, has_children);
        (o1 + o2, a2)
    }
}

/// The notice of opaque attachments, `n additional opaque attachment(s)`.
pub open spec fn opaque_notice(n: nat) -> Seq<char> {
    decimal(n) + " additional opaque "@ + if n == 1 {
        "attachment"@
    } else {
        "attachments"@
    }
}

/// A report node rendered: its context, then its contents one level deeper.
pub open spec fn render_node(
    cfg: DefaultReportFormatter,
    f: FormattingFunction,
    prefix: Seq<char>,
    apps: AppendixGroups,
    r: ReportView,
    first: bool,
    last: bool,
) -> (Seq<char>, AppendixGroups)
    decreases r, 1int,
{
    let nc = node_config(cfg, first, last);
    let head = item_text(prefix, nc.header, context_text(r, f));
    let (body, apps2) = render_node_data(cfg, f, prefix + nc.prefix_children@, apps, r);
    (head + body, apps2)
}

/// The contents of a report node: attachments by priority, the opaque
/// notice, the separator, then the children.
pub open spec fn render_node_data(
    cfg: DefaultReportFormatter,
    f: FormattingFunction,
    prefix: Seq<char>,
    apps: AppendixGroups,
    r: ReportView,
) -> (Seq<char>, AppendixGroups)
    decreases r, 0int,
{
    let has_children = r.children.len() > 0;
    let sorted = sort_by_priority(shown_attachments(r.attachments, f));
    let (atts_out, apps2) = render_attachments(
        cfg,
        prefix,
        apps,
        r.attachments,
        sorted,
        0,
        has_children,
    );
    let n = opaque_count(r.attachments, f);
    let notice = if n != 0 {
        line_text(
            prefix,
            if has_children {
                cfg.opaque_notice_middle_formatting
            } else {
                cfg.opaque_notice_last_formatting
            },
            opaque_notice(n),
        )
    } else {
        Seq::empty()
    };
    let sep = if r.attachments.len() > 0 && has_children {
        opt_line(prefix, cfg.attachment_child_separator)
    } else {
        Seq::empty()
    };
    let (kids, apps3) = render_children(cfg, f, prefix, apps2, r.children, 0);
    (atts_out + notice + sep + kids, apps3)
}

/// The children `cs[i..]` of a node rendered in order.
pub open spec fn render_children(
    cfg: DefaultReportFormatter,
    f: FormattingFunction,
    prefix: Seq<char>,
    apps: AppendixGroups,
    cs: Seq<ReportView>,
    i: int,
) -> (Seq<char>, AppendixGroups)
    decreases cs, cs.len() - i,
{
    if i < 0 || i >= cs.len() {
        (Seq::empty(), apps)
    } else {
        let sep = if i != 0 {
            opt_line(prefix, cfg.child_child_separator)
        } else {
            Seq::empty()
        };
        let (o1, a1) = render_node(cfg, f, prefix, apps, cs[i], i == 0, i + 1 == cs.len());
        let (o2, a2) = render_children(cfg, f, prefix, a1, cs, i + 1);
        (sep + o1 + o2, a2)
    }
}

/// The entries `texts[j..]` of the appendix named `name` rendered; `first`
/// tells whether no entry has been rendered before.
pub open spec fn render_group(
    cfg: DefaultReportFormatter,
    prefix: Seq<char>,
    name: Seq<char>,
    texts: Seq<Seq<char>>,
    j: int,
    first: bool,
) -> Seq<char>
    decreases texts.len() - j,
{
    if j < 0 || j >= texts.len() {
        Seq::empty()
    } else {
        (if first {
            Seq::empty()
        } else {
            cfg.appendix_appendix_separator@
        }) + line_text(prefix, cfg.appendix_header, appendix_ref(name, (j + 1) as nat))
            + item_text(prefix, cfg.appendix_body, texts[j]) + render_group(
            cfg,
            prefix,
            name,
            texts,
            j + 1,
            false,
        )
    }
}

/// The appendix groups `apps[i..]` rendered in order.
pub open spec fn render_groups(
    cfg: DefaultReportFormatter,
    prefix: Seq<char>,
    apps: AppendixGroups,
    i: int,
    first: bool,
) -> Seq<char>
    decreases apps.len() - i,
{
    if i < 0 || i >= apps.len() {
        Seq::empty()
    } else {
        render_group(cfg, prefix, apps[i].0, apps[i].1, 0, first) + render_groups(
            cfg,
            prefix,
            apps,
            i + 1,
            first && apps[i].1.len() == 0,
        )
    }
}

/// The appendices section.
pub open spec fn render_appendices(
    cfg: DefaultReportFormatter,
    prefix: Seq<char>,
    apps: AppendixGroups,
) -> Seq<char> {
    if apps.len() == 0 {
        cfg.no_appendices_footer@
    } else {
        cfg.report_appendix_separator@ + render_groups(cfg, prefix, apps, 0, true)
            + cfg.appendices_footer@
    }
}

/// The top-level reports `rs[i..]` rendered, each as a standalone tree.
pub open spec fn render_top(
    cfg: DefaultReportFormatter,
    f: FormattingFunction,
    apps: AppendixGroups,
    rs: Seq<ReportView>,
    i: int,
) -> (Seq<char>, AppendixGroups)
    decreases rs.len() - i,
{
    if i < 0 || i >= rs.len() {
        (Seq::empty(), apps)
    } else {
        let sep = if i == 0 {
            Seq::empty()
        } else {
            cfg.report_report_separator@
        };
        let (o1, a1) = render_node(
            cfg,
            f,
            cfg.report_line_prefix_always@,
            apps,
            rs[i],
            true,
            true,
        );
        let (o2, a2) = render_top(cfg, f, a1, rs, i + 1);
        (sep + o1 + o2, a2)
    }
}

/// The complete text of the reports `rs` rendered with `f` in this layout.
pub open spec fn render_reports(
    cfg: DefaultReportFormatter,
    f: FormattingFunction,
    rs: Seq<ReportView>,
) -> Seq<char> {
    let (body, apps) = render_top(cfg, f, Seq::empty(), rs, 0);
    cfg.report_header@ + body + render_appendices(cfg, cfg.appendix_line_prefix_always@, apps)
}

// ---------------------------------------------------------------------------
// The layout, computed
// ---------------------------------------------------------------------------

/// The state of one rendering: the configuration, the function the reports
/// are rendered with, the appendices so far, the current line prefix and the
/// text so far.
struct Renderer<'a> {
    config: &'a DefaultReportFormatter,
    function: FormattingFunction,
    appendices: Appendices,
    line_prefix: String,
    out: String,
}

impl<'a> Renderer<'a> {
    /// The appendix groups collected so far.
    spec fn groups(&self) -> AppendixGroups {
        appendix_contents(self.appendices)
    }

    /// Writes one decorated line.
    fn write_line(&mut self, lf: LineFormatting, line: &str)
        ensures
            final(self).out@ == old(self).out@ + line_text(old(self).line_prefix@, lf, line@),
            final(self).line_prefix == old(self).line_prefix,
            final(self).config == old(self).config,
            final(self).function == old(self).function,
            final(self).appendices == old(self).appendices,
    {
        self.out.append(self.line_prefix.as_str());
        self.out.append(lf.prefix);
        self.out.append(line);
        self.out.append(lf.suffix);
        assert(self.out@ =~= old(self).out@ + line_text(old(self).line_prefix@, lf, line@));
    }

    /// Writes the line prefix followed by `s`.
    fn write_with_prefix(&mut self, s: &str)
        ensures
            final(self).out@ == old(self).out@ + old(self).line_prefix@ + s@,
            final(self).line_prefix == old(self).line_prefix,
            final(self).config == old(self).config,
            final(self).function == old(self).function,
            final(self).appendices == old(self).appendices,
    {
        self.out.append(self.line_prefix.as_str());
        self.out.append(s);
    }

    /// Writes `prefix + s` when `s` is given.
    fn write_opt_line(&mut self, s: Option<&'static str>)
        ensures
            final(self).out@ == old(self).out@ + opt_line(old(self).line_prefix@, s),
            final(self).line_prefix == old(self).line_prefix,
            final(self).config == old(self).config,
            final(self).function == old(self).function,
            final(self).appendices == old(self).appendices,
    {
        match s {
            Some(t) => {
                self.write_with_prefix(t);
                assert(self.out@ =~= old(self).out@ + opt_line(old(self).line_prefix@, s));
            },
            None => {
                assert(self.out@ =~= old(self).out@ + opt_line(old(self).line_prefix@, s));
            },
        }
    }

    /// Writes the lines of `text`, decorated by `fmt`.
    fn write_item(&mut self, fmt: ItemFormatting, text: &str)
        ensures
            final(self).out@ == old(self).out@ + item_text(old(self).line_prefix@, fmt, text@),
            final(self).line_prefix == old(self).line_prefix,
            final(self).config == old(self).config,
            final(self).function == old(self).function,
            final(self).appendices == old(self).appendices,
    {
        let ls = split_lines(text);
        let n = ls.len();
        let ghost l = lines(text@);
        let ghost p = self.line_prefix@;
        let mut i: usize = 0;
        while i < n
            invariant
                n == ls@.len(),
                n == l.len(),
                l == lines(text@),
                forall|k: int| 0 <= k < ls@.len() ==> #[trigger] ls@[k]@ == l[k],
                p == self.line_prefix@,
                i <= n,
                old(self).out@ + item_lines(p, fmt, l, 0) == self.out@ + item_lines(p, fmt, l, i as int),
                self.line_prefix == old(self).line_prefix,
                self.config == old(self).config,
                self.function == old(self).function,
                self.appendices == old(self).appendices,
            decreases n - i,
        {
            let lf = if i == 0 && i + 1 == n {
                fmt.standalone_line
            } else if i == 0 {
                fmt.first_line
            } else if i + 1 == n {
                fmt.last_line
            } else {
                fmt.middle_line
            };
            let ghost before = self.out@;
            self.write_line(lf, ls[i].as_str());
            assert(item_lines(p, fmt, l, i as int) == line_text(
                p,
                pick_line(fmt, i == 0, i + 1 == l.len()),
                l[i as int],
            ) + item_lines(p, fmt, l, i + 1));
            assert(self.out@ + item_lines(p, fmt, l, i + 1) =~= before + item_lines(
                p,
                fmt,
                l,
                i as int,
            ));
            i = i + 1;
        }
        assert(item_lines(p, fmt, l, n as int) == Seq::<char>::empty());
        assert(self.out@ =~= old(self).out@ + item_text(old(self).line_prefix@, fmt, text@));
    }
}

/// `s` ordered by descending priority, entries of equal priority in their input
/// order.
fn sort_by_priority_exec(s: &Vec<(AttachmentFormattingStyle, usize)>) -> (res: Vec<
    (AttachmentFormattingStyle, usize),
>)
    ensures
        res@ == sort_by_priority(s@),
{
    let mut res: Vec<(AttachmentFormattingStyle, usize)> = Vec::new();
    let mut i: usize = 0;
    assert(s@.take(0) =~= Seq::<(AttachmentFormattingStyle, usize)>::empty());
    while i < s.len()
        invariant
            i <= s@.len(),
            res@ == sort_by_priority(s@.take(i as int)),
        decreases s@.len() - i,
    {
        let x = s[i];
        let p = x.0.priority;
        let mut k: usize = 0;
        assert(res@.skip(0) =~= res@);
        while k < res.len() && !(res[k].0.priority < p)
            invariant
                k <= res@.len(),
                insert_pos(res@, p) == k + insert_pos(res@.skip(k as int), p),
            decreases res@.len() - k,
        {
            assert(res@.skip(k as int).drop_first() =~= res@.skip(k + 1));
            k = k + 1;
        }
        proof {
            if k < res@.len() {
                assert(res@.skip(k as int)[0] == res@[k as int]);
            } else {
                assert(res@.skip(k as int).len() == 0);
            }
        }
        let ghost prev = res@;
        res.insert(k, x);
        proof {
            let t = s@.take(i + 1);
            assert(t.drop_last() =~= s@.take(i as int));
            assert(t.last() == x);
            assert(res@ =~= prev.insert(k as int, x));
        }
        i = i + 1;
    }
    assert(s@.take(s@.len() as int) =~= s@);
    res
}

/// The shown attachments of `atts` with their styles and indices, and the
/// number of opaque ones.
fn collect_shown(atts: &Vec<ReportAttachment>, f: FormattingFunction) -> (res: (
    Vec<(AttachmentFormattingStyle, usize)>,
    usize,
))
    ensures
        res.0@ == shown_attachments(atts@, f),
        res.1 == opaque_count(atts@, f),
{
    let mut shown: Vec<(AttachmentFormattingStyle, usize)> = Vec::new();
    let mut opaque: usize = 0;
    let mut i: usize = 0;
    assert(atts@.take(0) =~= Seq::<ReportAttachment>::empty());
    while i < atts.len()
        invariant
            i <= atts@.len(),
            shown@ == shown_attachments(atts@.take(i as int), f),
            opaque == opaque_count(atts@.take(i as int), f),
            opaque <= i,
        decreases atts@.len() - i,
    {
        let st = atts[i].preferred_formatting_style(f);
        let ghost t = atts@.take(i + 1);
        assert(t.drop_last() =~= atts@.take(i as int));
        assert(t.last() == atts@[i as int]);
        match st.placement {
            AttachmentFormattingPlacement::Opaque => {
                opaque = opaque + 1;
            },
            AttachmentFormattingPlacement::Hidden => {},
            _ => {
                shown.push((st, i));
            },
        }
        i = i + 1;
    }
    assert(atts@.take(atts@.len() as int) =~= atts@);
    (shown, opaque)
}

impl<'a> Renderer<'a> {
    /// Writes one attachment in the given style.
    fn write_attachment(
        &mut self,
        style: AttachmentFormattingStyle,
        a: &ReportAttachment,
        is_last: bool,
    )
        ensures
            ({
                let (o, g) = render_attachment(
                    *old(self).config,
                    old(self).line_prefix@,
                    old(self).groups(),
                    style,
                    *a,
                    is_last,
                );
                &&& final(self).out@ == old(self).out@ + o
                &&& final(self).groups() == g
            }),
            final(self).line_prefix == old(self).line_prefix,
            final(self).config == old(self).config,
            final(self).function == old(self).function,
    {
        let ghost g0 = self.groups();
        let ghost p = self.line_prefix@;
        match style.placement {
            AttachmentFormattingPlacement::Inline => {
                let text = a.format_inner(style.function);
                let fmt = if is_last {
                    self.config.attachment_last_formatting
                } else {
                    self.config.attachment_middle_formatting
                };
                self.write_item(fmt, text.as_str());
            },
            AttachmentFormattingPlacement::InlineWithHeader { header } => {
                let nc = if is_last {
                    self.config.headered_attachment_last_formatting
                } else {
                    self.config.headered_attachment_middle_formatting
                };
                let ghost o0 = self.out@;
                self.write_item(nc.header, header);
                let saved = self.line_prefix.clone();
                self.line_prefix.append(nc.prefix_children);
                let ghost o1 = self.out@;
                self.write_opt_line(self.config.headered_attachment_data_prefix);
                let text = a.format_inner(style.function);
                let ghost o2 = self.out@;
                self.write_item(self.config.headered_attachment_data_formatting, text.as_str());
                let ghost o3 = self.out@;
                self.write_opt_line(self.config.headered_attachment_data_suffix);
                self.line_prefix = saved;
                let ghost inner = p + nc.prefix_children@;
                assert(self.out@ =~= o0 + (item_text(p, nc.header, header@) + opt_line(
                    inner,
                    self.config.headered_attachment_data_prefix,
                ) + item_text(inner, self.config.headered_attachment_data_formatting, text@)
                    + opt_line(inner, self.config.headered_attachment_data_suffix)));
            },
            AttachmentFormattingPlacement::Appendix { appendix_name } => {
                let text = a.format_inner(style.function);
                let n = appendices_push(&mut self.appendices, appendix_name, text);
                let mut line = String::from_str(appendix_name);
                line.append(" #");
                push_decimal(&mut line, n as u64);
                assert(line@ =~= appendix_ref(appendix_name@, n as nat));
                let lf = if is_last {
                    self.config.see_also_notice_last_formatting
                } else {
                    self.config.see_also_notice_middle_formatting
                };
                self.write_line(lf, line.as_str());
            },
            AttachmentFormattingPlacement::Opaque => {
                assert(self.out@ =~= old(self).out@ + Seq::<char>::empty());
            },
            AttachmentFormattingPlacement::Hidden => {
                assert(self.out@ =~= old(self).out@ + Seq::<char>::empty());
            },
        }
    }
}

/// The text of a report's context when the report is rendered with `f`.
pub fn format_current_context(r: &Report, f: FormattingFunction) -> (res: String)
    ensures
        res@ == context_text(r@, f),
{
    let style = handlers::context_preferred_formatting_style(r.context_handler, f);
    match style.function {
        FormattingFunction::Display => handlers::context_display(r.context_handler, &r.context),
        FormattingFunction::Debug => handlers::context_debug(r.context_handler, &r.context),
    }
}

impl<'a> Renderer<'a> {
    /// Writes a report node and everything below it.
    fn write_node(&mut self, r: &Report, first: bool, last: bool)
        ensures
            ({
                let (o, g) = render_node(
                    *old(self).config,
                    old(self).function,
                    old(self).line_prefix@,
                    old(self).groups(),
                    r@,
                    first,
                    last,
                );
                &&& final(self).out@ == old(self).out@ + o
                &&& final(self).groups() == g
            }),
            final(self).line_prefix == old(self).line_prefix,
            final(self).config == old(self).config,
            final(self).function == old(self).function,
        decreases r, 1int,
    {
        let nc = if first && last {
            self.config.context_standalone_formatting
        } else if last {
            self.config.context_last_formatting
        } else {
            self.config.context_middle_formatting
        };
        let text = format_current_context(r, self.function);
        let ghost o0 = self.out@;
        self.write_item(nc.header, text.as_str());
        let ghost o1 = self.out@;
        let saved = self.line_prefix.clone();
        self.line_prefix.append(nc.prefix_children);
        self.write_node_data(r);
        self.line_prefix = saved;
        proof {
            let (body, g) = render_node_data(
                *old(self).config,
                old(self).function,
                old(self).line_prefix@ + nc.prefix_children@,
                old(self).groups(),
                r@,
            );
            assert(self.out@ =~= o0 + (item_text(
                old(self).line_prefix@,
                nc.header,
                context_text(r@, old(self).function),
            ) + body));
        }
    }

    /// Writes the contents of a report node: its attachments, the opaque
    /// notice, the separator and its children.
    fn write_node_data(&mut self, r: &Report)
        ensures
            ({
                let (o, g) = render_node_data(
                    *old(self).config,
                    old(self).function,
                    old(self).line_prefix@,
                    old(self).groups(),
                    r@,
                );
                &&& final(self).out@ == old(self).out@ + o
                &&& final(self).groups() == g
            }),
            final(self).line_prefix == old(self).line_prefix,
            final(self).config == old(self).config,
            final(self).function == old(self).function,
        decreases r, 0int,
    {
        let ghost cfg = *self.config;
        let ghost f = self.function;
        let ghost p = self.line_prefix@;
        let ghost g0 = self.groups();
        let ghost rv = r@;
        proof {
            crate::report::lemma_views(r.children.reports@);
        }
        let atts = &r.attachments.items;
        let children = &r.children.reports;
        let has_children = children.len() > 0;
        let (shown, opaque) = collect_shown(atts, self.function);
        let sorted = sort_by_priority_exec(&shown);
        let ghost srt = sorted@;
        proof {
            assert forall|k: int| 0 <= k < srt.len() implies (#[trigger] srt[k]).1 < atts@.len() by {
                lemma_sorted_indices(atts@, f, k);
            }
        }
        let ghost o0 = self.out@;
        let mut k: usize = 0;
        while k < sorted.len()
            invariant
                k <= sorted@.len(),
                sorted@ == srt,
                srt == sort_by_priority(shown_attachments(atts@, f)),
                forall|j: int| 0 <= j < srt.len() ==> (#[trigger] srt[j]).1 < atts@.len(),
                atts@ == rv.attachments,
                has_children == (rv.children.len() > 0),
                cfg == *self.config,
                f == self.function,
                p == self.line_prefix@,
                ({
                    let (o_all, g_all) = render_attachments(cfg, p, g0, atts@, srt, 0, has_children);
                    let (o_rest, g_rest) = render_attachments(
                        cfg,
                        p,
                        self.groups(),
                        atts@,
                        srt,
                        k as int,
                        has_children,
                    );
                    &&& o0 + o_all == self.out@ + o_rest
                    &&& g_all == g_rest
                }),
                self.line_prefix == old(self).line_prefix,
                self.config == old(self).config,
                self.function == old(self).function,
            decreases sorted@.len() - k,
        {
            let (st, idx) = sorted[k];
            let is_last = k + 1 == sorted.len() && !has_children;
            let ghost g_before = self.groups();
            let ghost out_before = self.out@;
            self.write_attachment(st, &atts[idx], is_last);
            proof {
                let (o1, a1) = render_attachment(cfg, p, g_before, st, atts@[idx as int], is_last);
                let (o2, a2) = render_attachments(cfg, p, a1, atts@, srt, k + 1, has_children);
                assert(render_attachments(cfg, p, g_before, atts@, srt, k as int, has_children) == (
                o1 + o2, a2));
                assert(out_before + (o1 + o2) =~= self.out@ + o2);
            }
            k = k + 1;
        }
        let ghost o_atts = self.out@;
        let ghost g_atts = self.groups();
        proof {
            let (o_rest, g_rest) = render_attachments(
                cfg,
                p,
                self.groups(),
                atts@,
                srt,
                k as int,
                has_children,
            );
            assert(o_rest == Seq::<char>::empty());
            assert(self.out@ =~= o0 + render_attachments(cfg, p, g0, atts@, srt, 0, has_children).0);
        }
        if opaque != 0 {
            let mut line = String::new();
            push_decimal(&mut line, opaque as u64);
            line.append(" additional opaque ");
            if opaque == 1 {
                line.append("attachment");
            } else {
                line.append("attachments");
            }
            assert(line@ =~= opaque_notice(opaque as nat));
            let lf = if has_children {
                self.config.opaque_notice_middle_formatting
            } else {
                self.config.opaque_notice_last_formatting
            };
            self.write_line(lf, line.as_str());
        }
        let ghost o_notice = self.out@;
        if atts.len() > 0 && has_children {
            self.write_opt_line(self.config.attachment_child_separator);
        }
        let ghost o_sep = self.out@;
        let ghost g_kids0 = self.groups();
        let mut i: usize = 0;
        while i < children.len()
            invariant
                i <= children@.len(),
                children@ == r.children.reports@,
                rv == r@,
                views(children@) == rv.children,
                children@.len() == rv.children.len(),
                forall|j: int| 0 <= j < children@.len() ==> #[trigger] children@[j]@ == rv.children[j],
                cfg == *self.config,
                f == self.function,
                p == self.line_prefix@,
                ({
                    let (o_all, g_all) = render_children(cfg, f, p, g_kids0, rv.children, 0);
                    let (o_rest, g_rest) = render_children(
                        cfg,
                        f,
                        p,
                        self.groups(),
                        rv.children,
                        i as int,
                    );
                    &&& o_sep + o_all == self.out@ + o_rest
                    &&& g_all == g_rest
                }),
                self.line_prefix == old(self).line_prefix,
                self.config == old(self).config,
                self.function == old(self).function,
            decreases children@.len() - i,
        {
            let ghost g_before = self.groups();
            let ghost out_before = self.out@;
            if i != 0 {
                self.write_opt_line(self.config.child_child_separator);
            }
            let ghost out_mid = self.out@;
            proof {
                assert(decreases_to!(r.children.reports => r.children.reports@));
                assert(decreases_to!(r.children.reports@ => r.children.reports@[i as int]));
                assert(decreases_to!(*r => r.children.reports@[i as int]));
            }
            self.write_node(&children[i], i == 0, i + 1 == children.len());
            proof {
                let sep = if i != 0 {
                    opt_line(p, cfg.child_child_separator)
                } else {
                    Seq::empty()
                };
                let (o1, a1) = render_node(
                    cfg,
                    f,
                    p,
                    g_before,
                    rv.children[i as int],
                    i == 0,
                    i + 1 == rv.children.len(),
                );
                let (o2, a2) = render_children(cfg, f, p, a1, rv.children, i + 1);
                assert(render_children(cfg, f, p, g_before, rv.children, i as int) == (
                sep + o1 + o2, a2));
                assert(out_before + (sep + o1 + o2) =~= self.out@ + o2);
            }
            i = i + 1;
        }
        proof {
            let (o_rest, g_rest) = render_children(cfg, f, p, self.groups(), rv.children, i as int);
            assert(o_rest == Seq::<char>::empty());
            let (o_all, g_all) = render_children(cfg, f, p, g_kids0, rv.children, 0);
            assert(self.out@ =~= o_sep + o_all);
            let n = opaque_count(rv.attachments, f);
            let notice = if n != 0 {
                line_text(
                    p,
                    if has_children {
                        cfg.opaque_notice_middle_formatting
                    } else {
                        cfg.opaque_notice_last_formatting
                    },
                    opaque_notice(n),
                )
            } else {
                Seq::empty()
            };
            assert(o_notice =~= o_atts + notice);
            let sep = if rv.attachments.len() > 0 && has_children {
                opt_line(p, cfg.attachment_child_separator)
            } else {
                Seq::empty()
            };
            assert(o_sep =~= o_notice + sep);
            let (atts_out, apps2) = render_attachments(
                cfg,
                p,
                g0,
                rv.attachments,
                srt,
                0,
                has_children,
            );
            assert(g_kids0 == apps2);
            assert(self.out@ =~= o0 + (atts_out + notice + sep + o_all));
        }
    }
}

/// Every index in the sorted shown attachments points into the attachments.
proof fn lemma_sorted_indices(atts: Seq<ReportAttachment>, f: FormattingFunction, k: int)
    requires
        0 <= k < sort_by_priority(shown_attachments(atts, f)).len(),
    ensures
        sort_by_priority(shown_attachments(atts, f))[k].1 < atts.len(),
{
    lemma_shown_indices(atts, f);
    lemma_sort_members(shown_attachments(atts, f));
    let x = sort_by_priority(shown_attachments(atts, f))[k];
    assert(shown_attachments(atts, f).contains(x));
}

proof fn lemma_shown_indices(atts: Seq<ReportAttachment>, f: FormattingFunction)
    ensures
        forall|j: int|
            0 <= j < shown_attachments(atts, f).len() ==> (#[trigger] shown_attachments(
                atts,
                f,
            )[j]).1 < atts.len(),
    decreases atts.len(),
{
    if atts.len() > 0 {
        lemma_shown_indices(atts.drop_last(), f);
        let rest = shown_attachments(atts.drop_last(), f);
        assert forall|j: int|
            0 <= j < shown_attachments(atts, f).len() implies (#[trigger] shown_attachments(
                atts,
                f,
            )[j]).1 < atts.len() by {
            if j < rest.len() {
                assert(shown_attachments(atts, f)[j] == rest[j]);
            }
        }
    }
}

/// Sorting keeps the entries: every entry of the result is an entry of the input.
proof fn lemma_sort_members(s: Seq<(AttachmentFormattingStyle, usize)>)
    ensures
        sort_by_priority(s).len() == s.len(),
        forall|k: int| 0 <= k < s.len() ==> s.contains(#[trigger] sort_by_priority(s)[k]),
    decreases s.len(),
{
    if s.len() > 0 {
        let rest = s.drop_last();
        lemma_sort_members(rest);
        let sorted = sort_by_priority(rest);
        let pos = insert_pos(sorted, s.last().0.priority);
        lemma_insert_pos_bound(sorted, s.last().0.priority);
        let res = sorted.insert(pos as int, s.last());
        assert forall|k: int| 0 <= k < s.len() implies s.contains(#[trigger] res[k]) by {
            if k < pos {
                assert(res[k] == sorted[k]);
                assert(rest.contains(sorted[k]));
                let w = choose|w: int| 0 <= w < rest.len() && rest[w] == sorted[k];
                assert(s[w] == rest[w]);
            } else if k == pos {
                assert(s[s.len() - 1] == s.last());
            } else {
                assert(res[k] == sorted[k - 1]);
                assert(rest.contains(sorted[k - 1]));
                let w = choose|w: int| 0 <= w < rest.len() && rest[w] == sorted[k - 1];
                assert(s[w] == rest[w]);
            }
        }
    }
}

proof fn lemma_insert_pos_bound(s: Seq<(AttachmentFormattingStyle, usize)>, p: i32)
    ensures
        insert_pos(s, p) <= s.len(),
    decreases s.len(),
{
    if s.len() > 0 {
        lemma_insert_pos_bound(s.drop_first(), p);
    }
}

impl<'a> Renderer<'a> {
    /// Writes the appendices collected so far and empties them.
    #[verifier::rlimit(40)]
    fn write_appendices(&mut self)
        ensures
            final(self).out@ == old(self).out@ + render_appendices(
                *old(self).config,
                old(self).line_prefix@,
                old(self).groups(),
            ),
            final(self).line_prefix == old(self).line_prefix,
            final(self).config == old(self).config,
            final(self).function == old(self).function,
    {
        let ghost cfg = *self.config;
        let ghost p = self.line_prefix@;
        let ghost apps = self.groups();
        let mut appendices = appendices_new();
        core::mem::swap(&mut appendices, &mut self.appendices);
        if appendices_is_empty(&appendices) {
            self.out.append(self.config.no_appendices_footer);
            return ;
        }
        self.out.append(self.config.report_appendix_separator);
        let ghost o0 = self.out@;
        let groups = appendices_into_vec(appendices);
        let mut first = true;
        let mut i: usize = 0;
        while i < groups.len()
            invariant
                i <= groups@.len(),
                groups@.len() == apps.len(),
                forall|m: int|
                    0 <= m < groups@.len() ==> {
                        &&& (#[trigger] groups@[m]).0@ == apps[m].0
                        &&& groups@[m].1@.len() == apps[m].1.len()
                        &&& forall|j: int|
                            0 <= j < groups@[m].1@.len() ==> (#[trigger] groups@[m].1@[j])@
                                == apps[m].1[j]
                    },
                cfg == *self.config,
                p == self.line_prefix@,
                o0 + render_groups(cfg, p, apps, 0, true) == self.out@ + render_groups(
                    cfg,
                    p,
                    apps,
                    i as int,
                    first,
                ),
                self.line_prefix == old(self).line_prefix,
                self.config == old(self).config,
                self.function == old(self).function,
            decreases groups@.len() - i,
        {
            let name = groups[i].0;
            let texts = &groups[i].1;
            let ghost first_at_group = first;
            let ghost out_group = self.out@;
            let mut j: usize = 0;
            while j < texts.len()
                invariant
                    j <= texts@.len(),
                    i < groups@.len(),
                    texts@ == groups@[i as int].1@,
                    name@ == apps[i as int].0,
                    texts@.len() == apps[i as int].1.len(),
                    forall|m: int| 0 <= m < texts@.len() ==> (#[trigger] texts@[m])@ == apps[i as int].1[m],
                    cfg == *self.config,
                    p == self.line_prefix@,
                    out_group + render_group(cfg, p, name@, apps[i as int].1, 0, first_at_group)
                        == self.out@ + render_group(cfg, p, name@, apps[i as int].1, j as int, first),
                    first == (first_at_group && j == 0),
                    self.line_prefix == old(self).line_prefix,
                    self.config == old(self).config,
                    self.function == old(self).function,
                decreases texts@.len() - j,
            {
                let ghost before = self.out@;
                if !first {
                    self.out.append(self.config.appendix_appendix_separator);
                }
                let ghost sep = if first {
                    Seq::<char>::empty()
                } else {
                    cfg.appendix_appendix_separator@
                };
                first = false;
                let mut line = String::from_str(name);
                line.append(" #");
                push_decimal(&mut line, (j + 1) as u64);
                assert(line@ =~= appendix_ref(name@, (j + 1) as nat));
                let ghost o1 = self.out@;
                self.write_line(self.config.appendix_header, line.as_str());
                self.write_item(self.config.appendix_body, texts[j].as_str());
                proof {
                    let rest = render_group(cfg, p, name@, apps[i as int].1, j + 1, false);
                    let here = line_text(p, cfg.appendix_header, appendix_ref(name@, (j + 1) as nat))
                        + item_text(p, cfg.appendix_body, apps[i as int].1[j as int]);
                    assert(render_group(cfg, p, name@, apps[i as int].1, j as int, first_at_group && j == 0)
                        == sep + here + rest);
                    assert(before + (sep + here + rest) =~= self.out@ + rest);
                }
                j = j + 1;
            }
            proof {
                assert(render_group(cfg, p, name@, apps[i as int].1, j as int, first) == Seq::<
                    char,
                >::empty());
                assert(render_groups(cfg, p, apps, i as int, first_at_group) == render_group(
                    cfg,
                    p,
                    apps[i as int].0,
                    apps[i as int].1,
                    0,
                    first_at_group,
                ) + render_groups(cfg, p, apps, i + 1, first_at_group && apps[i as int].1.len() == 0));
                assert(first == (first_at_group && apps[i as int].1.len() == 0));
                assert(out_group + render_groups(cfg, p, apps, i as int, first_at_group) =~= self.out@
                    + render_groups(cfg, p, apps, i + 1, first));
            }
            i = i + 1;
        }
        assert(render_groups(cfg, p, apps, i as int, first) == Seq::<char>::empty());
        self.out.append(self.config.appendices_footer);
        assert(self.out@ =~= old(self).out@ + render_appendices(cfg, p, apps));
    }
}

impl DefaultReportFormatter {
    /// Renders the reports `reports` with the function `f` in this layout.
    #[verifier::rlimit(40)]
    pub fn format_reports(&self, reports: &[Report], f: FormattingFunction) -> (res: String)
        ensures
            res@ == render_reports(*self, f, views(reports@)),
    {
        proof {
            crate::report::lemma_views(reports@);
        }
        let ghost rs = views(reports@);
        let mut st = Renderer {
            config: self,
            function: f,
            appendices: appendices_new(),
            line_prefix: String::from_str(self.report_line_prefix_always),
            out: String::from_str(self.report_header),
        };
        let ghost o0 = st.out@;
        let ghost g0 = st.groups();
        let mut i: usize = 0;
        while i < reports.len()
            invariant
                i <= reports@.len(),
                rs == views(reports@),
                rs.len() == reports@.len(),
                forall|j: int| 0 <= j < reports@.len() ==> #[trigger] reports@[j]@ == rs[j],
                *st.config == *self,
                st.function == f,
                st.line_prefix@ == self.report_line_prefix_always@,
                ({
                    let (o_all, g_all) = render_top(*self, f, g0, rs, 0);
                    let (o_rest, g_rest) = render_top(*self, f, st.groups(), rs, i as int);
                    &&& o0 + o_all == st.out@ + o_rest
                    &&& g_all == g_rest
                }),
            decreases reports@.len() - i,
        {
            let ghost g_before = st.groups();
            let ghost out_before = st.out@;
            if i != 0 {
                st.out.append(self.report_report_separator);
            }
            st.write_node(&reports[i], true, true);
            proof {
                let sep = if i == 0 {
                    Seq::<char>::empty()
                } else {
                    self.report_report_separator@
                };
                let (o1, a1) = render_node(
                    *self,
                    f,
                    self.report_line_prefix_always@,
                    g_before,
                    rs[i as int],
                    true,
                    true,
                );
                let (o2, a2) = render_top(*self, f, a1, rs, i + 1);
                assert(render_top(*self, f, g_before, rs, i as int) == (sep + o1 + o2, a2));
                assert(out_before + (sep + o1 + o2) =~= st.out@ + o2);
            }
            i = i + 1;
        }
        proof {
            let (o_rest, g_rest) = render_top(*self, f, st.groups(), rs, i as int);
            assert(o_rest == Seq::<char>::empty());
        }
        st.line_prefix = String::from_str(self.appendix_line_prefix_always);
        st.write_appendices();
        proof {
            let (body, apps) = render_top(*self, f, Seq::empty(), rs, 0);
            assert(st.out@ =~= self.report_header@ + body + render_appendices(
                *self,
                self.appendix_line_prefix_always@,
                apps,
            ));
        }
        st.out
    }

    /// Renders one report with the function `f` in this layout.
    pub fn format_report(&self, report: &Report, f: FormattingFunction) -> (res: String)
        ensures
            res@ == render_reports(*self, f, seq![report@]),
    {
        let reports = [report.clone_report()];
        let res = self.format_reports(&reports, f);
        proof {
            assert(reports@ =~= seq![reports@[0]]);
            assert(views(reports@) == seq![reports@[0]@] + views(reports@.drop_first()));
            assert(views(reports@) =~= seq![report@]);
        }
        res
    }
}


// ---------------------------------------------------------------------------
// Reports that render alike
// ---------------------------------------------------------------------------

/// Whether `p` renders like `r`: the same context texts, the same number of
/// attachments with the same texts and styles one by one, and children that
/// render alike one by one.
pub open spec fn renders_like(p: ReportView, r: ReportView) -> bool
    decreases r,
{
    &&& forall|f: FormattingFunction| #[trigger] context_text(p, f) == context_text(r, f)
    &&& p.attachments.len() == r.attachments.len()
    &&& forall|i: int, g: FormattingFunction|
        0 <= i < r.attachments.len() ==> #[trigger] attachment_text(p.attachments[i], g)
            == attachment_text(r.attachments[i], g) && style_of(p.attachments[i], g) == style_of(
            r.attachments[i],
            g,
        )
    &&& p.children.len() == r.children.len()
    &&& forall|i: int|
        0 <= i < r.children.len() ==> {
            proof {
                assert(decreases_to!(r => r.children));
                assert(decreases_to!(r.children => r.children[i]));
            }
            renders_like(#[trigger] p.children[i], r.children[i])
        }
}


/// Attachments with the same styles one by one are shown and counted alike.
proof fn lemma_shown_alike(pa: Seq<ReportAttachment>, ra: Seq<ReportAttachment>, f: FormattingFunction)
    requires
        pa.len() == ra.len(),
        forall|i: int| 0 <= i < ra.len() ==> #[trigger] style_of(pa[i], f) == style_of(ra[i], f),
    ensures
        shown_attachments(pa, f) == shown_attachments(ra, f),
        opaque_count(pa, f) == opaque_count(ra, f),
    decreases ra.len(),
{
    if ra.len() > 0 {
        let pd = pa.drop_last();
        let rd = ra.drop_last();
        assert forall|i: int| 0 <= i < rd.len() implies #[trigger] style_of(pd[i], f) == style_of(rd[i], f) by {
            assert(pd[i] == pa[i]);
            assert(rd[i] == ra[i]);
        }
        lemma_shown_alike(pd, rd, f);
        assert(style_of(pa.last(), f) == style_of(ra.last(), f)) by {
            assert(style_of(pa[pa.len() - 1], f) == style_of(ra[ra.len() - 1], f));
        }
    }
}

/// Attachments with the same texts and styles one by one render alike.
proof fn lemma_attachments_alike(
    cfg: DefaultReportFormatter,
    prefix: Seq<char>,
    apps: AppendixGroups,
    pa: Seq<ReportAttachment>,
    ra: Seq<ReportAttachment>,
    sorted: Seq<(AttachmentFormattingStyle, usize)>,
    k: int,
    has_children: bool,
)
    requires
        pa.len() == ra.len(),
        forall|i: int, g: FormattingFunction|
            0 <= i < ra.len() ==> #[trigger] attachment_text(pa[i], g) == attachment_text(ra[i], g),
        forall|j: int| 0 <= j < sorted.len() ==> (#[trigger] sorted[j]).1 < ra.len(),
    ensures
        render_attachments(cfg, prefix, apps, pa, sorted, k, has_children) == render_attachments(
            cfg,
            prefix,
            apps,
            ra,
            sorted,
            k,
            has_children,
        ),
    decreases sorted.len() - k,
{
    if 0 <= k < sorted.len() {
        let idx = sorted[k].1 as int;
        assert(attachment_text(pa[idx], sorted[k].0.function) == attachment_text(
            ra[idx],
            sorted[k].0.function,
        ));
        let (o1, a1) = render_attachment(
            cfg,
            prefix,
            apps,
            sorted[k].0,
            ra[idx],
            k + 1 == sorted.len() && !has_children,
        );
        assert(render_attachment(
            cfg,
            prefix,
            apps,
            sorted[k].0,
            pa[idx],
            k + 1 == sorted.len() && !has_children,
        ) == (o1, a1));
        lemma_attachments_alike(cfg, prefix, a1, pa, ra, sorted, k + 1, has_children);
    }
}

proof fn lemma_node_alike(
    cfg: DefaultReportFormatter,
    f: FormattingFunction,
    prefix: Seq<char>,
    apps: AppendixGroups,
    p: ReportView,
    r: ReportView,
    first: bool,
    last: bool,
)
    requires
        renders_like(p, r),
    ensures
        render_node(cfg, f, prefix, apps, p, first, last) == render_node(
            cfg,
            f,
            prefix,
            apps,
            r,
            first,
            last,
        ),
    decreases r, 1int,
{
    let nc = node_config(cfg, first, last);
    assert(context_text(p, f) == context_text(r, f));
    lemma_node_data_alike(cfg, f, prefix + nc.prefix_children@, apps, p, r);
}

proof fn lemma_node_data_alike(
    cfg: DefaultReportFormatter,
    f: FormattingFunction,
    prefix: Seq<char>,
    apps: AppendixGroups,
    p: ReportView,
    r: ReportView,
)
    requires
        renders_like(p, r),
    ensures
        render_node_data(cfg, f, prefix, apps, p) == render_node_data(cfg, f, prefix, apps, r),
    decreases r, 0int,
{
    assert forall|i: int| 0 <= i < r.attachments.len() implies #[trigger] style_of(
        p.attachments[i],
        f,
    ) == style_of(r.attachments[i], f) by {
        assert(attachment_text(p.attachments[i], f) == attachment_text(r.attachments[i], f));
    }
    lemma_shown_alike(p.attachments, r.attachments, f);
    let sorted = sort_by_priority(shown_attachments(r.attachments, f));
    assert forall|j: int| 0 <= j < sorted.len() implies (#[trigger] sorted[j]).1
        < r.attachments.len() by {
        lemma_sorted_indices(r.attachments, f, j);
    }
    let has_children = r.children.len() > 0;
    lemma_attachments_alike(
        cfg,
        prefix,
        apps,
        p.attachments,
        r.attachments,
        sorted,
        0,
        has_children,
    );
    let (atts_out, apps2) = render_attachments(
        cfg,
        prefix,
        apps,
        r.attachments,
        sorted,
        0,
        has_children,
    );
    assert(decreases_to!(r => r.children));
    lemma_children_alike(cfg, f, prefix, apps2, p.children, r.children, 0);
}

proof fn lemma_children_alike(
    cfg: DefaultReportFormatter,
    f: FormattingFunction,
    prefix: Seq<char>,
    apps: AppendixGroups,
    pcs: Seq<ReportView>,
    rcs: Seq<ReportView>,
    i: int,
)
    requires
        pcs.len() == rcs.len(),
        forall|j: int| 0 <= j < rcs.len() ==> renders_like(#[trigger] pcs[j], rcs[j]),
    ensures
        render_children(cfg, f, prefix, apps, pcs, i) == render_children(
            cfg,
            f,
            prefix,
            apps,
            rcs,
            i,
        ),
    decreases rcs, rcs.len() - i,
{
    if 0 <= i < rcs.len() {
        assert(renders_like(pcs[i], rcs[i]));
        assert(decreases_to!(rcs => rcs[i]));
        lemma_node_alike(cfg, f, prefix, apps, pcs[i], rcs[i], i == 0, i + 1 == rcs.len());
        let (o1, a1) = render_node(cfg, f, prefix, apps, rcs[i], i == 0, i + 1 == rcs.len());
        lemma_children_alike(cfg, f, prefix, a1, pcs, rcs, i + 1);
    }
}

/// Reports that render alike give the same text in every layout and with
/// either formatting function.
pub proof fn lemma_render_alike(
    cfg: DefaultReportFormatter,
    f: FormattingFunction,
    ps: Seq<ReportView>,
    rs: Seq<ReportView>,
)
    requires
        ps.len() == rs.len(),
        forall|j: int| 0 <= j < rs.len() ==> renders_like(#[trigger] ps[j], rs[j]),
    ensures
        render_reports(cfg, f, ps) == render_reports(cfg, f, rs),
{
    lemma_top_alike(cfg, f, Seq::empty(), ps, rs, 0);
}

proof fn lemma_top_alike(
    cfg: DefaultReportFormatter,
    f: FormattingFunction,
    apps: AppendixGroups,
    ps: Seq<ReportView>,
    rs: Seq<ReportView>,
    i: int,
)
    requires
        ps.len() == rs.len(),
        forall|j: int| 0 <= j < rs.len() ==> renders_like(#[trigger] ps[j], rs[j]),
    ensures
        render_top(cfg, f, apps, ps, i) == render_top(cfg, f, apps, rs, i),
    decreases rs.len() - i,
{
    if 0 <= i < rs.len() {
        assert(renders_like(ps[i], rs[i]));
        lemma_node_alike(cfg, f, cfg.report_line_prefix_always@, apps, ps[i], rs[i], true, true);
        let (o1, a1) = render_node(cfg, f, cfg.report_line_prefix_always@, apps, rs[i], true, true);
        lemma_top_alike(cfg, f, a1, ps, rs, i + 1);
    }
}


// ---------------------------------------------------------------------------
// The order of attachments
// ---------------------------------------------------------------------------

/// Whether `s` is ordered by descending priority, entries of equal priority
/// by ascending index.
pub open spec fn priority_ordered(s: Seq<(AttachmentFormattingStyle, usize)>) -> bool {
    forall|i: int, j: int|
        0 <= i < j < s.len() ==> {
            ||| s[i].0.priority > s[j].0.priority
            ||| (s[i].0.priority == s[j].0.priority && s[i].1 < s[j].1)
        }
}

proof fn lemma_insert_pos_split(s: Seq<(AttachmentFormattingStyle, usize)>, p: i32)
    requires
        priority_ordered(s),
    ensures
        insert_pos(s, p) <= s.len(),
        forall|k: int| 0 <= k < insert_pos(s, p) ==> s[k].0.priority >= p,
        forall|k: int| insert_pos(s, p) <= k < s.len() ==> s[k].0.priority < p,
    decreases s.len(),
{
    lemma_insert_pos_bound(s, p);
    if s.len() > 0 {
        let t = s.drop_first();
        assert(priority_ordered(t)) by {
            assert forall|i: int, j: int| 0 <= i < j < t.len() implies {
                ||| t[i].0.priority > t[j].0.priority
                ||| (t[i].0.priority == t[j].0.priority && t[i].1 < t[j].1)
            } by {
                assert(t[i] == s[i + 1] && t[j] == s[j + 1]);
            }
        }
        lemma_insert_pos_split(t, p);
        if s[0].0.priority < p {
            assert forall|k: int| 0 <= k < s.len() implies s[k].0.priority < p by {
                if k > 0 {
                    assert(s[0].0.priority >= s[k].0.priority);
                }
            }
        } else {
            assert forall|k: int| 0 <= k < insert_pos(s, p) implies s[k].0.priority >= p by {
                if k > 0 {
                    assert(s[k] == t[k - 1]);
                }
            }
            assert forall|k: int| insert_pos(s, p) <= k < s.len() implies s[k].0.priority < p by {
                assert(s[k] == t[k - 1]);
            }
        }
    }
}

/// Sorting by priority orders entries by descending priority and keeps
/// entries of equal priority in the order they came in.
pub proof fn lemma_sort_by_priority_ordered(s: Seq<(AttachmentFormattingStyle, usize)>)
    requires
        forall|i: int, j: int| 0 <= i < j < s.len() ==> s[i].1 < s[j].1,
    ensures
        sort_by_priority(s).len() == s.len(),
        priority_ordered(sort_by_priority(s)),
        forall|k: int| 0 <= k < s.len() ==> s.contains(#[trigger] sort_by_priority(s)[k]),
    decreases s.len(),
{
    lemma_sort_members(s);
    if s.len() > 0 {
        let rest = s.drop_last();
        let x = s.last();
        assert forall|i: int, j: int| 0 <= i < j < rest.len() implies rest[i].1 < rest[j].1 by {
            assert(rest[i] == s[i] && rest[j] == s[j]);
        }
        lemma_sort_by_priority_ordered(rest);
        let sorted = sort_by_priority(rest);
        let pos = insert_pos(sorted, x.0.priority) as int;
        lemma_insert_pos_split(sorted, x.0.priority);
        let res = sorted.insert(pos, x);
        assert forall|k: int| 0 <= k < sorted.len() implies (#[trigger] sorted[k]).1 < x.1 by {
            assert(rest.contains(sorted[k]));
            let w = choose|w: int| 0 <= w < rest.len() && rest[w] == sorted[k];
            assert(s[w] == rest[w]);
            assert(s[s.len() - 1] == x);
        }
        assert forall|i: int, j: int| 0 <= i < j < res.len() implies {
            ||| res[i].0.priority > res[j].0.priority
            ||| (res[i].0.priority == res[j].0.priority && res[i].1 < res[j].1)
        } by {
            if j < pos {
                assert(res[i] == sorted[i] && res[j] == sorted[j]);
            } else if j == pos {
                assert(res[i] == sorted[i]);
                assert(res[j] == x);
                assert(sorted[i].1 < x.1);
            } else if i < pos {
                assert(res[i] == sorted[i] && res[j] == sorted[j - 1]);
            } else if i == pos {
                assert(res[i] == x && res[j] == sorted[j - 1]);
            } else {
                assert(res[i] == sorted[i - 1] && res[j] == sorted[j - 1]);
            }
        }
    }
}

proof fn lemma_shown_indices_ascending(atts: Seq<ReportAttachment>, f: FormattingFunction)
    requires
        atts.len() <= usize::MAX,
    ensures
        forall|i: int, j: int|
            0 <= i < j < shown_attachments(atts, f).len() ==> shown_attachments(atts, f)[i].1
                < shown_attachments(atts, f)[j].1,
    decreases atts.len(),
{
    if atts.len() > 0 {
        let rest = shown_attachments(atts.drop_last(), f);
        lemma_shown_indices_ascending(atts.drop_last(), f);
        lemma_shown_indices(atts.drop_last(), f);
        let all = shown_attachments(atts, f);
        assert forall|i: int, j: int| 0 <= i < j < all.len() implies all[i].1 < all[j].1 by {
            assert(all[i] == rest[i]);
            if j < rest.len() {
                assert(all[j] == rest[j]);
            } else {
                assert(all[j].1 == atts.len() - 1);
                assert(rest[i].1 < atts.drop_last().len());
            }
        }
    }
}

/// The shown attachments of a report are rendered by descending priority,
/// and attachments of equal priority in the order they were attached.
pub proof fn lemma_attachment_order(atts: Seq<ReportAttachment>, f: FormattingFunction)
    requires
        atts.len() <= usize::MAX,
    ensures
        priority_ordered(sort_by_priority(shown_attachments(atts, f))),
        sort_by_priority(shown_attachments(atts, f)).len() == shown_attachments(atts, f).len(),
{
    lemma_shown_indices_ascending(atts, f);
    lemma_sort_by_priority_ordered(shown_attachments(atts, f));
}

proof fn lemma_sort_complete(s: Seq<(AttachmentFormattingStyle, usize)>)
    ensures
        forall|k: int| 0 <= k < s.len() ==> sort_by_priority(s).contains(#[trigger] s[k]),
    decreases s.len(),
{
    if s.len() > 0 {
        let rest = s.drop_last();
        lemma_sort_complete(rest);
        lemma_sort_members(rest);
        let sorted = sort_by_priority(rest);
        let pos = insert_pos(sorted, s.last().0.priority);
        lemma_insert_pos_bound(sorted, s.last().0.priority);
        let res = sorted.insert(pos as int, s.last());
        assert forall|k: int| 0 <= k < s.len() implies res.contains(#[trigger] s[k]) by {
            if k == s.len() - 1 {
                assert(res[pos as int] == s[k]);
            } else {
                assert(s[k] == rest[k]);
                assert(sorted.contains(rest[k]));
                let w = choose|w: int| 0 <= w < sorted.len() && sorted[w] == rest[k];
                if w < pos {
                    assert(res[w] == sorted[w]);
                } else {
                    assert(res[w + 1] == sorted[w]);
                }
            }
        }
    }
}

proof fn lemma_shown_members(atts: Seq<ReportAttachment>, f: FormattingFunction)
    requires
        atts.len() <= usize::MAX,
    ensures
        forall|k: int|
            0 <= k < shown_attachments(atts, f).len() ==> {
                let e = #[trigger] shown_attachments(atts, f)[k];
                &&& e.1 < atts.len()
                &&& e.0 == style_of(atts[e.1 as int], f)
                &&& is_shown(e.0)
            },
        forall|i: int|
            0 <= i < atts.len() && is_shown(style_of(#[trigger] atts[i], f)) ==> shown_attachments(
                atts,
                f,
            ).contains((style_of(atts[i], f), i as usize)),
    decreases atts.len(),
{
    if atts.len() > 0 {
        let prev = atts.drop_last();
        lemma_shown_members(prev, f);
        let rest = shown_attachments(prev, f);
        let sh = shown_attachments(atts, f);
        assert forall|k: int| 0 <= k < sh.len() implies {
            let e = #[trigger] sh[k];
            &&& e.1 < atts.len()
            &&& e.0 == style_of(atts[e.1 as int], f)
            &&& is_shown(e.0)
        } by {
            if k < rest.len() {
                assert(sh[k] == rest[k]);
                assert(atts[rest[k].1 as int] == prev[rest[k].1 as int]);
            }
        }
        assert forall|i: int| 0 <= i < atts.len() && is_shown(style_of(#[trigger] atts[i], f)) implies sh.contains(
            (style_of(atts[i], f), i as usize),
        ) by {
            if i < prev.len() {
                assert(atts[i] == prev[i]);
                assert(rest.contains((style_of(prev[i], f), i as usize)));
                let w = choose|w: int| 0 <= w < rest.len() && rest[w] == (style_of(prev[i], f), i as usize);
                assert(sh[w] == rest[w]);
            } else {
                assert(sh[sh.len() - 1] == (style_of(atts[i], f), i as usize));
            }
        }
    }
}

/// Which attachments a node renders, and in what order: the attachments are
/// rendered in the order of `sort_by_priority(shown_attachments(atts, f))`
/// (see `render_node_data`), which names each attachment whose preferred
/// placement is neither opaque nor hidden exactly once, with the style it
/// prefers, and no other; by descending priority, attachments of equal
/// priority in the order they were attached.
pub proof fn lemma_node_renders_shown_attachments(atts: Seq<ReportAttachment>, f: FormattingFunction)
    requires
        atts.len() <= usize::MAX,
    ensures
        ({
            let sorted = sort_by_priority(shown_attachments(atts, f));
            &&& priority_ordered(sorted)
            &&& forall|k: int|
                0 <= k < sorted.len() ==> {
                    let e = #[trigger] sorted[k];
                    &&& e.1 < atts.len()
                    &&& e.0 == style_of(atts[e.1 as int], f)
                    &&& is_shown(e.0)
                }
            &&& forall|i: int|
                0 <= i < atts.len() && is_shown(style_of(#[trigger] atts[i], f)) ==> exists|k: int|
                    0 <= k < sorted.len() && sorted[k].1 == i
            &&& forall|k1: int, k2: int|
                0 <= k1 < k2 < sorted.len() ==> #[trigger] sorted[k1].1 != #[trigger] sorted[k2].1
        }),
{
    let shown = shown_attachments(atts, f);
    let sorted = sort_by_priority(shown);
    lemma_attachment_order(atts, f);
    lemma_shown_indices_ascending(atts, f);
    lemma_sort_by_priority_ordered(shown);
    lemma_shown_members(atts, f);
    lemma_sort_complete(shown);
    assert forall|k: int| 0 <= k < sorted.len() implies {
        let e = #[trigger] sorted[k];
        &&& e.1 < atts.len()
        &&& e.0 == style_of(atts[e.1 as int], f)
        &&& is_shown(e.0)
    } by {
        assert(shown.contains(sorted[k]));
        let w = choose|w: int| 0 <= w < shown.len() && shown[w] == sorted[k];
        assert(shown[w] == sorted[k]);
    }
    assert forall|i: int| 0 <= i < atts.len() && is_shown(style_of(#[trigger] atts[i], f)) implies exists|k: int|
        0 <= k < sorted.len() && sorted[k].1 == i by {
        assert(shown.contains((style_of(atts[i], f), i as usize)));
        let w = choose|w: int| 0 <= w < shown.len() && shown[w] == (style_of(atts[i], f), i as usize);
        assert(sorted.contains(shown[w]));
        let k = choose|k: int| 0 <= k < sorted.len() && sorted[k] == shown[w];
        assert(sorted[k].1 == i);
    }
}

/// The opaque notice of a node counts exactly the attachments whose
/// preferred placement is opaque: `render_node_data` writes one notice line
/// with this count where it is not zero, and none where it is.
pub proof fn lemma_opaque_count_counts(atts: Seq<ReportAttachment>, f: FormattingFunction)
    ensures
        opaque_count(atts, f) == atts.filter(|a: ReportAttachment| is_opaque(style_of(a, f))).len(),
    decreases atts.len(),
{
    reveal(Seq::filter);
    if atts.len() > 0 {
        lemma_opaque_count_counts(atts.drop_last(), f);
    }
}

/// Between two children of a node stands the layout's child separator line:
/// the rendering of the children begins with the first child's rendering,
/// and the rendering of the children from any later one on begins with the
/// separator line, the line prefix followed by `child_child_separator`
/// where the layout has one.
pub proof fn lemma_children_separated(
    cfg: DefaultReportFormatter,
    f: FormattingFunction,
    prefix: Seq<char>,
    apps: AppendixGroups,
    cs: Seq<ReportView>,
)
    requires
        cs.len() >= 2,
    ensures
        ({
            let (o1, a1) = render_node(cfg, f, prefix, apps, cs[0], true, false);
            render_children(cfg, f, prefix, apps, cs, 0).0 == o1 + render_children(
                cfg,
                f,
                prefix,
                a1,
                cs,
                1,
            ).0
        }),
        forall|a: AppendixGroups, i: int|
            #![trigger render_children(cfg, f, prefix, a, cs, i)]
            1 <= i < cs.len() ==> match cfg.child_child_separator {
                Some(t) => render_children(cfg, f, prefix, a, cs, i).0.take((prefix + t@).len() as int)
                    == prefix + t@,
                None => true,
            },
{
    let (o1, a1) = render_node(cfg, f, prefix, apps, cs[0], true, false);
    assert(Seq::<char>::empty() + o1 =~= o1);
    assert forall|a: AppendixGroups, i: int|
        #![trigger render_children(cfg, f, prefix, a, cs, i)]
        1 <= i < cs.len() implies match cfg.child_child_separator {
        Some(t) => render_children(cfg, f, prefix, a, cs, i).0.take(
            (prefix + t@).len() as int,
        ) == prefix + t@,
        None => true,
    } by {
        let sep = opt_line(prefix, cfg.child_child_separator);
        let (p1, b1) = render_node(cfg, f, prefix, a, cs[i], i == 0, i + 1 == cs.len());
        let (p2, b2) = render_children(cfg, f, prefix, b1, cs, i + 1);
        assert(render_children(cfg, f, prefix, a, cs, i).0 == sep + p1 + p2);
        assert((sep + p1 + p2).take(sep.len() as int) =~= sep);
    }
}

} // verus!
