//! Preformatted reports: the texts of contexts and attachments computed once
//! and stored, so that the report keeps its look without the values it was made from.

use vstd::prelude::*;
use vstd::string::StringExecFns;
use crate::handlers::{
    self, AttachmentFormattingStyle, AttachmentHandlerKind, ContextFormattingStyle,
    ContextHandlerKind, FormattingFunction, attachment_debug_text, attachment_display_text,
    attachment_preferred_style, context_debug_text, context_display_text, context_preferred_function,
};
use crate::hooks::builtin_hooks::report_formatter::{
    DefaultReportFormatter, context_text, lemma_render_alike, render_reports, renders_like,
    style_of,
};
use crate::object::Object;
use crate::report::{
    Report, ReportAttachment, ReportAttachments, ReportCollection, ReportView, attachment_text,
    lemma_views,
};

verus! {

/// The identifier of the type [`PreformattedContext`] among context types.
pub const PREFORMATTED_CONTEXT_TYPE_ID: u64 = 0x51e0_94ab_c3d7_2f08;

/// The identifier of the type [`PreformattedAttachment`] among attachment types.
pub const PREFORMATTED_ATTACHMENT_TYPE_ID: u64 = 0x9a62_0f5d_1b8e_47c3;

/// The context of a report with its texts computed and stored.
pub struct PreformattedContext {
    /// The identifier of the type of the context it was made from.
    pub original_type_id: u64,
    /// The display text of the context.
    pub display: String,
    /// The debug text of the context.
    pub debug: String,
    /// The style preferred when the report is rendered for display.
    pub display_preferred_formatting_style: ContextFormattingStyle,
    /// The style preferred when the report is rendered for debugging.
    pub debug_preferred_formatting_style: ContextFormattingStyle,
}

/// An attachment with its texts computed and stored.
pub struct PreformattedAttachment {
    /// The identifier of the type of the value it was made from.
    pub original_type_id: u64,
    /// The display text of the attachment.
    pub display: String,
    /// The debug text of the attachment.
    pub debug: String,
    /// The style preferred when the report is rendered for display.
    pub display_preferred_formatting_style: AttachmentFormattingStyle,
    /// The style preferred when the report is rendered for debugging.
    pub debug_preferred_formatting_style: AttachmentFormattingStyle,
}

impl PreformattedContext {
    /// The context of `report` preformatted.
    pub fn new_from_context(report: &Report) -> (res: Self)
        ensures
            res.original_type_id == report@.context.type_id,
            res.display@ == context_display_text(report@.context_handler, report@.context),
            res.debug@ == context_debug_text(report@.context_handler, report@.context),
            res.display_preferred_formatting_style.function == context_preferred_function(
                report@.context_handler,
                FormattingFunction::Display,
            ),
            res.debug_preferred_formatting_style.function == context_preferred_function(
                report@.context_handler,
                FormattingFunction::Debug,
            ),
    {
        PreformattedContext {
            original_type_id: report.context.type_id,
            display: handlers::context_display(report.context_handler, &report.context),
            debug: handlers::context_debug(report.context_handler, &report.context),
            display_preferred_formatting_style: handlers::context_preferred_formatting_style(
                report.context_handler,
                FormattingFunction::Display,
            ),
            debug_preferred_formatting_style: handlers::context_preferred_formatting_style(
                report.context_handler,
                FormattingFunction::Debug,
            ),
        }
    }

    /// The identifier of the type of the context it was made from.
    pub fn original_type_id(&self) -> (res: u64)
        ensures
            res == self.original_type_id,
    {
        self.original_type_id
    }

    /// The preformatted context as a context value and its handler.
    pub fn into_context(self) -> (res: (Object, ContextHandlerKind))
        ensures
            is_preformatted_context(res.0, res.1, self),
    {
        let object = Object {
            type_id: PREFORMATTED_CONTEXT_TYPE_ID,
            type_label: String::from_str("rootcause::preformatted::PreformattedContext"),
            display: self.display,
            debug: self.debug,
        };
        proof {
            reveal_strlit("rootcause::preformatted::PreformattedContext");
        }
        let handler = ContextHandlerKind::Preformatted {
            original_type_id: self.original_type_id,
            display_function: self.display_preferred_formatting_style.function,
            debug_function: self.debug_preferred_formatting_style.function,
        };
        (object, handler)
    }
}

/// Whether `obj`, rendered by `h`, is the context value of `p`.
pub open spec fn is_preformatted_context(obj: Object, h: ContextHandlerKind, p: PreformattedContext) -> bool {
    &&& obj.type_id == PREFORMATTED_CONTEXT_TYPE_ID
    &&& obj.type_label@ == "rootcause::preformatted::PreformattedContext"@
    &&& obj.display == p.display
    &&& obj.debug == p.debug
    &&& h == (ContextHandlerKind::Preformatted {
        original_type_id: p.original_type_id,
        display_function: p.display_preferred_formatting_style.function,
        debug_function: p.debug_preferred_formatting_style.function,
    })
}

impl PreformattedAttachment {
    /// The attachment `attachment` preformatted.
    pub fn new_from_attachment(attachment: &ReportAttachment) -> (res: Self)
        ensures
            res.original_type_id == attachment.object.type_id,
            res.display@ == attachment_display_text(attachment.handler, attachment.object),
            res.debug@ == attachment_debug_text(attachment.handler, attachment.object),
            res.display_preferred_formatting_style == attachment_preferred_style(
                attachment.handler,
                FormattingFunction::Display,
            ),
            res.debug_preferred_formatting_style == attachment_preferred_style(
                attachment.handler,
                FormattingFunction::Debug,
            ),
    {
        PreformattedAttachment {
            original_type_id: attachment.object.type_id,
            display: handlers::attachment_display(attachment.handler, &attachment.object),
            debug: handlers::attachment_debug(attachment.handler, &attachment.object),
            display_preferred_formatting_style: handlers::attachment_preferred_formatting_style(
                attachment.handler,
                FormattingFunction::Display,
            ),
            debug_preferred_formatting_style: handlers::attachment_preferred_formatting_style(
                attachment.handler,
                FormattingFunction::Debug,
            ),
        }
    }

    /// The identifier of the type of the value it was made from.
    pub fn original_type_id(&self) -> (res: u64)
        ensures
            res == self.original_type_id,
    {
        self.original_type_id
    }

    /// The preformatted attachment as an attachment.
    pub fn into_attachment(self) -> (res: ReportAttachment)
        ensures
            is_preformatted_attachment(res, self),
    {
        let object = Object {
            type_id: PREFORMATTED_ATTACHMENT_TYPE_ID,
            type_label: String::from_str("rootcause::preformatted::PreformattedAttachment"),
            display: self.display,
            debug: self.debug,
        };
        proof {
            reveal_strlit("rootcause::preformatted::PreformattedAttachment");
        }
        ReportAttachment {
            object,
            handler: AttachmentHandlerKind::Preformatted {
                original_type_id: self.original_type_id,
                display_style: self.display_preferred_formatting_style,
                debug_style: self.debug_preferred_formatting_style,
            },
        }
    }
}

/// Whether `a` is the attachment of `p`.
pub open spec fn is_preformatted_attachment(a: ReportAttachment, p: PreformattedAttachment) -> bool {
    &&& a.object.type_id == PREFORMATTED_ATTACHMENT_TYPE_ID
    &&& a.object.type_label@ == "rootcause::preformatted::PreformattedAttachment"@
    &&& a.object.display == p.display
    &&& a.object.debug == p.debug
    &&& a.handler == (AttachmentHandlerKind::Preformatted {
        original_type_id: p.original_type_id,
        display_style: p.display_preferred_formatting_style,
        debug_style: p.debug_preferred_formatting_style,
    })
}

/// Whether `p` is the attachment `a` preformatted.
pub open spec fn preformats_attachment(p: ReportAttachment, a: ReportAttachment) -> bool {
    &&& p.object.type_id == PREFORMATTED_ATTACHMENT_TYPE_ID
    &&& p.object.type_label@ == "rootcause::preformatted::PreformattedAttachment"@
    &&& p.object.display@ == attachment_display_text(a.handler, a.object)
    &&& p.object.debug@ == attachment_debug_text(a.handler, a.object)
    &&& p.handler == (AttachmentHandlerKind::Preformatted {
        original_type_id: a.object.type_id,
        display_style: attachment_preferred_style(a.handler, FormattingFunction::Display),
        debug_style: attachment_preferred_style(a.handler, FormattingFunction::Debug),
    })
}

/// Whether `p` is the report `r` preformatted: its context and each of its
/// attachments preformatted, and each child preformatted in turn.
pub open spec fn preformats(p: ReportView, r: ReportView) -> bool
    decreases r,
{
    &&& p.context.type_id == PREFORMATTED_CONTEXT_TYPE_ID
    &&& p.context.type_label@ == "rootcause::preformatted::PreformattedContext"@
    &&& p.context.display@ == context_display_text(r.context_handler, r.context)
    &&& p.context.debug@ == context_debug_text(r.context_handler, r.context)
    &&& p.context_handler == (ContextHandlerKind::Preformatted {
        original_type_id: r.context.type_id,
        display_function: context_preferred_function(r.context_handler, FormattingFunction::Display),
        debug_function: context_preferred_function(r.context_handler, FormattingFunction::Debug),
    })
    &&& p.attachments.len() == r.attachments.len()
    &&& forall|i: int|
        0 <= i < r.attachments.len() ==> preformats_attachment(
            #[trigger] p.attachments[i],
            r.attachments[i],
        )
    &&& p.children.len() == r.children.len()
    &&& forall|i: int|
        0 <= i < r.children.len() ==> {
            proof {
                assert(decreases_to!(r => r.children));
                assert(decreases_to!(r.children => r.children[i]));
            }
            preformats(#[trigger] p.children[i], r.children[i])
        }
}

impl Report {
    /// A new report of the same shape whose contexts and attachments are all
    /// preformatted; it renders as this report does.
    pub fn preformat(&self) -> (res: Report)
        ensures
            preformats(res@, self@),
        decreases self,
    {
        proof {
            lemma_views(self.children.reports@);
        }
        let (context, context_handler) = PreformattedContext::new_from_context(self).into_context();
        let mut attachments = ReportAttachments::new();
        let mut i: usize = 0;
        while i < self.attachments.items.len()
            invariant
                i <= self.attachments.items@.len(),
                attachments.items@.len() == i,
                forall|j: int|
                    0 <= j < i ==> preformats_attachment(
                        #[trigger] attachments.items@[j],
                        self.attachments.items@[j],
                    ),
            decreases self.attachments.items@.len() - i,
        {
            let p = PreformattedAttachment::new_from_attachment(&self.attachments.items[i]);
            attachments.push(p.into_attachment());
            i = i + 1;
        }
        let children = &self.children.reports;
        let mut out: Vec<Report> = Vec::new();
        let mut k: usize = 0;
        while k < children.len()
            invariant
                k <= children@.len(),
                children@ == self.children.reports@,
                out@.len() == k,
                forall|j: int| 0 <= j < k ==> preformats(#[trigger] out@[j]@, children@[j]@),
            decreases children@.len() - k,
        {
            proof {
                assert(decreases_to!(self.children.reports => self.children.reports@));
                assert(decreases_to!(self.children.reports@ => self.children.reports@[k as int]));
                assert(decreases_to!(*self => self.children.reports@[k as int]));
            }
            let c = children[k].preformat();
            out.push(c);
            k = k + 1;
        }
        let res = Report {
            context,
            context_handler,
            children: ReportCollection { reports: out },
            attachments,
        };
        proof {
            lemma_views(out@);
            let rv = res@;
            assert forall|j: int| 0 <= j < self@.children.len() implies preformats(
                #[trigger] rv.children[j],
                self@.children[j],
            ) by {
                assert(rv.children[j] == out@[j]@);
                assert(self@.children[j] == children@[j]@);
            }
        }
        res
    }
}

/// A preformatted report renders like the report it was made from.
pub proof fn lemma_preformats_renders_like(p: ReportView, r: ReportView)
    requires
        preformats(p, r),
    ensures
        renders_like(p, r),
    decreases r,
{
    assert forall|f: FormattingFunction| #[trigger] context_text(p, f) == context_text(r, f) by {}
    assert forall|i: int, g: FormattingFunction|
        0 <= i < r.attachments.len() implies #[trigger] attachment_text(p.attachments[i], g)
        == attachment_text(r.attachments[i], g) && style_of(p.attachments[i], g) == style_of(
        r.attachments[i],
        g,
    ) by {
        assert(preformats_attachment(p.attachments[i], r.attachments[i]));
    }
    assert forall|i: int| 0 <= i < r.children.len() implies renders_like(
        #[trigger] p.children[i],
        r.children[i],
    ) by {
        assert(decreases_to!(r => r.children));
        assert(decreases_to!(r.children => r.children[i]));
        lemma_preformats_renders_like(p.children[i], r.children[i]);
    }
}

/// A preformatted report gives the same text as the report it was made
/// from, in every layout and with either formatting function.
pub proof fn lemma_preformat_keeps_rendering(
    cfg: DefaultReportFormatter,
    f: FormattingFunction,
    p: ReportView,
    r: ReportView,
)
    requires
        preformats(p, r),
    ensures
        render_reports(cfg, f, seq![p]) == render_reports(cfg, f, seq![r]),
{
    lemma_preformats_renders_like(p, r);
    lemma_render_alike(cfg, f, seq![p], seq![r]);
}

} // verus!
