//! The report tree: each node holds a context, its attachments and the
//! reports that caused it.

use vstd::prelude::*;
use crate::handlers::{
    self, AttachmentFormattingStyle, AttachmentHandler, AttachmentHandlerKind, ContextHandler,
    ContextHandlerKind, FormattingFunction,
};
use crate::object::Object;
use crate::hooks::Hooks;
use crate::hooks::builtin_hooks::location::Location;
use crate::hooks::report_creation::{creation_adds, run_creation_hooks_local, run_creation_hooks_sendsync};

verus! {

/// A piece of supporting data attached to a report, with the handler that
/// renders it.
#[derive(Debug)]
pub struct ReportAttachment {
    /// The attached value.
    pub object: Object,
    /// The handler that renders the value.
    pub handler: AttachmentHandlerKind,
}

impl Clone for ReportAttachment {
    fn clone(&self) -> (res: Self)
        ensures
            res == *self,
    {
        ReportAttachment { object: self.object.clone(), handler: self.handler }
    }
}

impl ReportAttachment {
    /// An attachment rendered by the handler `H`.
    pub fn new_custom<H: AttachmentHandler>(object: Object) -> (res: Self)
        ensures
            res.object == object,
            res.handler == H::spec_attachment_kind(),
    {
        ReportAttachment { object, handler: H::attachment_kind() }
    }

    /// An attachment rendered by the [`handlers::Display`] handler.
    pub fn new(object: Object) -> (res: Self)
        ensures
            res.object == object,
            res.handler == AttachmentHandlerKind::Display,
    {
        ReportAttachment { object, handler: AttachmentHandlerKind::Display }
    }

    /// The attached value.
    pub fn inner(&self) -> (res: &Object)
        ensures
            *res == self.object,
    {
        &self.object
    }

    /// The identifier of the attached value's type.
    pub fn inner_type_id(&self) -> (res: u64)
        ensures
            res == self.object.type_id,
    {
        self.object.type_id
    }

    /// The text of the attachment rendered with the function `f`.
    pub fn format_inner(&self, f: FormattingFunction) -> (res: String)
        ensures
            res@ == attachment_text(*self, f),
    {
        match f {
            FormattingFunction::Display => handlers::attachment_display(self.handler, &self.object),
            FormattingFunction::Debug => handlers::attachment_debug(self.handler, &self.object),
        }
    }

    /// The style the attachment prefers when its report is rendered with `f`.
    pub fn preferred_formatting_style(&self, f: FormattingFunction) -> (res:
        AttachmentFormattingStyle)
        ensures
            res == handlers::attachment_preferred_style(self.handler, f),
    {
        handlers::attachment_preferred_formatting_style(self.handler, f)
    }
}

/// The text of an attachment rendered with the function `f`.
pub open spec fn attachment_text(a: ReportAttachment, f: FormattingFunction) -> Seq<char> {
    match f {
        FormattingFunction::Display => handlers::attachment_display_text(a.handler, a.object),
        FormattingFunction::Debug => handlers::attachment_debug_text(a.handler, a.object),
    }
}

/// The attachments of a report, in the order they were added.
#[derive(Debug)]
pub struct ReportAttachments {
    /// The attachments.
    pub items: Vec<ReportAttachment>,
}

impl ReportAttachments {
    /// No attachments.
    pub fn new() -> (res: Self)
        ensures
            res.items@ == Seq::<ReportAttachment>::empty(),
    {
        ReportAttachments { items: Vec::new() }
    }

    /// Adds an attachment at the end.
    pub fn push(&mut self, attachment: ReportAttachment)
        ensures
            final(self).items@ == old(self).items@.push(attachment),
    {
        self.items.push(attachment);
    }

    /// Removes and returns the last attachment, if there is one.
    pub fn pop(&mut self) -> (res: Option<ReportAttachment>)
        ensures
            old(self).items@.len() == 0 ==> res is None && final(self).items@ == old(self).items@,
            old(self).items@.len() > 0 ==> res == Some(old(self).items@.last())
                && final(self).items@ == old(self).items@.drop_last(),
    {
        self.items.pop()
    }

    /// The number of attachments.
    pub fn len(&self) -> (res: usize)
        ensures
            res == self.items@.len(),
    {
        self.items.len()
    }

    /// Whether there are no attachments.
    pub fn is_empty(&self) -> (res: bool)
        ensures
            res == (self.items@.len() == 0),
    {
        self.items.len() == 0
    }

    /// The attachment at `index`, if there is one.
    pub fn get(&self, index: usize) -> (res: Option<&ReportAttachment>)
        ensures
            index < self.items@.len() ==> res == Some(&self.items@[index as int]),
            index >= self.items@.len() ==> res is None,
    {
        if index < self.items.len() {
            Some(&self.items[index])
        } else {
            None
        }
    }
}

impl Clone for ReportAttachments {
    fn clone(&self) -> (res: Self)
        ensures
            res.items@ == self.items@,
    {
        let mut items: Vec<ReportAttachment> = Vec::new();
        let mut i: usize = 0;
        while i < self.items.len()
            invariant
                i <= self.items@.len(),
                items@ == self.items@.take(i as int),
            decreases self.items@.len() - i,
        {
            items.push(self.items[i].clone());
            i = i + 1;
            assert(items@ =~= self.items@.take(i as int));
        }
        assert(items@ =~= self.items@);
        ReportAttachments { items }
    }
}

/// A node of the report tree: a context, the attachments that describe it,
/// and the reports that caused it.
#[derive(Debug)]
pub struct Report {
    /// The context: the error or message this node stands for.
    pub context: Object,
    /// The handler that renders the context.
    pub context_handler: ContextHandlerKind,
    /// The reports that caused this one.
    pub children: ReportCollection,
    /// The supporting data attached to this node.
    pub attachments: ReportAttachments,
}

/// An ordered collection of reports, such as the causes of one report.
#[derive(Debug)]
pub struct ReportCollection {
    /// The reports, in order.
    pub reports: Vec<Report>,
}

/// The mathematical value of a report tree.
#[verifier::ext_equal]
pub ghost struct ReportView {
    /// The context.
    pub context: Object,
    /// The handler of the context.
    pub context_handler: ContextHandlerKind,
    /// The attachments, in order.
    pub attachments: Seq<ReportAttachment>,
    /// The child reports, in order.
    pub children: Seq<ReportView>,
}

/// The values of a sequence of reports.
pub open spec fn views(rs: Seq<Report>) -> Seq<ReportView>
    decreases rs,
{
    if rs.len() == 0 {
        Seq::empty()
    } else {
        seq![rs[0]@] + views(rs.drop_first())
    }
}

/// The values of a sequence of reports are the reports' values, one by one.
pub proof fn lemma_views(rs: Seq<Report>)
    ensures
        views(rs).len() == rs.len(),
        forall|i: int| 0 <= i < rs.len() ==> #[trigger] views(rs)[i] == rs[i]@,
    decreases rs.len(),
{
    if rs.len() > 0 {
        assert(views(rs) == seq![rs[0]@] + views(rs.drop_first()));
        lemma_views(rs.drop_first());
        assert forall|i: int| 0 <= i < rs.len() implies #[trigger] views(rs)[i] == rs[i]@ by {
            if i > 0 {
                assert(views(rs)[i] == views(rs.drop_first())[i - 1]);
            }
        }
    }
}

impl View for Report {
    type V = ReportView;

    open spec fn view(&self) -> ReportView
        decreases self,
    {
        ReportView {
            context: self.context,
            context_handler: self.context_handler,
            attachments: self.attachments.items@,
            children: views(self.children.reports@),
        }
    }
}

impl View for ReportCollection {
    type V = Seq<ReportView>;

    open spec fn view(&self) -> Seq<ReportView> {
        views(self.reports@)
    }
}

impl Clone for Report {
    fn clone(&self) -> (res: Self)
        ensures
            res@ == self@,
    {
        self.clone_report()
    }
}

impl Clone for ReportCollection {
    fn clone(&self) -> (res: Self)
        ensures
            res@ == self@,
    {
        proof {
            lemma_views(self.reports@);
        }
        let mut out: Vec<Report> = Vec::new();
        let mut i: usize = 0;
        while i < self.reports.len()
            invariant
                i <= self.reports@.len(),
                out@.len() == i,
                forall|j: int| 0 <= j < i ==> #[trigger] out@[j]@ == self.reports@[j]@,
            decreases self.reports@.len() - i,
        {
            out.push(self.reports[i].clone_report());
            i = i + 1;
        }
        proof {
            lemma_views(out@);
            assert(views(out@) =~= views(self.reports@));
        }
        ReportCollection { reports: out }
    }
}

impl Report {
    /// A copy of the whole tree.
    pub fn clone_report(&self) -> (res: Report)
        ensures
            res@ == self@,
        decreases self,
    {
        proof {
            lemma_views(self.children.reports@);
        }
        let children = &self.children.reports;
        let mut out: Vec<Report> = Vec::new();
        let mut i: usize = 0;
        while i < children.len()
            invariant
                i <= children@.len(),
                children@ == self.children.reports@,
                out@.len() == i,
                forall|j: int| 0 <= j < i ==> #[trigger] out@[j]@ == children@[j]@,
            decreases children@.len() - i,
        {
            proof {
                assert(decreases_to!(self.children.reports => self.children.reports@));
                assert(decreases_to!(self.children.reports@ => self.children.reports@[i as int]));
                assert(decreases_to!(*self => self.children.reports@[i as int]));
            }
            let c = children[i].clone_report();
            out.push(c);
            i = i + 1;
        }
        let res = Report {
            context: self.context.clone(),
            context_handler: self.context_handler,
            children: ReportCollection { reports: out },
            attachments: self.attachments.clone(),
        };
        proof {
            lemma_views(out@);
            assert(views(out@) =~= views(self.children.reports@));
        }
        res
    }
}

/// The reports of a tree in depth-first pre-order: the root, then the
/// reports of each child's subtree in order.
pub open spec fn preorder(r: ReportView) -> Seq<ReportView>
    decreases r,
{
    seq![r] + preorder_all(r.children)
}

/// The pre-order sequences of the given reports, one after the other.
pub open spec fn preorder_all(rs: Seq<ReportView>) -> Seq<ReportView>
    decreases rs,
{
    if rs.len() == 0 {
        Seq::empty()
    } else {
        preorder(rs[0]) + preorder_all(rs.drop_first())
    }
}


/// The installed hooks, as a value.
pub open spec fn hooks_value(hooks: Option<&Hooks>) -> Option<Hooks> {
    match hooks {
        Some(h) => Some(*h),
        None => None,
    }
}

/// Whether `r` is the report made of `context`, rendered by `handler`, with
/// the children `children` and the attachments `attachments`, to which the
/// creation hooks `hooks` added what they add for a report created at `loc`.
pub open spec fn created(
    r: ReportView,
    context: Object,
    handler: ContextHandlerKind,
    children: Seq<ReportView>,
    attachments: Seq<ReportAttachment>,
    hooks: Option<Hooks>,
    loc: Location,
) -> bool {
    &&& r.context == context
    &&& r.context_handler == handler
    &&& r.children == children
    &&& attachments.len() <= r.attachments.len()
    &&& r.attachments.take(attachments.len() as int) == attachments
    &&& creation_adds(hooks, loc, children.len() > 0, r.attachments.skip(attachments.len() as int))
}

impl ReportCollection {
    /// No reports.
    pub fn new() -> (res: Self)
        ensures
            res@ == Seq::<ReportView>::empty(),
    {
        ReportCollection { reports: Vec::new() }
    }

    /// Adds `report` at the end.
    pub fn push(&mut self, report: Report)
        ensures
            final(self)@ == old(self)@.push(report@),
    {
        proof {
            lemma_views(self.reports@);
        }
        self.reports.push(report);
        proof {
            lemma_views(self.reports@);
            assert(self.reports@ == old(self).reports@.push(report));
            assert(views(self.reports@) =~= views(old(self).reports@).push(report@));
        }
    }

    /// Removes and returns the last report, if there is one.
    pub fn pop(&mut self) -> (res: Option<Report>)
        ensures
            old(self)@.len() == 0 ==> res is None && final(self)@ == old(self)@,
            old(self)@.len() > 0 ==> res is Some && res->0@ == old(self)@.last()
                && final(self)@ == old(self)@.drop_last(),
    {
        proof {
            lemma_views(self.reports@);
        }
        let res = self.reports.pop();
        proof {
            lemma_views(self.reports@);
            if old(self).reports@.len() > 0 {
                assert(views(self.reports@) =~= views(old(self).reports@).drop_last());
            }
        }
        res
    }

    /// The number of reports.
    pub fn len(&self) -> (res: usize)
        ensures
            res == self@.len(),
    {
        proof {
            lemma_views(self.reports@);
        }
        self.reports.len()
    }

    /// Whether there are no reports.
    pub fn is_empty(&self) -> (res: bool)
        ensures
            res == (self@.len() == 0),
    {
        proof {
            lemma_views(self.reports@);
        }
        self.reports.len() == 0
    }

    /// The report at `index`, if there is one.
    pub fn get(&self, index: usize) -> (res: Option<&Report>)
        ensures
            index < self@.len() ==> res is Some && res->0@ == self@[index as int],
            index >= self@.len() ==> res is None,
    {
        proof {
            lemma_views(self.reports@);
        }
        if index < self.reports.len() {
            Some(&self.reports[index])
        } else {
            None
        }
    }

    /// A new report with the context `context`, rendered by the handler `H`,
    /// whose children are these reports; created at `location` under the
    /// installed hooks `hooks`.
    pub fn context_custom<H: ContextHandler>(
        self,
        context: Object,
        hooks: Option<&Hooks>,
        location: Location,
    ) -> (res: Report)
        ensures
            created(
                res@,
                context,
                H::spec_context_kind(),
                self@,
                Seq::empty(),
                hooks_value(hooks),
                location,
            ),
    {
        Report::from_parts::<H>(context, self, ReportAttachments::new(), hooks, location)
    }

    /// A new report with the context `context`, rendered by the
    /// [`handlers::Display`] handler, whose children are these reports.
    pub fn context(self, context: Object, hooks: Option<&Hooks>, location: Location) -> (res: Report)
        ensures
            created(
                res@,
                context,
                ContextHandlerKind::Display,
                self@,
                Seq::empty(),
                hooks_value(hooks),
                location,
            ),
    {
        self.context_custom::<handlers::Display>(context, hooks, location)
    }
}

impl Report {
    /// The report made of `context`, rendered by the handler `H`, with the
    /// children `children` and the attachments `attachments`, created at
    /// `location`; the creation hooks `hooks` run on it.
    pub fn from_parts<H: ContextHandler>(
        context: Object,
        children: ReportCollection,
        attachments: ReportAttachments,
        hooks: Option<&Hooks>,
        location: Location,
    ) -> (res: Report)
        ensures
            created(
                res@,
                context,
                H::spec_context_kind(),
                children@,
                attachments.items@,
                hooks_value(hooks),
                location,
            ),
    {
        let mut report = Report { context, context_handler: H::context_kind(), children, attachments };
        proof {
            lemma_views(report.children.reports@);
        }
        run_creation_hooks_sendsync(&mut report, hooks, location);
        report
    }

    /// Like [`Report::from_parts`], for a report used in one thread.
    pub fn from_parts_local<H: ContextHandler>(
        context: Object,
        children: ReportCollection,
        attachments: ReportAttachments,
        hooks: Option<&Hooks>,
        location: Location,
    ) -> (res: Report)
        ensures
            created(
                res@,
                context,
                H::spec_context_kind(),
                children@,
                attachments.items@,
                hooks_value(hooks),
                location,
            ),
    {
        let mut report = Report { context, context_handler: H::context_kind(), children, attachments };
        proof {
            lemma_views(report.children.reports@);
        }
        run_creation_hooks_local(&mut report, hooks, location);
        report
    }

    /// A new report of the error `context`, rendered by the
    /// [`handlers::Error`] handler.
    pub fn new(context: Object, hooks: Option<&Hooks>, location: Location) -> (res: Report)
        ensures
            created(
                res@,
                context,
                ContextHandlerKind::Error,
                Seq::empty(),
                Seq::empty(),
                hooks_value(hooks),
                location,
            ),
    {
        Report::from_parts::<handlers::Error>(
            context,
            ReportCollection::new(),
            ReportAttachments::new(),
            hooks,
            location,
        )
    }

    /// A new report of `context`, rendered by the handler `H`.
    pub fn new_custom<H: ContextHandler>(context: Object, hooks: Option<&Hooks>, location: Location) -> (res: Report)
        ensures
            created(
                res@,
                context,
                H::spec_context_kind(),
                Seq::empty(),
                Seq::empty(),
                hooks_value(hooks),
                location,
            ),
    {
        Report::from_parts::<H>(
            context,
            ReportCollection::new(),
            ReportAttachments::new(),
            hooks,
            location,
        )
    }

    /// A new report with the context `context`, rendered by the handler `H`,
    /// whose only child is this report.
    pub fn context_custom<H: ContextHandler>(
        self,
        context: Object,
        hooks: Option<&Hooks>,
        location: Location,
    ) -> (res: Report)
        ensures
            created(
                res@,
                context,
                H::spec_context_kind(),
                seq![self@],
                Seq::empty(),
                hooks_value(hooks),
                location,
            ),
    {
        let ghost me = self@;
        let mut children = ReportCollection::new();
        children.push(self);
        assert(children@ =~= seq![me]);
        Report::from_parts::<H>(context, children, ReportAttachments::new(), hooks, location)
    }

    /// A new report with the context `context`, rendered by the
    /// [`handlers::Display`] handler, whose only child is this report.
    pub fn context(self, context: Object, hooks: Option<&Hooks>, location: Location) -> (res: Report)
        ensures
            created(
                res@,
                context,
                ContextHandlerKind::Display,
                seq![self@],
                Seq::empty(),
                hooks_value(hooks),
                location,
            ),
    {
        self.context_custom::<handlers::Display>(context, hooks, location)
    }

    /// This report with `attachment`, rendered by the handler `H`, added at
    /// the end of its attachments.
    pub fn attach_custom<H: AttachmentHandler>(self, attachment: Object) -> (res: Report)
        ensures
            res@ == (ReportView {
                attachments: self@.attachments.push(
                    ReportAttachment { object: attachment, handler: H::spec_attachment_kind() },
                ),
                ..self@
            }),
    {
        let mut r = self;
        r.attachments.push(ReportAttachment::new_custom::<H>(attachment));
        r
    }

    /// This report with `attachment`, rendered by the [`handlers::Display`]
    /// handler, added at the end of its attachments.
    pub fn attach(self, attachment: Object) -> (res: Report)
        ensures
            res@ == (ReportView {
                attachments: self@.attachments.push(
                    ReportAttachment { object: attachment, handler: AttachmentHandlerKind::Display },
                ),
                ..self@
            }),
    {
        self.attach_custom::<handlers::Display>(attachment)
    }

    /// The context of this report.
    pub fn current_context(&self) -> (res: &Object)
        ensures
            *res == self@.context,
    {
        &self.context
    }

    /// The identifier of the type of this report's context.
    pub fn current_context_type_id(&self) -> (res: u64)
        ensures
            res == self@.context.type_id,
    {
        self.context.type_id
    }

    /// The reports that caused this one.
    pub fn children(&self) -> (res: &ReportCollection)
        ensures
            res@ == self@.children,
    {
        &self.children
    }

    /// The attachments of this report.
    pub fn attachments(&self) -> (res: &ReportAttachments)
        ensures
            res.items@ == self@.attachments,
    {
        &self.attachments
    }

    /// The attachments of this report, to change.
    pub fn attachments_mut(&mut self) -> (res: &mut ReportAttachments)
        ensures
            *res == old(self).attachments,
            final(self).attachments == *final(res),
            final(self).context == old(self).context,
            final(self).context_handler == old(self).context_handler,
            final(self).children == old(self).children,
    {
        &mut self.attachments
    }
}



/// The reports still to come from an iteration whose stack is `stack`: the
/// pre-order of the report on top, then those of the reports below it.
pub open spec fn pending(stack: Seq<&Report>) -> Seq<ReportView>
    decreases stack.len(),
{
    if stack.len() == 0 {
        Seq::empty()
    } else {
        preorder(stack.last()@) + pending(stack.drop_last())
    }
}

/// Pushing the reports `cs` in reverse order puts their pre-orders, in
/// order, before what was pending.
proof fn lemma_pending_reversed(base: Seq<&Report>, rs: Seq<&Report>, cs: Seq<ReportView>)
    requires
        rs.len() == cs.len(),
        forall|i: int| 0 <= i < rs.len() ==> (#[trigger] rs[i])@ == cs[cs.len() - 1 - i],
    ensures
        pending(base + rs) == preorder_all(cs) + pending(base),
    decreases rs.len(),
{
    if rs.len() == 0 {
        assert(base + rs =~= base);
        assert(preorder_all(cs) == Seq::<ReportView>::empty());
        assert(Seq::<ReportView>::empty() + pending(base) =~= pending(base));
    } else {
        let r2 = rs.drop_last();
        let c2 = cs.drop_first();
        assert forall|i: int| 0 <= i < r2.len() implies (#[trigger] r2[i])@ == c2[c2.len() - 1 - i] by {
            assert(r2[i] == rs[i]);
        }
        lemma_pending_reversed(base, r2, c2);
        assert((base + rs).drop_last() =~= base + r2);
        assert((base + rs).last() == rs[rs.len() - 1]);
        assert(preorder_all(cs) == preorder(cs[0]) + preorder_all(c2));
        assert(pending(base + rs) =~= preorder_all(cs) + pending(base));
    }
}

/// An iteration over a report tree in depth-first pre-order: a report comes
/// before its children, and the subtree of a child before that of the next.
pub struct ReportIter<'a> {
    /// The reports whose subtrees are still to come, the next on top.
    pub stack: Vec<&'a Report>,
}

impl<'a> ReportIter<'a> {
    /// The reports still to come.
    pub open spec fn remaining(&self) -> Seq<ReportView> {
        pending(self.stack@)
    }

    /// The next report, if any is left.
    pub fn next(&mut self) -> (res: Option<&'a Report>)
        ensures
            match res {
                Some(r) => old(self).remaining() == seq![r@] + final(self).remaining(),
                None => old(self).remaining().len() == 0 && final(self).remaining().len() == 0,
            },
    {
        let ghost old_stack = self.stack@;
        let popped = self.stack.pop();
        match popped {
            None => None,
            Some(cur) => {
                let ghost base = self.stack@;
                proof {
                    lemma_views(cur.children.reports@);
                }
                let children = &cur.children.reports;
                let mut j: usize = children.len();
                while j > 0
                    invariant
                        j <= children@.len(),
                        base.len() <= self.stack@.len(),
                        self.stack@.take(base.len() as int) == base,
                        self.stack@.len() - base.len() == children@.len() - j,
                        forall|i: int|
                            0 <= i < self.stack@.len() - base.len() ==> (#[trigger] self.stack@[base.len() + i])
                                == children@[children@.len() - 1 - i],
                    decreases j,
                {
                    j = j - 1;
                    self.stack.push(&children[j]);
                }
                proof {
                    let rs = self.stack@.skip(base.len() as int);
                    assert(self.stack@ =~= base + rs);
                    let cs = views(children@);
                    assert forall|i: int| 0 <= i < rs.len() implies (#[trigger] rs[i])@ == cs[cs.len() - 1 - i] by {
                        assert(rs[i] == self.stack@[base.len() + i]);
                    }
                    lemma_pending_reversed(base, rs, cs);
                    assert(old_stack.drop_last() =~= base);
                    assert(cur@.children == cs);
                }
                Some(cur)
            },
        }
    }
}

impl Report {
    /// An iteration over this report's tree in depth-first pre-order.
    pub fn iter(&self) -> (res: ReportIter<'_>)
        ensures
            res.remaining() == preorder(self@),
    {
        let mut stack: Vec<&Report> = Vec::new();
        stack.push(self);
        let res = ReportIter { stack };
        proof {
            assert(res.stack@.drop_last() =~= Seq::<&Report>::empty());
            assert(res.stack@.last() == self);
            assert(pending(res.stack@.drop_last()) == Seq::<ReportView>::empty());
            assert(pending(res.stack@) == preorder(self@) + Seq::<ReportView>::empty());
            assert(preorder(self@) + Seq::<ReportView>::empty() =~= preorder(self@));
        }
        res
    }

    /// The reports of this report's tree in depth-first pre-order.
    pub fn iter_all(&self) -> (res: Vec<&Report>)
        ensures
            res@.len() == preorder(self@).len(),
            forall|i: int| 0 <= i < res@.len() ==> (#[trigger] res@[i])@ == preorder(self@)[i],
    {
        let mut it = self.iter();
        let mut out: Vec<&Report> = Vec::new();
        loop
            invariant
                out@.len() + it.remaining().len() == preorder(self@).len(),
                forall|i: int| 0 <= i < out@.len() ==> (#[trigger] out@[i])@ == preorder(self@)[i],
                forall|i: int| 0 <= i < it.remaining().len() ==> #[trigger] it.remaining()[i] == preorder(self@)[out@.len() + i],
            ensures
                out@.len() == preorder(self@).len(),
                forall|i: int| 0 <= i < out@.len() ==> (#[trigger] out@[i])@ == preorder(self@)[i],
            decreases it.remaining().len(),
        {
            let ghost before = it.remaining();
            match it.next() {
                Some(r) => {
                    proof {
                        assert(before[0] == r@);
                        assert forall|i: int| 0 <= i < it.remaining().len() implies #[trigger] it.remaining()[i] == preorder(self@)[out@.len() + 1 + i] by {
                            assert(it.remaining()[i] == before[i + 1]);
                        }
                    }
                    out.push(r);
                },
                None => {
                    break;
                },
            }
        }
        out
    }
}


/// A report made over a single child, as [`Report::context`] makes it, is
/// iterated as itself followed by the child's tree.
pub proof fn lemma_context_preorder(p: ReportView, r: ReportView)
    requires
        p.children == seq![r],
    ensures
        preorder(p) == seq![p] + preorder(r),
{
    assert(preorder_all(seq![r]) == preorder(r) + preorder_all(seq![r].drop_first()));
    assert(seq![r].drop_first() =~= Seq::<ReportView>::empty());
    assert(preorder(r) + Seq::<ReportView>::empty() =~= preorder(r));
}

/// Removing the last report of a collection after adding one gives back the
/// added report and the collection as it was.
pub proof fn lemma_pop_undoes_push(c: Seq<ReportView>, r: ReportView)
    ensures
        c.push(r).len() > 0,
        c.push(r).last() == r,
        c.push(r).drop_last() == c,
{
    assert(c.push(r).drop_last() =~= c);
}

} // verus!
