//! Formatting overrides: hooks registered for a type of context or
//! attachment that render values of that type in place of their handler.
//! The hooks themselves are code of the library's users; what is decided
//! here is which hook, if any, a value goes to, and how a hook describes
//! itself.

use vstd::prelude::*;
use vstd::string::StringExecFns;
use crate::handlers::{AttachmentHandlerKind, ContextHandlerKind};
use crate::hooks::builtin_hooks::location::{Location, location_text};
use crate::report::{Report, ReportAttachment};

verus! {

/// The report an attachment belongs to, and its place among the report's
/// attachments.
pub struct AttachmentParent<'a> {
    /// The report.
    pub report: &'a Report,
    /// The index of the attachment among the report's attachments.
    pub attachment_index: usize,
}

/// Which hook renders a value.
#[derive(Copy, Clone, Debug, PartialEq, Eq, Structural)]
pub enum HookChoice {
    /// The hook registered for the type of the value a preformatted value
    /// was made from, with the identifier of that type.
    Preformatted(u64),
    /// The hook registered for the type of the value itself.
    Direct(u64),
    /// No hook: the value's handler renders it.
    Unhooked,
}

/// Whether a hook is registered for the type `id`.
pub open spec fn registered(ids: Seq<u64>, id: u64) -> bool {
    ids.contains(id)
}

fn is_registered(ids: &[u64], id: u64) -> (res: bool)
    ensures
        res == registered(ids@, id),
{
    let mut i: usize = 0;
    while i < ids.len()
        invariant
            i <= ids@.len(),
            forall|j: int| 0 <= j < i ==> ids@[j] != id,
        decreases ids@.len() - i,
    {
        if ids[i] == id {
            assert(ids@[i as int] == id);
            return true;
        }
        i = i + 1;
    }
    false
}

/// The hook for an attachment rendered by `h` whose value has the type
/// `type_id`, with hooks registered for the types `ids`: a preformatted
/// attachment goes to the hook of the type it was made from if there is one, else
/// any attachment to the hook of its own type, else to none.
pub open spec fn attachment_hook_choice(h: AttachmentHandlerKind, type_id: u64, ids: Seq<u64>) -> HookChoice {
    match h {
        AttachmentHandlerKind::Preformatted { original_type_id, .. } if registered(ids, original_type_id) =>
            HookChoice::Preformatted(original_type_id),
        _ => if registered(ids, type_id) {
            HookChoice::Direct(type_id)
        } else {
            HookChoice::Unhooked
        },
    }
}

/// The hook for a context rendered by `h` whose value has the type
/// `type_id`, chosen as for attachments.
pub open spec fn context_hook_choice(h: ContextHandlerKind, type_id: u64, ids: Seq<u64>) -> HookChoice {
    match h {
        ContextHandlerKind::Preformatted { original_type_id, .. } if registered(ids, original_type_id) =>
            HookChoice::Preformatted(original_type_id),
        _ => if registered(ids, type_id) {
            HookChoice::Direct(type_id)
        } else {
            HookChoice::Unhooked
        },
    }
}

/// The hook that renders `attachment`, of those registered for the types `ids`.
pub fn choose_attachment_hook(attachment: &ReportAttachment, ids: &[u64]) -> (res: HookChoice)
    ensures
        res == attachment_hook_choice(attachment.handler, attachment.object.type_id, ids@),
{
    match attachment.handler {
        AttachmentHandlerKind::Preformatted { original_type_id, .. } => {
            if is_registered(ids, original_type_id) {
                return HookChoice::Preformatted(original_type_id);
            }
        },
        _ => {},
    }
    if is_registered(ids, attachment.object.type_id) {
        HookChoice::Direct(attachment.object.type_id)
    } else {
        HookChoice::Unhooked
    }
}

/// The hook that renders the context of `report`, of those registered for
/// the types `ids`.
pub fn choose_context_hook(report: &Report, ids: &[u64]) -> (res: HookChoice)
    ensures
        res == context_hook_choice(report.context_handler, report.context.type_id, ids@),
{
    match report.context_handler {
        ContextHandlerKind::Preformatted { original_type_id, .. } => {
            if is_registered(ids, original_type_id) {
                return HookChoice::Preformatted(original_type_id);
            }
        },
        _ => {},
    }
    if is_registered(ids, report.context.type_id) {
        HookChoice::Direct(report.context.type_id)
    } else {
        HookChoice::Unhooked
    }
}

/// A registered formatting hook as it describes itself: its type, the type
/// it renders, and where it was registered.
#[derive(Copy, Clone, Debug)]
pub struct HookDescription {
    /// The name of the hook's type.
    pub hook_type: &'static str,
    /// The name of the type whose values the hook renders.
    pub hooked_type: &'static str,
    /// Where the hook was registered.
    pub added_at: Location,
}

/// How a hook for attachments describes itself.
pub open spec fn attachment_hook_text(d: HookDescription) -> Seq<char> {
    "Attachment hook "@ + d.hook_type@ + " for attachment type "@ + d.hooked_type@
        + " registered at "@ + location_text(d.added_at)
}

/// How a hook for contexts describes itself.
pub open spec fn context_hook_text(d: HookDescription) -> Seq<char> {
    "Context hook "@ + d.hook_type@ + " for context type "@ + d.hooked_type@ + " registered at "@
        + location_text(d.added_at)
}

fn describe(d: &HookDescription, kind: &str, what: &str) -> (res: String)
    ensures
        res@ == kind@ + " hook "@ + d.hook_type@ + " for "@ + what@ + " type "@ + d.hooked_type@
            + " registered at "@ + location_text(d.added_at),
{
    let mut s = String::from_str(kind);
    s.append(" hook ");
    s.append(d.hook_type);
    s.append(" for ");
    s.append(what);
    s.append(" type ");
    s.append(d.hooked_type);
    s.append(" registered at ");
    s.append(d.added_at.to_text().as_str());
    s
}

/// The descriptions of the registered attachment hooks `hooks`, in order.
pub fn debug_attachment_hooks(hooks: &[HookDescription]) -> (res: Vec<String>)
    ensures
        res@.len() == hooks@.len(),
        forall|i: int| 0 <= i < hooks@.len() ==> (#[trigger] res@[i])@ == attachment_hook_text(hooks@[i]),
{
    let mut out: Vec<String> = Vec::new();
    let mut i: usize = 0;
    while i < hooks.len()
        invariant
            i <= hooks@.len(),
            out@.len() == i,
            forall|j: int| 0 <= j < i ==> (#[trigger] out@[j])@ == attachment_hook_text(hooks@[j]),
        decreases hooks@.len() - i,
    {
        let s = describe(&hooks[i], "Attachment", "attachment");
        proof {
            reveal_strlit("Attachment");
            reveal_strlit("attachment");
            reveal_strlit(" hook ");
            reveal_strlit(" for ");
            reveal_strlit(" type ");
            reveal_strlit("Attachment hook ");
            reveal_strlit(" for attachment type ");
            let d = hooks@[i as int];
            assert("Attachment"@ + " hook "@ =~= "Attachment hook "@);
            assert(" for "@ + "attachment"@ + " type "@ =~= " for attachment type "@);
            assert(s@ =~= attachment_hook_text(d));
        }
        out.push(s);
        i = i + 1;
    }
    out
}

/// The descriptions of the registered context hooks `hooks`, in order.
pub fn debug_context_hooks(hooks: &[HookDescription]) -> (res: Vec<String>)
    ensures
        res@.len() == hooks@.len(),
        forall|i: int| 0 <= i < hooks@.len() ==> (#[trigger] res@[i])@ == context_hook_text(hooks@[i]),
{
    let mut out: Vec<String> = Vec::new();
    let mut i: usize = 0;
    while i < hooks.len()
        invariant
            i <= hooks@.len(),
            out@.len() == i,
            forall|j: int| 0 <= j < i ==> (#[trigger] out@[j])@ == context_hook_text(hooks@[j]),
        decreases hooks@.len() - i,
    {
        let s = describe(&hooks[i], "Context", "context");
        proof {
            reveal_strlit("Context");
            reveal_strlit("context");
            reveal_strlit(" hook ");
            reveal_strlit(" for ");
            reveal_strlit(" type ");
            reveal_strlit("Context hook ");
            reveal_strlit(" for context type ");
            let d = hooks@[i as int];
            assert("Context"@ + " hook "@ =~= "Context hook "@);
            assert(" for "@ + "context"@ + " type "@ =~= " for context type "@);
            assert(s@ =~= context_hook_text(d));
        }
        out.push(s);
        i = i + 1;
    }
    out
}

/// Whether no two of the registered hooks `hooks` render the same type.
pub open spec fn distinct_types(hooks: Seq<(u64, HookDescription)>) -> bool {
    forall|i: int, j: int| 0 <= i < j < hooks.len() ==> #[trigger] hooks[i].0 != #[trigger] hooks[j].0
}

/// Formatting hooks registered by the type they render, each with its
/// description: at most one hook per type, in the order the types were
/// first registered.
pub struct HookRegistry {
    /// The identifier of each registered type, with its hook's description.
    pub hooks: Vec<(u64, HookDescription)>,
}

impl HookRegistry {
    /// Whether at most one hook is registered per type.
    pub open spec fn wf(&self) -> bool {
        distinct_types(self.hooks@)
    }

    /// No hook registered.
    pub fn new() -> (res: Self)
        ensures
            res.wf(),
            res.hooks@.len() == 0,
    {
        HookRegistry { hooks: Vec::new() }
    }

    /// Registers the hook described by `description` for the type `type_id`:
    /// it takes the place of a hook registered for that type before, or is
    /// added after the others.
    pub fn register(&mut self, type_id: u64, description: HookDescription)
        requires
            old(self).wf(),
        ensures
            final(self).wf(),
            match old(self).index_of(type_id) {
                Some(k) => final(self).hooks@ == old(self).hooks@.update(k, (type_id, description)),
                None => final(self).hooks@ == old(self).hooks@.push((type_id, description)),
            },
    {
        let mut i: usize = 0;
        while i < self.hooks.len()
            invariant
                i <= self.hooks@.len(),
                self.hooks@ == old(self).hooks@,
                distinct_types(old(self).hooks@),
                forall|j: int| 0 <= j < i ==> self.hooks@[j].0 != type_id,
            decreases self.hooks@.len() - i,
        {
            if self.hooks[i].0 == type_id {
                proof {
                    lemma_index_of_found(old(self).hooks@, type_id, i as int);
                }
                self.hooks.set(i, (type_id, description));
                proof {
                    lemma_register_keeps_one_per_type(
                        old(self).hooks@,
                        self.hooks@,
                        type_id,
                        description,
                    );
                }
                return;
            }
            i = i + 1;
        }
        proof {
            lemma_index_of_missing(old(self).hooks@, type_id);
        }
        self.hooks.push((type_id, description));
        proof {
            lemma_register_keeps_one_per_type(old(self).hooks@, self.hooks@, type_id, description);
        }
    }

    /// The place of the hook registered for `type_id`, if there is one.
    pub open spec fn index_of(&self, type_id: u64) -> Option<int> {
        index_of_type(self.hooks@, type_id)
    }

    /// The identifiers of the registered types, in order.
    pub fn type_ids(&self) -> (res: Vec<u64>)
        ensures
            res@ == self.hooks@.map_values(|e: (u64, HookDescription)| e.0),
    {
        let mut out: Vec<u64> = Vec::new();
        let mut i: usize = 0;
        while i < self.hooks.len()
            invariant
                i <= self.hooks@.len(),
                out@ == self.hooks@.take(i as int).map_values(|e: (u64, HookDescription)| e.0),
            decreases self.hooks@.len() - i,
        {
            out.push(self.hooks[i].0);
            i = i + 1;
            assert(out@ =~= self.hooks@.take(i as int).map_values(|e: (u64, HookDescription)| e.0));
        }
        assert(self.hooks@.take(i as int) =~= self.hooks@);
        out
    }

    /// The descriptions of the registered hooks, one per type, in order.
    pub fn descriptions(&self) -> (res: Vec<HookDescription>)
        ensures
            res@ == self.hooks@.map_values(|e: (u64, HookDescription)| e.1),
    {
        let mut out: Vec<HookDescription> = Vec::new();
        let mut i: usize = 0;
        while i < self.hooks.len()
            invariant
                i <= self.hooks@.len(),
                out@ == self.hooks@.take(i as int).map_values(|e: (u64, HookDescription)| e.1),
            decreases self.hooks@.len() - i,
        {
            out.push(self.hooks[i].1);
            i = i + 1;
            assert(out@ =~= self.hooks@.take(i as int).map_values(|e: (u64, HookDescription)| e.1));
        }
        assert(self.hooks@.take(i as int) =~= self.hooks@);
        out
    }
}

/// The place of the entry for `type_id` among `hooks`, if there is one.
pub open spec fn index_of_type(hooks: Seq<(u64, HookDescription)>, type_id: u64) -> Option<int> {
    if exists|k: int| 0 <= k < hooks.len() && hooks[k].0 == type_id {
        Some(choose|k: int| 0 <= k < hooks.len() && hooks[k].0 == type_id)
    } else {
        None
    }
}

proof fn lemma_index_of_found(hooks: Seq<(u64, HookDescription)>, type_id: u64, k: int)
    requires
        distinct_types(hooks),
        0 <= k < hooks.len(),
        hooks[k].0 == type_id,
    ensures
        index_of_type(hooks, type_id) == Some(k),
{
    let c = choose|c: int| 0 <= c < hooks.len() && hooks[c].0 == type_id;
    if c != k {
        if c < k {
            assert(hooks[c].0 != hooks[k].0);
        } else {
            assert(hooks[k].0 != hooks[c].0);
        }
    }
}

proof fn lemma_index_of_missing(hooks: Seq<(u64, HookDescription)>, type_id: u64)
    requires
        forall|j: int| 0 <= j < hooks.len() ==> hooks[j].0 != type_id,
    ensures
        index_of_type(hooks, type_id) is None,
{
}

/// Registering a hook for a type already registered replaces its hook and
/// keeps one entry per type; registering a new type adds one entry.
pub proof fn lemma_register_keeps_one_per_type(
    before: Seq<(u64, HookDescription)>,
    after: Seq<(u64, HookDescription)>,
    type_id: u64,
    description: HookDescription,
)
    requires
        distinct_types(before),
        match index_of_type(before, type_id) {
            Some(k) => after == before.update(k, (type_id, description)),
            None => after == before.push((type_id, description)),
        },
    ensures
        distinct_types(after),
        index_of_type(before, type_id) is Some ==> after.len() == before.len(),
        index_of_type(before, type_id) is None ==> after.len() == before.len() + 1,
        index_of_type(after, type_id) matches Some(k) && after[k].1 == description,
{
    match index_of_type(before, type_id) {
        Some(k) => {
            lemma_index_of_found(after, type_id, k);
        },
        None => {
            lemma_index_of_found(after, type_id, before.len() as int);
        },
    }
}

} // verus!
