//! Stack backtraces: the frames of the current call stack, with the frames
//! of uninteresting crates left out, rendered as an attachment.

use vstd::prelude::*;
use vstd::string::{StrSliceExecFns, StringExecFns};
use crate::handlers::{AttachmentFormattingPlacement, AttachmentFormattingStyle, AttachmentHandlerKind,
    FormattingFunction, default_attachment_style};
use crate::object::Object;
use crate::report::{Report, ReportAttachment};
use crate::hooks::builtin_hooks::location::Location;
use crate::hooks::report_creation::ReportCreationHook;
use crate::text::{
    after_last_colons, after_last_double_colon, decimal, push_decimal, starts_with, str_eq,
    str_eq_ignore_ascii_case, eq_ignore_ascii_case,
};

verus! {

/// A stack backtrace: the frames of the call stack where it was captured.
pub struct Backtrace {
    /// The entries, from the most recent call to the oldest.
    pub entries: Vec<BacktraceEntry>,
    /// The number of frames that were left out by filtering.
    pub total_omitted_frames: usize,
}

/// One entry of a backtrace.
pub enum BacktraceEntry {
    /// A frame that is shown.
    Frame(Frame),
    /// A run of frames of one crate that were left out.
    OmittedFrames {
        /// The number of frames left out.
        count: usize,
        /// The crate whose frames were left out.
        skipped_crate: &'static str,
    },
}

/// One frame of the call stack.
pub struct Frame {
    /// The demangled name of the frame's function.
    pub sym_demangled: String,
    /// Where the frame's source file lies, if known.
    pub frame_path: Option<FramePath>,
    /// The line in the source file, if known.
    pub lineno: Option<u32>,
}

/// The source file of a frame.
pub struct FramePath {
    /// The path as the debug information gives it.
    pub raw_path: String,
    /// The crate the file belongs to, where it can be told from the path.
    pub crate_name: Option<String>,
    /// The path split into a well-known prefix and the rest.
    pub split_path: Option<FramePrefix>,
}

/// A path split into a well-known prefix and the rest.
pub struct FramePrefix {
    /// Which prefix it is: `RUST_LIBRARY`, `CARGO` or `ROOTCAUSE`.
    pub prefix_kind: &'static str,
    /// The prefix.
    pub prefix: String,
    /// The rest of the path, after the separator that ends the prefix.
    pub suffix: String,
}

impl Clone for FramePrefix {
    fn clone(&self) -> (res: Self)
        ensures
            res == *self,
    {
        FramePrefix {
            prefix_kind: self.prefix_kind,
            prefix: self.prefix.clone(),
            suffix: self.suffix.clone(),
        }
    }
}

impl Clone for FramePath {
    fn clone(&self) -> (res: Self)
        ensures
            res == *self,
    {
        FramePath {
            raw_path: self.raw_path.clone(),
            crate_name: match &self.crate_name {
                Some(c) => Some(c.clone()),
                None => None,
            },
            split_path: match &self.split_path {
                Some(p) => Some(p.clone()),
                None => None,
            },
        }
    }
}

impl Clone for Frame {
    fn clone(&self) -> (res: Self)
        ensures
            res == *self,
    {
        Frame {
            sym_demangled: self.sym_demangled.clone(),
            frame_path: match &self.frame_path {
                Some(p) => Some(p.clone()),
                None => None,
            },
            lineno: self.lineno,
        }
    }
}

/// Which frames a backtrace leaves out.
#[derive(Copy, Clone, Debug)]
pub struct BacktraceFilter {
    /// Crates whose frames are left out at the start of the backtrace.
    pub skipped_initial_crates: &'static [&'static str],
    /// Crates whose frames are left out, a run at a time, in the middle.
    pub skipped_middle_crates: &'static [&'static str],
    /// Crates whose frames are left out at the end of the backtrace.
    pub skipped_final_crates: &'static [&'static str],
    /// The most entries a backtrace holds; every further frame is left out.
    pub max_entry_count: usize,
}

/// Whether `f` is the default filter: it leaves out the frames of
/// `backtrace`, `rootcause`, `core`, `std` and `alloc` at the start, runs of
/// `tokio` frames in the middle, the frames of `std`, `core`, `alloc` and
/// `tokio` at the end, and everything after 20 entries.
pub open spec fn is_default_filter(f: BacktraceFilter) -> bool {
    &&& f.skipped_initial_crates@.len() == 5
    &&& f.skipped_initial_crates@[0]@ == "backtrace"@
    &&& f.skipped_initial_crates@[1]@ == "rootcause"@
    &&& f.skipped_initial_crates@[2]@ == "core"@
    &&& f.skipped_initial_crates@[3]@ == "std"@
    &&& f.skipped_initial_crates@[4]@ == "alloc"@
    &&& f.skipped_middle_crates@.len() == 1
    &&& f.skipped_middle_crates@[0]@ == "tokio"@
    &&& f.skipped_final_crates@.len() == 4
    &&& f.skipped_final_crates@[0]@ == "std"@
    &&& f.skipped_final_crates@[1]@ == "core"@
    &&& f.skipped_final_crates@[2]@ == "alloc"@
    &&& f.skipped_final_crates@[3]@ == "tokio"@
    &&& f.max_entry_count == 20
}

impl Default for BacktraceFilter {
    fn default() -> (res: Self)
        ensures
            is_default_filter(res),
    {
        BacktraceFilter {
            skipped_initial_crates: &["backtrace", "rootcause", "core", "std", "alloc"],
            skipped_middle_crates: &["tokio"],
            skipped_final_crates: &["std", "core", "alloc", "tokio"],
            max_entry_count: 20,
        }
    }
}


// ---------------------------------------------------------------------------
// Filtering
// ---------------------------------------------------------------------------

/// Whether the crate `name` is in `list`.
pub open spec fn names_contain(list: Seq<&'static str>, name: Seq<char>) -> bool {
    exists|i: int| 0 <= i < list.len() && list[i]@ == name
}

/// The position of the first occurrence of `name` in `list`.
pub open spec fn first_name_index(list: Seq<&'static str>, name: Seq<char>) -> int
    decreases list.len(),
{
    if list.len() == 0 {
        0
    } else if list[0]@ == name {
        0
    } else {
        1 + first_name_index(list.drop_first(), name)
    }
}

proof fn lemma_first_name_index(list: Seq<&'static str>, name: Seq<char>, k: int)
    requires
        0 <= k < list.len(),
        list[k]@ == name,
        forall|j: int| 0 <= j < k ==> list[j]@ != name,
    ensures
        first_name_index(list, name) == k,
    decreases k,
{
    if k > 0 {
        let t = list.drop_first();
        assert forall|j: int| 0 <= j < k - 1 implies t[j]@ != name by {
            assert(t[j] == list[j + 1]);
        }
        lemma_first_name_index(t, name, k - 1);
    }
}

/// The first entry of `list` equal to `name`, if there is one.
pub fn find_name(list: &[&'static str], name: &str) -> (res: Option<&'static str>)
    ensures
        res is Some <==> names_contain(list@, name@),
        res matches Some(s) ==> s == list@[first_name_index(list@, name@)] && s@ == name@,
{
    let mut i: usize = 0;
    while i < list.len()
        invariant
            i <= list@.len(),
            forall|j: int| 0 <= j < i ==> list@[j]@ != name@,
        decreases list@.len() - i,
    {
        if str_eq(list[i], name) {
            proof {
                lemma_first_name_index(list@, name@, i as int);
            }
            return Some(list[i]);
        }
        i = i + 1;
    }
    None
}

/// Whether `name` is in `list`.
pub fn contains_name(list: &[&'static str], name: &str) -> (res: bool)
    ensures
        res == names_contain(list@, name@),
{
    find_name(list, name).is_some()
}

/// The crate a frame belongs to, where it is known.
pub open spec fn frame_crate(fr: Frame) -> Option<Seq<char>> {
    match fr.frame_path {
        Some(p) => match p.crate_name {
            Some(c) => Some(c@),
            None => None,
        },
        None => None,
    }
}

/// The state of the filter after some frames.
pub ghost struct FilterState {
    /// The entries so far.
    pub entries: Seq<BacktraceEntry>,
    /// The frames left out so far.
    pub total: nat,
    /// Whether the frames seen so far all belong to initially skipped crates.
    pub initial: bool,
    /// The crate of the current run of left-out frames, if one is open.
    pub omitted: Option<&'static str>,
    /// The length of the current run of left-out frames.
    pub omitted_count: nat,
}

/// The state of the filter before any frame.
pub open spec fn filter_start(flt: BacktraceFilter) -> FilterState {
    FilterState {
        entries: Seq::empty(),
        total: 0,
        initial: flt.skipped_initial_crates@.len() > 0,
        omitted: None,
        omitted_count: 0,
    }
}

/// The state of the filter after one more frame.
pub open spec fn filter_step(flt: BacktraceFilter, st: FilterState, fr: Frame) -> FilterState {
    let c = frame_crate(fr);
    if st.entries.len() >= flt.max_entry_count {
        FilterState { total: st.total + 1, ..st }
    } else if st.initial && c is Some && names_contain(flt.skipped_initial_crates@, c->0) {
        FilterState { total: st.total + 1, ..st }
    } else if c is Some && st.omitted is Some && (st.omitted->0)@ == c->0 {
        FilterState {
            initial: false,
            total: st.total + 1,
            omitted_count: st.omitted_count + 1,
            ..st
        }
    } else {
        let entries = match st.omitted {
            Some(name) => st.entries.push(
                BacktraceEntry::OmittedFrames { count: st.omitted_count as usize, skipped_crate: name },
            ),
            None => st.entries,
        };
        if c is Some && names_contain(flt.skipped_middle_crates@, c->0) {
            FilterState {
                entries,
                total: st.total + 1,
                initial: false,
                omitted: Some(
                    flt.skipped_middle_crates@[first_name_index(flt.skipped_middle_crates@, c->0)],
                ),
                omitted_count: 1,
            }
        } else if entries.len() < flt.max_entry_count {
            FilterState {
                entries: entries.push(BacktraceEntry::Frame(fr)),
                total: st.total,
                initial: false,
                omitted: None,
                omitted_count: 0,
            }
        } else {
            FilterState { entries, total: st.total + 1, initial: false, omitted: None, omitted_count: 0 }
        }
    }
}

/// The state of the filter after the frames `frames`.
pub open spec fn filter_run(flt: BacktraceFilter, frames: Seq<Frame>) -> FilterState
    decreases frames.len(),
{
    if frames.len() == 0 {
        filter_start(flt)
    } else {
        filter_step(flt, filter_run(flt, frames.drop_last()), frames.last())
    }
}

/// The entries with the open run of left-out frames, if any, closed, as long
/// as there is room for one more entry. The frames of the run are counted as
/// left out either way.
pub open spec fn filter_flush(flt: BacktraceFilter, st: FilterState) -> Seq<BacktraceEntry> {
    match st.omitted {
        Some(name) => if st.entries.len() < flt.max_entry_count {
            st.entries.push(
                BacktraceEntry::OmittedFrames { count: st.omitted_count as usize, skipped_crate: name },
            )
        } else {
            st.entries
        },
        None => st.entries,
    }
}

/// Whether the last entry belongs to a crate whose frames are left out at
/// the end.
pub open spec fn trailing_skipped(flt: BacktraceFilter, e: BacktraceEntry) -> bool {
    match e {
        BacktraceEntry::Frame(fr) => frame_crate(fr) is Some && names_contain(
            flt.skipped_final_crates@,
            frame_crate(fr)->0,
        ),
        BacktraceEntry::OmittedFrames { skipped_crate, .. } => names_contain(
            flt.skipped_final_crates@,
            skipped_crate@,
        ),
    }
}

/// The entries with the trailing entries of finally skipped crates removed,
/// and the number of left-out frames with the removed frames added. The
/// frames of a removed run were counted when the run was left out.
pub open spec fn filter_trim(flt: BacktraceFilter, es: Seq<BacktraceEntry>, total: nat) -> (
    Seq<BacktraceEntry>,
    nat,
)
    decreases es.len(),
{
    if es.len() == 0 || !trailing_skipped(flt, es.last()) {
        (es, total)
    } else {
        match es.last() {
            BacktraceEntry::Frame(_) => filter_trim(flt, es.drop_last(), total + 1),
            BacktraceEntry::OmittedFrames { .. } => filter_trim(flt, es.drop_last(), total),
        }
    }
}

/// The backtrace made of `frames` under `flt`: its entries and the number of
/// left-out frames, or `None` where nothing is left of it.
pub open spec fn filtered(flt: BacktraceFilter, frames: Seq<Frame>) -> Option<
    (Seq<BacktraceEntry>, nat),
> {
    let st = filter_run(flt, frames);
    let (es, total) = filter_trim(flt, filter_flush(flt, st), st.total);
    if es.len() == 0 && total == 0 {
        None
    } else {
        Some((es, total))
    }
}

/// The entries and the number of left-out frames of a backtrace.
pub open spec fn backtrace_view(b: Option<Backtrace>) -> Option<(Seq<BacktraceEntry>, nat)> {
    match b {
        Some(bt) => Some((bt.entries@, bt.total_omitted_frames as nat)),
        None => None,
    }
}

/// The number of frames shown among `es`.
pub open spec fn shown_frames(es: Seq<BacktraceEntry>) -> nat
    decreases es.len(),
{
    if es.len() == 0 {
        0
    } else {
        shown_frames(es.drop_last()) + if es.last() is Frame {
            1nat
        } else {
            0nat
        }
    }
}

proof fn lemma_run_counts(flt: BacktraceFilter, frames: Seq<Frame>)
    ensures
        filter_run(flt, frames).total + shown_frames(filter_run(flt, frames).entries)
            == frames.len(),
        filter_run(flt, frames).omitted is None ==> filter_run(flt, frames).omitted_count == 0,
        filter_run(flt, frames).omitted_count <= filter_run(flt, frames).total,
        filter_run(flt, frames).entries.len() <= flt.max_entry_count,
    decreases frames.len(),
{
    if frames.len() > 0 {
        lemma_run_counts(flt, frames.drop_last());
        let st = filter_run(flt, frames.drop_last());
        let es = st.entries;
        match st.omitted {
            Some(name) => {
                let e2 = es.push(
                    BacktraceEntry::OmittedFrames { count: st.omitted_count as usize, skipped_crate: name },
                );
                assert(e2.drop_last() =~= es);
                assert(shown_frames(e2) == shown_frames(es));
                let e3 = e2.push(BacktraceEntry::Frame(frames.last()));
                assert(e3.drop_last() =~= e2);
            },
            None => {
                let e3 = es.push(BacktraceEntry::Frame(frames.last()));
                assert(e3.drop_last() =~= es);
            },
        }
    }
}

proof fn lemma_trim_counts(flt: BacktraceFilter, es: Seq<BacktraceEntry>, total: nat)
    ensures
        filter_trim(flt, es, total).1 + shown_frames(filter_trim(flt, es, total).0) == total
            + shown_frames(es),
        filter_trim(flt, es, total).1 >= total,
        filter_trim(flt, es, total).0.len() <= es.len(),
    decreases es.len(),
{
    if es.len() > 0 && trailing_skipped(flt, es.last()) {
        match es.last() {
            BacktraceEntry::Frame(_) => lemma_trim_counts(flt, es.drop_last(), total + 1),
            BacktraceEntry::OmittedFrames { .. } => lemma_trim_counts(flt, es.drop_last(), total),
        }
    }
}

/// Every frame handed to the filter is either shown or counted as left out,
/// so nothing is left exactly when no frame was handed to it, and no
/// backtrace holds more entries than the filter allows.
pub proof fn lemma_filtered_counts(flt: BacktraceFilter, frames: Seq<Frame>)
    ensures
        filtered(flt, frames) is None <==> frames.len() == 0,
        match filtered(flt, frames) {
            Some((es, total)) => total + shown_frames(es) == frames.len() && es.len()
                <= flt.max_entry_count,
            None => true,
        },
{
    let st = filter_run(flt, frames);
    lemma_run_counts(flt, frames);
    let fl = filter_flush(flt, st);
    match st.omitted {
        Some(name) => {
            if st.entries.len() < flt.max_entry_count {
                assert(fl.drop_last() =~= st.entries);
            }
        },
        None => {},
    }
    assert(shown_frames(fl) == shown_frames(st.entries));
    lemma_trim_counts(flt, fl, st.total);
}

/// A filter that leaves no frame out: no crate is skipped anywhere.
pub open spec fn skips_no_crate(flt: BacktraceFilter) -> bool {
    &&& flt.skipped_initial_crates@.len() == 0
    &&& flt.skipped_middle_crates@.len() == 0
    &&& flt.skipped_final_crates@.len() == 0
}

/// The entries that show each of `frames`, in order.
pub open spec fn frame_entries_of(frames: Seq<Frame>) -> Seq<BacktraceEntry> {
    frames.map_values(|f: Frame| BacktraceEntry::Frame(f))
}

proof fn lemma_run_unfiltered(flt: BacktraceFilter, frames: Seq<Frame>)
    requires
        skips_no_crate(flt),
        frames.len() <= flt.max_entry_count,
    ensures
        filter_run(flt, frames) == (FilterState {
            entries: frame_entries_of(frames),
            total: 0,
            initial: false,
            omitted: None,
            omitted_count: 0,
        }),
    decreases frames.len(),
{
    if frames.len() == 0 {
        assert(frame_entries_of(frames) =~= Seq::<BacktraceEntry>::empty());
    } else {
        lemma_run_unfiltered(flt, frames.drop_last());
        assert(frame_entries_of(frames.drop_last()).push(BacktraceEntry::Frame(frames.last()))
            =~= frame_entries_of(frames));
    }
}

/// A filter that skips no crate and has room for every frame shows every
/// frame, in order, and leaves none out; it gives `None` only for no frames.
pub proof fn lemma_no_filter_keeps_every_frame(flt: BacktraceFilter, frames: Seq<Frame>)
    requires
        skips_no_crate(flt),
        frames.len() <= flt.max_entry_count,
    ensures
        filtered(flt, frames) == if frames.len() == 0 {
            None
        } else {
            Some((frame_entries_of(frames), 0nat))
        },
{
    lemma_run_unfiltered(flt, frames);
    let es = frame_entries_of(frames);
    if es.len() > 0 {
        assert(!trailing_skipped(flt, es.last()));
    }
}

proof fn lemma_run_after_kept_start(flt: BacktraceFilter, frames: Seq<Frame>)
    requires
        flt.skipped_middle_crates@.len() == 0,
        frames.len() <= flt.max_entry_count,
        frames.len() > 0,
        frame_crate(frames[0]) is None || !names_contain(
            flt.skipped_initial_crates@,
            frame_crate(frames[0])->0,
        ),
    ensures
        filter_run(flt, frames) == (FilterState {
            entries: frame_entries_of(frames),
            total: 0,
            initial: false,
            omitted: None,
            omitted_count: 0,
        }),
    decreases frames.len(),
{
    let prev = frames.drop_last();
    if prev.len() == 0 {
        assert(frames.last() == frames[0]);
        assert(frame_entries_of(frames) =~= seq![BacktraceEntry::Frame(frames[0])]);
    } else {
        assert(prev[0] == frames[0]);
        lemma_run_after_kept_start(flt, prev);
        assert(frame_entries_of(prev).push(BacktraceEntry::Frame(frames.last())) =~= frame_entries_of(
            frames,
        ));
    }
}

/// Crates are skipped as initial at the start of the trace only: once the
/// first frame is shown, every later frame is shown too, even one of an
/// initially skipped crate, where no crate is skipped in the middle or at the
/// end and there is room for every frame.
pub proof fn lemma_initial_skipping_stops_at_the_first_kept_frame(
    flt: BacktraceFilter,
    frames: Seq<Frame>,
)
    requires
        flt.skipped_middle_crates@.len() == 0,
        flt.skipped_final_crates@.len() == 0,
        frames.len() <= flt.max_entry_count,
        frames.len() > 0,
        frame_crate(frames[0]) is None || !names_contain(
            flt.skipped_initial_crates@,
            frame_crate(frames[0])->0,
        ),
    ensures
        filtered(flt, frames) == Some((frame_entries_of(frames), 0nat)),
{
    lemma_run_after_kept_start(flt, frames);
    let es = frame_entries_of(frames);
    assert(!trailing_skipped(flt, es.last()));
}

/// Frames of initially skipped crates at the start of the trace are left out
/// and counted: with a first frame of such a crate, a filter that skips
/// nothing else shows the remaining frames only if the second one is kept.
pub proof fn lemma_initial_frames_are_left_out(flt: BacktraceFilter, skipped: Frame, rest: Seq<Frame>)
    requires
        flt.skipped_middle_crates@.len() == 0,
        flt.skipped_final_crates@.len() == 0,
        rest.len() + 1 <= flt.max_entry_count,
        rest.len() > 0,
        frame_crate(skipped) is Some && names_contain(
            flt.skipped_initial_crates@,
            frame_crate(skipped)->0,
        ),
        frame_crate(rest[0]) is None || !names_contain(
            flt.skipped_initial_crates@,
            frame_crate(rest[0])->0,
        ),
    ensures
        filtered(flt, seq![skipped] + rest) == Some((frame_entries_of(rest), 1nat)),
{
    lemma_run_initial_then_kept(flt, skipped, rest);
    let es = frame_entries_of(rest);
    assert(!trailing_skipped(flt, es.last()));
}

proof fn lemma_run_initial_then_kept(flt: BacktraceFilter, skipped: Frame, rest: Seq<Frame>)
    requires
        flt.skipped_middle_crates@.len() == 0,
        rest.len() + 1 <= flt.max_entry_count,
        rest.len() > 0,
        frame_crate(skipped) is Some && names_contain(
            flt.skipped_initial_crates@,
            frame_crate(skipped)->0,
        ),
        frame_crate(rest[0]) is None || !names_contain(
            flt.skipped_initial_crates@,
            frame_crate(rest[0])->0,
        ),
    ensures
        filter_run(flt, seq![skipped] + rest) == (FilterState {
            entries: frame_entries_of(rest),
            total: 1,
            initial: false,
            omitted: None,
            omitted_count: 0,
        }),
    decreases rest.len(),
{
    let frames = seq![skipped] + rest;
    assert(frames.drop_last() =~= seq![skipped] + rest.drop_last());
    assert(frames.last() == rest.last());
    if rest.len() == 1 {
        let one = seq![skipped];
        assert(one.drop_last() =~= Seq::<Frame>::empty());
        assert(frames.drop_last() =~= one);
        assert(one.last() == skipped);
        assert(filter_run(flt, one.drop_last()) == filter_start(flt));
        assert(flt.skipped_initial_crates@.len() > 0);
        assert(filter_run(flt, one).initial);
        assert(filter_run(flt, one).entries =~= Seq::<BacktraceEntry>::empty());
        assert(frame_entries_of(rest) =~= seq![BacktraceEntry::Frame(rest[0])]);
    } else {
        assert(rest.drop_last()[0] == rest[0]);
        lemma_run_initial_then_kept(flt, skipped, rest.drop_last());
        assert(frame_entries_of(rest.drop_last()).push(BacktraceEntry::Frame(rest.last()))
            =~= frame_entries_of(rest));
    }
}

/// The frames shown among `es`, in order.
pub open spec fn shown_frame_seq(es: Seq<BacktraceEntry>) -> Seq<Frame>
    decreases es.len(),
{
    if es.len() == 0 {
        Seq::empty()
    } else {
        match es.last() {
            BacktraceEntry::Frame(f) => shown_frame_seq(es.drop_last()).push(f),
            BacktraceEntry::OmittedFrames { .. } => shown_frame_seq(es.drop_last()),
        }
    }
}

/// Whether `a` is `b` with some elements left out, the rest in order.
pub open spec fn is_subsequence(a: Seq<Frame>, b: Seq<Frame>) -> bool {
    exists|idx: Seq<int>|
        #![trigger idx.len()]
        {
            &&& idx.len() == a.len()
            &&& forall|i: int| 0 <= i < a.len() ==> 0 <= #[trigger] idx[i] < b.len() && b[idx[i]] == a[i]
            &&& forall|i: int, j: int| 0 <= i < j < a.len() ==> #[trigger] idx[i] < #[trigger] idx[j]
        }
}

/// Whether every run of left-out frames among `es` counts at least one
/// frame and names a crate that `flt` skips in the middle.
pub open spec fn runs_well_formed(flt: BacktraceFilter, es: Seq<BacktraceEntry>) -> bool {
    forall|i: int|
        0 <= i < es.len() ==> match #[trigger] es[i] {
            BacktraceEntry::OmittedFrames { count, skipped_crate } => count >= 1 && names_contain(
                flt.skipped_middle_crates@,
                skipped_crate@,
            ),
            BacktraceEntry::Frame(_) => true,
        }
}

proof fn lemma_first_name_index_found(list: Seq<&'static str>, name: Seq<char>)
    requires
        names_contain(list, name),
    ensures
        0 <= first_name_index(list, name) < list.len(),
        list[first_name_index(list, name)]@ == name,
    decreases list.len(),
{
    if list[0]@ != name {
        let k = choose|k: int| 0 <= k < list.len() && list[k]@ == name;
        let t = list.drop_first();
        assert(t[k - 1] == list[k]);
        lemma_first_name_index_found(t, name);
        assert(list[first_name_index(list, name)] == t[first_name_index(t, name)]);
    }
}

proof fn lemma_subsequence_extend(a: Seq<Frame>, b: Seq<Frame>, x: Frame, keep: bool)
    requires
        is_subsequence(a, b),
    ensures
        is_subsequence(if keep { a.push(x) } else { a }, b.push(x)),
{
    let idx = choose|idx: Seq<int>|
        #![trigger idx.len()]
        {
            &&& idx.len() == a.len()
            &&& forall|i: int| 0 <= i < a.len() ==> 0 <= #[trigger] idx[i] < b.len() && b[idx[i]] == a[i]
            &&& forall|i: int, j: int| 0 <= i < j < a.len() ==> #[trigger] idx[i] < #[trigger] idx[j]
        };
    let b2 = b.push(x);
    if keep {
        let a2 = a.push(x);
        let idx2 = idx.push(b.len() as int);
        assert forall|i: int| 0 <= i < a2.len() implies 0 <= #[trigger] idx2[i] < b2.len() && b2[idx2[i]]
            == a2[i] by {
            if i < a.len() {
                assert(idx2[i] == idx[i]);
            }
        }
        assert forall|i: int, j: int| 0 <= i < j < a2.len() implies #[trigger] idx2[i]
            < #[trigger] idx2[j] by {
            if j < a.len() {
                assert(idx2[i] == idx[i] && idx2[j] == idx[j]);
            } else {
                assert(idx2[i] == idx[i]);
                assert(0 <= idx[i] < b.len());
            }
        }
        assert(idx2.len() == a2.len());
    } else {
        assert forall|i: int| 0 <= i < a.len() implies 0 <= #[trigger] idx[i] < b2.len() && b2[idx[i]]
            == a[i] by {
            assert(0 <= idx[i] < b.len() && b[idx[i]] == a[i]);
        }
        assert(idx.len() == a.len());
    }
}

proof fn lemma_subsequence_prefix(a: Seq<Frame>, b: Seq<Frame>)
    requires
        is_subsequence(a, b),
        a.len() > 0,
    ensures
        is_subsequence(a.drop_last(), b),
{
    let idx = choose|idx: Seq<int>|
        #![trigger idx.len()]
        {
            &&& idx.len() == a.len()
            &&& forall|i: int| 0 <= i < a.len() ==> 0 <= #[trigger] idx[i] < b.len() && b[idx[i]] == a[i]
            &&& forall|i: int, j: int| 0 <= i < j < a.len() ==> #[trigger] idx[i] < #[trigger] idx[j]
        };
    let a2 = a.drop_last();
    let idx2 = idx.drop_last();
    assert forall|i: int| 0 <= i < a2.len() implies 0 <= #[trigger] idx2[i] < b.len() && b[idx2[i]]
        == a2[i] by {
        assert(idx2[i] == idx[i]);
        assert(0 <= idx[i] < b.len() && b[idx[i]] == a[i]);
    }
    assert forall|i: int, j: int| 0 <= i < j < a2.len() implies #[trigger] idx2[i] < #[trigger] idx2[j] by {
        assert(idx2[i] == idx[i] && idx2[j] == idx[j]);
    }
    assert(idx2.len() == a2.len());
}

proof fn lemma_run_shape(flt: BacktraceFilter, frames: Seq<Frame>)
    requires
        frames.len() <= usize::MAX,
    ensures
        runs_well_formed(flt, filter_run(flt, frames).entries),
        filter_run(flt, frames).omitted matches Some(name) ==> filter_run(flt, frames).omitted_count
            >= 1 && names_contain(flt.skipped_middle_crates@, name@),
        is_subsequence(shown_frame_seq(filter_run(flt, frames).entries), frames),
    decreases frames.len(),
{
    lemma_run_counts(flt, frames);
    if frames.len() == 0 {
        let idx = Seq::<int>::empty();
        assert(idx.len() == 0);
        assert(shown_frame_seq(filter_run(flt, frames).entries) =~= Seq::<Frame>::empty());
    } else {
        let prev = frames.drop_last();
        let fr = frames.last();
        lemma_run_shape(flt, prev);
        lemma_run_counts(flt, prev);
        assert(prev.push(fr) =~= frames);
        let st = filter_run(flt, prev);
        let c = frame_crate(fr);
        let st2 = filter_run(flt, frames);
        let es = st.entries;
        let entries = match st.omitted {
            Some(name) => es.push(
                BacktraceEntry::OmittedFrames { count: st.omitted_count as usize, skipped_crate: name },
            ),
            None => es,
        };
        // Closing the open run keeps the runs well formed and shows no frame.
        assert(runs_well_formed(flt, entries)) by {
            assert forall|i: int| 0 <= i < entries.len() implies match #[trigger] entries[i] {
                BacktraceEntry::OmittedFrames { count, skipped_crate } => count >= 1 && names_contain(
                    flt.skipped_middle_crates@,
                    skipped_crate@,
                ),
                BacktraceEntry::Frame(_) => true,
            } by {
                if i < es.len() {
                    assert(entries[i] == es[i]);
                }
            }
        }
        assert(shown_frame_seq(entries) == shown_frame_seq(es)) by {
            if st.omitted is Some {
                assert(entries.drop_last() =~= es);
            }
        }
        if c is Some && names_contain(flt.skipped_middle_crates@, c->0) {
            lemma_first_name_index_found(flt.skipped_middle_crates@, c->0);
        }
        let pushed = entries.push(BacktraceEntry::Frame(fr));
        assert(pushed.drop_last() =~= entries);
        assert(shown_frame_seq(pushed) == shown_frame_seq(entries).push(fr));
        assert(runs_well_formed(flt, pushed)) by {
            assert forall|i: int| 0 <= i < pushed.len() implies match #[trigger] pushed[i] {
                BacktraceEntry::OmittedFrames { count, skipped_crate } => count >= 1 && names_contain(
                    flt.skipped_middle_crates@,
                    skipped_crate@,
                ),
                BacktraceEntry::Frame(_) => true,
            } by {
                if i < entries.len() {
                    assert(pushed[i] == entries[i]);
                }
            }
        }
        let shown = shown_frame_seq(es);
        lemma_subsequence_extend(shown, prev, fr, false);
        lemma_subsequence_extend(shown, prev, fr, true);
        if st2.entries == pushed {
            assert(shown_frame_seq(st2.entries) == shown.push(fr));
        } else {
            assert(shown_frame_seq(st2.entries) == shown);
        }
    }
}

proof fn lemma_trim_shape(flt: BacktraceFilter, es: Seq<BacktraceEntry>, total: nat, frames: Seq<Frame>)
    requires
        runs_well_formed(flt, es),
        is_subsequence(shown_frame_seq(es), frames),
    ensures
        runs_well_formed(flt, filter_trim(flt, es, total).0),
        is_subsequence(shown_frame_seq(filter_trim(flt, es, total).0), frames),
        filter_trim(flt, es, total).0.len() > 0 ==> !trailing_skipped(
            flt,
            filter_trim(flt, es, total).0.last(),
        ),
    decreases es.len(),
{
    if es.len() > 0 && trailing_skipped(flt, es.last()) {
        let d = es.drop_last();
        assert(runs_well_formed(flt, d)) by {
            assert forall|i: int| 0 <= i < d.len() implies match #[trigger] d[i] {
                BacktraceEntry::OmittedFrames { count, skipped_crate } => count >= 1 && names_contain(
                    flt.skipped_middle_crates@,
                    skipped_crate@,
                ),
                BacktraceEntry::Frame(_) => true,
            } by {
                assert(d[i] == es[i]);
            }
        }
        match es.last() {
            BacktraceEntry::Frame(_) => {
                lemma_subsequence_prefix(shown_frame_seq(es), frames);
                assert(shown_frame_seq(es).drop_last() =~= shown_frame_seq(d));
                lemma_trim_shape(flt, d, total + 1, frames);
            },
            BacktraceEntry::OmittedFrames { .. } => {
                lemma_trim_shape(flt, d, total, frames);
            },
        }
    }
}

/// What a filtered backtrace looks like: every run of left-out frames counts
/// at least one frame and names a crate skipped in the middle, the last entry
/// belongs to no crate skipped at the end, and the frames shown are some of
/// the frames handed to the filter, in their order.
pub proof fn lemma_filtered_shape(flt: BacktraceFilter, frames: Seq<Frame>)
    requires
        frames.len() <= usize::MAX,
    ensures
        filtered(flt, frames) matches Some((es, _)) ==> {
            &&& runs_well_formed(flt, es)
            &&& es.len() > 0 ==> !trailing_skipped(flt, es.last())
            &&& is_subsequence(shown_frame_seq(es), frames)
        },
{
    let st = filter_run(flt, frames);
    lemma_run_shape(flt, frames);
    lemma_run_counts(flt, frames);
    let fl = filter_flush(flt, st);
    if st.omitted is Some && st.entries.len() < flt.max_entry_count {
        assert(fl.drop_last() =~= st.entries);
        assert(runs_well_formed(flt, fl)) by {
            assert forall|i: int| 0 <= i < fl.len() implies match #[trigger] fl[i] {
                BacktraceEntry::OmittedFrames { count, skipped_crate } => count >= 1 && names_contain(
                    flt.skipped_middle_crates@,
                    skipped_crate@,
                ),
                BacktraceEntry::Frame(_) => true,
            } by {
                if i < st.entries.len() {
                    assert(fl[i] == st.entries[i]);
                }
            }
        }
    }
    assert(shown_frame_seq(fl) == shown_frame_seq(st.entries));
    lemma_trim_shape(flt, fl, st.total, frames);
}

/// The crate of a frame, where it is known.
fn crate_of(fr: &Frame) -> (res: Option<&String>)
    ensures
        match res {
            Some(c) => frame_crate(*fr) == Some(c@),
            None => frame_crate(*fr) is None,
        },
{
    match &fr.frame_path {
        Some(p) => match &p.crate_name {
            Some(c) => Some(c),
            None => None,
        },
        None => None,
    }
}

impl Backtrace {
    /// The backtrace made of `frames`, most recent first, with the frames
    /// that `filter` leaves out removed, or `None` where nothing is left.
    pub fn from_frames(frames: &Vec<Frame>, filter: &BacktraceFilter) -> (res: Option<Backtrace>)
        ensures
            backtrace_view(res) == filtered(*filter, frames@),
    {
        let ghost flt = *filter;
        let mut initial = filter.skipped_initial_crates.len() > 0;
        let mut entries: Vec<BacktraceEntry> = Vec::new();
        let mut total: usize = 0;
        let mut omitted: Option<&'static str> = None;
        let mut omitted_count: usize = 0;
        let mut i: usize = 0;
        while i < frames.len()
            invariant
                i <= frames@.len(),
                flt == *filter,
                ({
                    let st = filter_run(flt, frames@.take(i as int));
                    &&& st.entries == entries@
                    &&& st.total == total
                    &&& st.initial == initial
                    &&& st.omitted == omitted
                    &&& st.omitted_count == omitted_count
                }),
                total <= i,
                entries@.len() <= filter.max_entry_count,
                omitted_count <= total,
                omitted is None ==> omitted_count == 0,
            decreases frames@.len() - i,
        {
            let ghost st0 = filter_run(flt, frames@.take(i as int));
            proof {
                assert(frames@.take(i + 1).drop_last() =~= frames@.take(i as int));
                assert(frames@.take(i + 1).last() == frames@[i as int]);
                assert(filter_run(flt, frames@.take(i + 1)) == filter_step(flt, st0, frames@[i as int]));
            }
            let fr = &frames[i];
            let c = crate_of(fr);
            let initially_skipped = initial && match c {
                Some(name) => contains_name(filter.skipped_initial_crates, name.as_str()),
                None => false,
            };
            let continues_run = match (c, omitted) {
                (Some(name), Some(o)) => str_eq(name.as_str(), o),
                _ => false,
            };
            if entries.len() >= filter.max_entry_count || initially_skipped {
                total = total + 1;
            } else if continues_run {
                initial = false;
                omitted_count = omitted_count + 1;
                total = total + 1;
            } else {
                initial = false;
                match omitted {
                    Some(o) => {
                        entries.push(
                            BacktraceEntry::OmittedFrames { count: omitted_count, skipped_crate: o },
                        );
                        omitted = None;
                        omitted_count = 0;
                    },
                    None => {},
                }
                let found = match c {
                    Some(name) => find_name(filter.skipped_middle_crates, name.as_str()),
                    None => None,
                };
                match found {
                    Some(skipped) => {
                        omitted = Some(skipped);
                        omitted_count = 1;
                        total = total + 1;
                    },
                    None => {
                        if entries.len() < filter.max_entry_count {
                            entries.push(BacktraceEntry::Frame(fr.clone()));
                        } else {
                            total = total + 1;
                        }
                    },
                }
            }
            i = i + 1;
        }
        proof {
            assert(frames@.take(i as int) =~= frames@);
        }
        let ghost st = filter_run(flt, frames@);
        match omitted {
            Some(o) => {
                if entries.len() < filter.max_entry_count {
                    entries.push(
                        BacktraceEntry::OmittedFrames { count: omitted_count, skipped_crate: o },
                    );
                }
            },
            None => {},
        }
        assert(entries@ == filter_flush(flt, st));
        let ghost trimmed = filter_trim(flt, filter_flush(flt, st), st.total);
        proof {
            lemma_filtered_counts(flt, frames@);
            lemma_trim_counts(flt, filter_flush(flt, st), st.total);
        }
        let nframes = frames.len();
        loop
            invariant
                flt == *filter,
                filter_trim(flt, entries@, total as nat) == trimmed,
                trimmed.1 <= nframes,
            ensures
                trimmed == (entries@, total as nat),
            decreases entries@.len(),
        {
            let n = entries.len();
            if n == 0 {
                break;
            }
            let drop = match &entries[n - 1] {
                BacktraceEntry::Frame(fr) => match crate_of(fr) {
                    Some(name) => contains_name(filter.skipped_final_crates, name.as_str()),
                    None => false,
                },
                BacktraceEntry::OmittedFrames { skipped_crate, .. } => contains_name(
                    filter.skipped_final_crates,
                    skipped_crate,
                ),
            };
            if !drop {
                break;
            }
            let ghost old_es = entries@;
            let last = entries.pop();
            proof {
                assert(entries@ == old_es.drop_last());
                assert(trailing_skipped(flt, old_es.last()));
            }
            match last {
                Some(BacktraceEntry::Frame(_)) => {
                    proof {
                        assert(filter_trim(flt, old_es, total as nat) == filter_trim(
                            flt,
                            entries@,
                            (total + 1) as nat,
                        ));
                        lemma_trim_counts(flt, entries@, (total + 1) as nat);
                    }
                    total = total + 1;
                },
                _ => {},
            }
        }
        if entries.len() == 0 && total == 0 {
            None
        } else {
            Some(Backtrace { entries, total_omitted_frames: total })
        }
    }
}


// ---------------------------------------------------------------------------
// Source paths
// ---------------------------------------------------------------------------

/// Matches a file of the standard library's sources; the group is the crate.
pub const STD_SRC_PATTERN: &'static str =
    r"(?:/lib/rustlib/src/rust|^/rustc/[0-9a-f]{40})/library/(std|core|alloc)/src/.*$";

/// Matches a file of a crate from a Cargo registry; the group is the crate.
pub const REGISTRY_PATTERN: &'static str =
    r"/\.cargo/registry/src/[^/]+-[0-9a-f]{16}/([^./]+)-[0-9]+\.[^/]*/src/.*$";

/// What the first match of the regular expression `pattern` in `haystack`
/// gives: the text before its first group and the text of that group, or
/// `None` where there is no match.
pub uninterp spec fn first_group(pattern: Seq<char>, haystack: Seq<char>) -> Option<(Seq<char>, Seq<char>)>;

/// The first match of `pattern` in `haystack`, as the text before its first
/// group and the text of that group. Compiles `pattern` with `Regex::new`
/// and searches with `Regex::captures`; the group is taken with
/// `Captures::get` and cut out of the haystack at its start, so the first
/// text is a prefix of the haystack and the group follows it there. Both
/// patterns compile, and their first group takes part in every match.
#[verifier::external_body]
fn regex_first_group(pattern: &str, haystack: &str) -> (res: Option<(String, String)>)
    requires
        pattern@ == STD_SRC_PATTERN@ || pattern@ == REGISTRY_PATTERN@,
    ensures
        match res {
            Some((before, group)) => {
                &&& first_group(pattern@, haystack@) == Some((before@, group@))
                &&& before@.len() + group@.len() <= haystack@.len()
                &&& haystack@.take(before@.len() as int) == before@
                &&& haystack@.subrange(before@.len() as int, (before@.len() + group@.len()) as int)
                    == group@
            },
            None => first_group(pattern@, haystack@) is None,
        },
{
    let captures = regex::Regex::new(pattern).unwrap().captures(haystack)?;
    let group = captures.get(1).unwrap();
    Some((haystack[..group.start()].to_string(), group.as_str().to_string()))
}

/// The suffix that the path of this source file ends with, for the path
/// separator `sep`.
pub open spec fn own_suffix(sep: char) -> Seq<char> {
    if sep == '/' {
        "/src/hooks/builtin_hooks/backtrace.rs"@
    } else {
        "/src\\hooks\\builtin_hooks\\backtrace.rs"@
    }
}

/// The length of `s` up to its last separator `sep`, or 0 if it holds none.
pub open spec fn up_to_last_sep(s: Seq<char>, sep: char) -> nat
    decreases s.len(),
{
    if s.len() == 0 {
        0
    } else if s.last() == sep {
        (s.len() - 1) as nat
    } else {
        up_to_last_sep(s.drop_last(), sep)
    }
}

/// What identifies files of this library, from the path `file` of this
/// source file: the prefix that the library's sources share, and the length
/// of the directory that holds the library.
pub open spec fn own_matcher(file: Seq<char>, sep: char) -> Option<(Seq<char>, nat)> {
    let suffix = own_suffix(sep);
    if file.len() < suffix.len() {
        None
    } else {
        let n = file.len() - suffix.len();
        if !eq_ignore_ascii_case(file.skip(n), suffix) {
            None
        } else {
            Some((file.take(n + 4), up_to_last_sep(file.take(n), sep)))
        }
    }
}

/// What identifies files of this library, from the path `file` of this
/// source file and the path separator `sep`.
pub fn get_rootcause_matcher(file: &str, sep: char) -> (res: Option<(String, usize)>)
    ensures
        match res {
            Some((prefix, len)) => own_matcher(file@, sep) == Some((prefix@, len as nat)),
            None => own_matcher(file@, sep) is None,
        },
{
    let suffix = if sep == '/' {
        "/src/hooks/builtin_hooks/backtrace.rs"
    } else {
        "/src\\hooks\\builtin_hooks\\backtrace.rs"
    };
    assert(suffix@ == own_suffix(sep));
    proof {
        reveal_strlit("/src/hooks/builtin_hooks/backtrace.rs");
        reveal_strlit("/src\\hooks\\builtin_hooks\\backtrace.rs");
    }
    let file_len = file.unicode_len();
    let suffix_len = suffix.unicode_len();
    if file_len < suffix_len {
        return None;
    }
    let n = file_len - suffix_len;
    if !str_eq_ignore_ascii_case(file.substring_char(n, file_len), suffix) {
        assert(file@.subrange(n as int, file_len as int) =~= file@.skip(n as int));
        return None;
    }
    assert(file@.subrange(n as int, file_len as int) =~= file@.skip(n as int));
    assert(suffix_len >= 4);
    assert(eq_ignore_ascii_case(file@.skip(n as int), own_suffix(sep)));
    assert(n == file@.len() - own_suffix(sep).len());
    assert(own_matcher(file@, sep) == Some((file@.take(n + 4), up_to_last_sep(file@.take(n as int), sep))));
    let matcher_prefix = file.substring_char(0, n + 4).to_owned();
    assert(matcher_prefix@ =~= file@.take(n + 4));
    let prefix = file.substring_char(0, n);
    assert(prefix@ =~= file@.take(n as int));
    assert(prefix@.take(n as int) =~= prefix@);
    let mut k: usize = n;
    while k > 0
        invariant
            k <= n,
            n <= file@.len(),
            prefix@ == file@.take(n as int),
            matcher_prefix@ == file@.take(n + 4),
            own_matcher(file@, sep) == Some((file@.take(n + 4), up_to_last_sep(file@.take(n as int), sep))),
            up_to_last_sep(file@.take(n as int), sep) == up_to_last_sep(prefix@.take(k as int), sep),
        decreases k,
    {
        assert(prefix@.take(k as int).drop_last() =~= prefix@.take(k as int - 1));
        assert(prefix@.take(k as int).last() == prefix@[k as int - 1]);
        if prefix.get_char(k - 1) == sep {
            assert(up_to_last_sep(prefix@.take(k as int), sep) == (k - 1) as nat);
            return Some((matcher_prefix, k - 1));
        }
        k = k - 1;
    }
    assert(prefix@.take(0) =~= Seq::<char>::empty());
    Some((matcher_prefix, 0))
}


/// `s` without its last character, if it has one: the text before a
/// separator that ends it.
pub open spec fn drop_sep(s: Seq<char>) -> Seq<char> {
    if s.len() > 0 {
        s.drop_last()
    } else {
        s
    }
}

/// The identifying prefix and directory length of the library's own files,
/// as plain values.
pub open spec fn matcher_view(m: Option<(String, usize)>) -> Option<(Seq<char>, nat)> {
    match m {
        Some((prefix, len)) => Some((prefix@, len as nat)),
        None => None,
    }
}

/// Whether `path` is a file of this library under the matcher `m`.
pub open spec fn in_library(path: Seq<char>, m: Option<(Seq<char>, nat)>) -> bool {
    &&& m is Some
    &&& (m->0).0.len() <= path.len()
    &&& path.take((m->0).0.len() as int) == (m->0).0
    &&& (m->0).1 + 1 <= path.len()
}

/// The crate of the file `path` and the path split into a well-known prefix
/// and the rest, as far as the path tells them.
pub open spec fn path_parts(path: Seq<char>, m: Option<(Seq<char>, nat)>) -> (
    Option<Seq<char>>,
    Option<(Seq<char>, Seq<char>, Seq<char>)>,
) {
    match first_group(STD_SRC_PATTERN@, path) {
        Some((before, group)) => (
            Some(group),
            Some(("RUST_LIBRARY"@, drop_sep(before), path.skip(before.len() as int))),
        ),
        None => match first_group(REGISTRY_PATTERN@, path) {
            Some((before, group)) => (
                Some(group),
                Some(("CARGO"@, drop_sep(before), path.skip(before.len() as int))),
            ),
            None => if in_library(path, m) {
                (
                    Some("rootcause"@),
                    Some(
                        (
                            "ROOTCAUSE"@,
                            path.take((m->0).1 as int),
                            path.skip((m->0).1 + 1 as int),
                        ),
                    ),
                )
            } else {
                (None, None)
            },
        },
    }
}

/// The crate and the split of a frame path, as plain values.
pub open spec fn frame_path_view(fp: FramePath) -> (
    Option<Seq<char>>,
    Option<(Seq<char>, Seq<char>, Seq<char>)>,
) {
    (
        match fp.crate_name {
            Some(c) => Some(c@),
            None => None,
        },
        match fp.split_path {
            Some(sp) => Some((sp.prefix_kind@, sp.prefix@, sp.suffix@)),
            None => None,
        },
    )
}

impl FramePath {
    /// The frame path of the file `path`, its crate and prefix told from the
    /// standard library's and Cargo's directory layouts, or, with `matcher`,
    /// as a file of this library.
    pub fn new(path: &str, matcher: &Option<(String, usize)>) -> (res: FramePath)
        ensures
            res.raw_path@ == path@,
            frame_path_view(res) == path_parts(path@, matcher_view(*matcher)),
    {
        let path_len = path.unicode_len();
        match regex_first_group(STD_SRC_PATTERN, path) {
            Some((before, group)) => {
                return Self::from_group(path, before, group, "RUST_LIBRARY");
            },
            None => {},
        }
        match regex_first_group(REGISTRY_PATTERN, path) {
            Some((before, group)) => {
                return Self::from_group(path, before, group, "CARGO");
            },
            None => {},
        }
        match matcher {
            Some((prefix, len)) => {
                if starts_with(path, prefix.as_str()) && *len < path_len {
                    let res = FramePath {
                        raw_path: path.to_owned(),
                        crate_name: Some("rootcause".to_owned()),
                        split_path: Some(
                            FramePrefix {
                                prefix_kind: "ROOTCAUSE",
                                prefix: path.substring_char(0, *len).to_owned(),
                                suffix: path.substring_char(*len + 1, path_len).to_owned(),
                            },
                        ),
                    };
                    assert(res.split_path->0.prefix@ =~= path@.take(*len as int));
                    assert(res.split_path->0.suffix@ =~= path@.skip(*len + 1));
                    return res;
                }
            },
            None => {},
        }
        FramePath { raw_path: path.to_owned(), crate_name: None, split_path: None }
    }

    /// The frame path of the file `path` once a pattern has matched it:
    /// `before` is the text before the match's group, which names the crate
    /// `group`. The prefix is `before` without its final separator, the suffix
    /// the rest of `path` from the group on, and `kind` names the prefix.
    pub fn from_group(path: &str, before: String, group: String, kind: &'static str) -> (res: FramePath)
        requires
            before@.len() <= path@.len(),
        ensures
            res.raw_path@ == path@,
            frame_path_view(res) == (
                Some(group@),
                Some((kind@, drop_sep(before@), path@.skip(before@.len() as int))),
            ),
    {
        let n = before.unicode_len();
        let prefix = if n > 0 {
            before.as_str().substring_char(0, n - 1).to_owned()
        } else {
            before
        };
        let suffix = path.substring_char(n, path.unicode_len()).to_owned();
        assert(suffix@ =~= path@.skip(n as int));
        assert(prefix@ =~= drop_sep(before@));
        FramePath {
            raw_path: path.to_owned(),
            crate_name: Some(group),
            split_path: Some(FramePrefix { prefix_kind: kind, prefix, suffix }),
        }
    }
}


// ---------------------------------------------------------------------------
// Rendering
// ---------------------------------------------------------------------------

/// Renders backtraces; with `SHOW_FULL_PATH` a frame's file is shown with its
/// full path, else with its well-known prefix cut off.
#[derive(Copy, Clone)]
pub struct BacktraceHandler<const SHOW_FULL_PATH: bool>;

/// Where a frame lies, as shown: its file and line.
pub open spec fn frame_place_text(fr: Frame, full: bool) -> Seq<char> {
    match fr.frame_path {
        Some(p) => (if full {
            p.raw_path@
        } else {
            match p.split_path {
                Some(sp) => "[..]/"@ + sp.suffix@,
                None => p.raw_path@,
            }
        }) + match fr.lineno {
            Some(l) => ":"@ + decimal(l as nat),
            None => Seq::empty(),
        },
        None => Seq::empty(),
    }
}

/// The line of one backtrace entry.
pub open spec fn entry_text(e: BacktraceEntry, full: bool) -> Seq<char> {
    match e {
        BacktraceEntry::OmittedFrames { count, skipped_crate } => "... omitted "@ + decimal(
            count as nat,
        ) + " frame(s) from crate '"@ + skipped_crate@ + "' ...\n"@,
        BacktraceEntry::Frame(fr) => frame_place_text(fr, full) + " - "@ + after_last_colons(
            fr.sym_demangled@,
        ) + "\n"@,
    }
}

/// The lines of the entries `es`.
pub open spec fn entries_text(es: Seq<BacktraceEntry>, full: bool) -> Seq<char>
    decreases es.len(),
{
    if es.len() == 0 {
        Seq::empty()
    } else {
        entries_text(es.drop_last(), full) + entry_text(es.last(), full)
    }
}

/// The text of a backtrace with the entries `es` and `total` left-out frames.
pub open spec fn backtrace_text(es: Seq<BacktraceEntry>, total: nat, full: bool) -> Seq<char> {
    entries_text(es, full) + if total > 0 {
        "note: "@ + decimal(total) + " frame(s) omitted. For a complete backtrace, set RUST_BACKTRACE=full.\n"@
    } else {
        Seq::empty()
    }
}

fn write_frame_place(out: &mut String, fr: &Frame, full: bool)
    ensures
        final(out)@ == old(out)@ + frame_place_text(*fr, full),
{
    match &fr.frame_path {
        Some(p) => {
            if full {
                out.append(p.raw_path.as_str());
            } else {
                match &p.split_path {
                    Some(sp) => {
                        out.append("[..]/");
                        out.append(sp.suffix.as_str());
                    },
                    None => {
                        out.append(p.raw_path.as_str());
                    },
                }
            }
            match fr.lineno {
                Some(l) => {
                    out.append(":");
                    push_decimal(out, l as u64);
                },
                None => {},
            }
        },
        None => {},
    }
    assert(final(out)@ =~= old(out)@ + frame_place_text(*fr, full));
}

fn write_entry(out: &mut String, e: &BacktraceEntry, full: bool)
    ensures
        final(out)@ == old(out)@ + entry_text(*e, full),
{
    match e {
        BacktraceEntry::OmittedFrames { count, skipped_crate } => {
            out.append("... omitted ");
            push_decimal(out, *count as u64);
            out.append(" frame(s) from crate '");
            out.append(skipped_crate);
            out.append("' ...\n");
        },
        BacktraceEntry::Frame(fr) => {
            write_frame_place(out, fr, full);
            let sym = after_last_double_colon(fr.sym_demangled.as_str());
            out.append(" - ");
            out.append(sym.as_str());
            out.append("\n");
        },
    }
    assert(final(out)@ =~= old(out)@ + entry_text(*e, full));
}

/// The text of the backtrace `bt`, with full paths where `full` holds.
pub fn backtrace_display(bt: &Backtrace, full: bool) -> (res: String)
    ensures
        res@ == backtrace_text(bt.entries@, bt.total_omitted_frames as nat, full),
{
    let mut out = String::new();
    let mut i: usize = 0;
    while i < bt.entries.len()
        invariant
            i <= bt.entries@.len(),
            out@ == entries_text(bt.entries@.take(i as int), full),
        decreases bt.entries@.len() - i,
    {
        assert(bt.entries@.take(i + 1).drop_last() =~= bt.entries@.take(i as int));
        write_entry(&mut out, &bt.entries[i], full);
        i = i + 1;
    }
    assert(bt.entries@.take(i as int) =~= bt.entries@);
    let ghost o1 = out@;
    if bt.total_omitted_frames > 0 {
        out.append("note: ");
        push_decimal(&mut out, bt.total_omitted_frames as u64);
        out.append(" frame(s) omitted. For a complete backtrace, set RUST_BACKTRACE=full.\n");
    }
    assert(out@ =~= backtrace_text(bt.entries@, bt.total_omitted_frames as nat, full));
    out
}

/// The style a backtrace prefers: under the header `Backtrace` where it has
/// entries, else hidden, with priority 10.
pub open spec fn backtrace_style(has_entries: bool) -> AttachmentFormattingStyle {
    AttachmentFormattingStyle {
        placement: if has_entries {
            AttachmentFormattingPlacement::InlineWithHeader { header: "Backtrace" }
        } else {
            AttachmentFormattingPlacement::Hidden
        },
        priority: 10,
        ..default_attachment_style()
    }
}

/// The identifier of the type [`Backtrace`] among the types of attached values.
pub const BACKTRACE_TYPE_ID: u64 = 0x7b1d_2c44_9e0a_5f31;

impl<const SHOW_FULL_PATH: bool> BacktraceHandler<SHOW_FULL_PATH> {
    /// The text of `value`.
    pub fn display(value: &Backtrace) -> (res: String)
        ensures
            res@ == backtrace_text(value.entries@, value.total_omitted_frames as nat, SHOW_FULL_PATH),
    {
        backtrace_display(value, SHOW_FULL_PATH)
    }

    /// The debug text of `value`, which is its text.
    pub fn debug(value: &Backtrace) -> (res: String)
        ensures
            res@ == backtrace_text(value.entries@, value.total_omitted_frames as nat, SHOW_FULL_PATH),
    {
        backtrace_display(value, SHOW_FULL_PATH)
    }

    /// The style `value` prefers.
    pub fn preferred_formatting_style(value: &Backtrace, _function: FormattingFunction) -> (res:
        AttachmentFormattingStyle)
        ensures
            res == backtrace_style(value.entries@.len() > 0),
    {
        AttachmentFormattingStyle {
            placement: if value.entries.len() == 0 {
                AttachmentFormattingPlacement::Hidden
            } else {
                AttachmentFormattingPlacement::InlineWithHeader { header: "Backtrace" }
            },
            priority: 10,
            function: FormattingFunction::Display,
        }
    }

    /// `value` as an attachment rendered by this handler.
    pub fn attachment(value: Backtrace) -> (res: ReportAttachment)
        ensures
            res.object.type_id == BACKTRACE_TYPE_ID,
            res.object.display@ == backtrace_text(
                value.entries@,
                value.total_omitted_frames as nat,
                SHOW_FULL_PATH,
            ),
            res.object.debug@ == res.object.display@,
            res.handler == (AttachmentHandlerKind::Backtrace { has_entries: value.entries@.len() > 0 }),
    {
        let text = backtrace_display(&value, SHOW_FULL_PATH);
        let object = Object {
            type_id: BACKTRACE_TYPE_ID,
            type_label: "rootcause::hooks::builtin_hooks::backtrace::Backtrace".to_owned(),
            display: text.clone(),
            debug: text,
        };
        ReportAttachment {
            object,
            handler: AttachmentHandlerKind::Backtrace { has_entries: value.entries.len() > 0 },
        }
    }
}


// ---------------------------------------------------------------------------
// Capturing
// ---------------------------------------------------------------------------

/// One symbol of the call stack as the debug information describes it.
pub struct RawSymbol {
    /// The demangled name of its function, if known.
    pub name: Option<String>,
    /// The path of its source file, if known.
    pub filename: Option<String>,
    /// Its line in the source file, if known.
    pub lineno: Option<u32>,
}

/// The symbols of the current call stack, most recent first. Calls
/// `backtrace::Backtrace::new`, which captures the stack and resolves its
/// frames, and lists the symbols of each frame in order. What comes back
/// depends on the program and the machine, so nothing is stated of it.
#[verifier::external_body]
fn capture_symbols() -> Vec<RawSymbol> {
    let backtrace = backtrace::Backtrace::new();
    backtrace.frames().iter().flat_map(|frame| frame.symbols()).map(
        |symbol| RawSymbol {
            name: symbol.name().map(|name| format!("{name:#}")),
            filename: symbol.filename().map(|path| path.display().to_string()),
            lineno: symbol.lineno(),
        },
    ).collect()
}

/// Whether a symbol can stand as a frame: it has a name and a file.
pub open spec fn usable(sym: RawSymbol) -> bool {
    sym.name is Some && sym.filename is Some
}

/// The symbols of `syms` that can stand as frames, in order.
pub open spec fn usable_symbols(syms: Seq<RawSymbol>) -> Seq<RawSymbol>
    decreases syms.len(),
{
    if syms.len() == 0 {
        Seq::empty()
    } else if usable(syms.last()) {
        usable_symbols(syms.drop_last()).push(syms.last())
    } else {
        usable_symbols(syms.drop_last())
    }
}

/// Whether `fr` is the frame of the symbol `sym` under the matcher `m`.
pub open spec fn frame_of(fr: Frame, sym: RawSymbol, m: Option<(Seq<char>, nat)>) -> bool {
    &&& fr.sym_demangled@ == (sym.name->0)@
    &&& fr.lineno == sym.lineno
    &&& fr.frame_path is Some
    &&& (fr.frame_path->0).raw_path@ == (sym.filename->0)@
    &&& frame_path_view(fr.frame_path->0) == path_parts((sym.filename->0)@, m)
}

/// Whether `frames` are the frames of the usable symbols of `syms`.
pub open spec fn frames_of(frames: Seq<Frame>, syms: Seq<RawSymbol>, m: Option<(Seq<char>, nat)>) -> bool {
    let kept = usable_symbols(syms);
    &&& frames.len() == kept.len()
    &&& forall|i: int| 0 <= i < frames.len() ==> frame_of(#[trigger] frames[i], kept[i], m)
}

/// The frames of the symbols `syms` that have a name and a file, in order.
pub fn frames_from_symbols(syms: &Vec<RawSymbol>, matcher: &Option<(String, usize)>) -> (res: Vec<Frame>)
    ensures
        frames_of(res@, syms@, matcher_view(*matcher)),
{
    let ghost m = matcher_view(*matcher);
    let mut out: Vec<Frame> = Vec::new();
    let mut i: usize = 0;
    while i < syms.len()
        invariant
            i <= syms@.len(),
            m == matcher_view(*matcher),
            frames_of(out@, syms@.take(i as int), m),
        decreases syms@.len() - i,
    {
        let ghost before = out@;
        proof {
            assert(syms@.take(i + 1).drop_last() =~= syms@.take(i as int));
        }
        let sym = &syms[i];
        match (&sym.name, &sym.filename) {
            (Some(name), Some(file)) => {
                let fr = Frame {
                    sym_demangled: name.clone(),
                    frame_path: Some(FramePath::new(file.as_str(), matcher)),
                    lineno: sym.lineno,
                };
                out.push(fr);
                proof {
                    let kept = usable_symbols(syms@.take(i + 1));
                    assert(kept == usable_symbols(syms@.take(i as int)).push(syms@[i as int]));
                    assert forall|j: int| 0 <= j < out@.len() implies frame_of(
                        #[trigger] out@[j],
                        kept[j],
                        m,
                    ) by {
                        if j < before.len() {
                            assert(out@[j] == before[j]);
                        }
                    }
                }
            },
            _ => {},
        }
        i = i + 1;
    }
    assert(syms@.take(i as int) =~= syms@);
    out
}

/// What a captured backtrace `res` looks like when made of `frames` by
/// `flt`: with a filter that skips no crate and room for every frame, every
/// frame is shown, in order, and none is left out; in any case every run of
/// left-out frames counts at least one frame and names a crate skipped in the
/// middle, the last entry belongs to no crate skipped at the end, and the
/// frames shown are some of `frames`, in their order.
pub open spec fn captured_shape(flt: BacktraceFilter, frames: Seq<Frame>, res: Option<Backtrace>) -> bool {
    &&& skips_no_crate(flt) && frames.len() <= flt.max_entry_count ==> backtrace_view(res) == if frames.len()
        == 0 {
        None
    } else {
        Some((frame_entries_of(frames), 0nat))
    }
    &&& res matches Some(bt) ==> {
        &&& runs_well_formed(flt, bt.entries@)
        &&& bt.entries@.len() > 0 ==> !trailing_skipped(flt, bt.entries@.last())
        &&& is_subsequence(shown_frame_seq(bt.entries@), frames)
    }
}

impl Backtrace {
    /// Captures the current call stack and filters it with `filter`, with
    /// `matcher` (see [`get_rootcause_matcher`]) telling this library's own
    /// files: the symbols with a name and a file become frames, and the
    /// result is what [`Backtrace::from_frames`] makes of them. It is `None`
    /// exactly when no symbol has both a name and a file, and it never holds
    /// more entries than the filter allows.
    pub fn capture_with(filter: &BacktraceFilter, matcher: &Option<(String, usize)>) -> (res: Option<Backtrace>)
        ensures
            exists|syms: Seq<RawSymbol>, frames: Seq<Frame>|
                {
                    &&& frames_of(frames, syms, matcher_view(*matcher))
                    &&& backtrace_view(res) == filtered(*filter, frames)
                    &&& (res is None <==> usable_symbols(syms).len() == 0)
                    &&& captured_shape(*filter, frames, res)
                },
            res matches Some(bt) ==> bt.entries@.len() <= filter.max_entry_count,
    {
        let syms = capture_symbols();
        let frames = frames_from_symbols(&syms, matcher);
        let res = Backtrace::from_frames(&frames, filter);
        let ghost n = frames.len();
        proof {
            assert(frames@.len() == n);
            lemma_filtered_counts(*filter, frames@);
            lemma_filtered_shape(*filter, frames@);
            if skips_no_crate(*filter) && frames@.len() <= filter.max_entry_count {
                lemma_no_filter_keeps_every_frame(*filter, frames@);
            }
        }
        assert(frames_of(frames@, syms@, matcher_view(*matcher)) && backtrace_view(res) == filtered(
            *filter,
            frames@,
        ) && (res is None <==> usable_symbols(syms@).len() == 0) && captured_shape(
            *filter,
            frames@,
            res,
        ));
        res
    }

    /// Captures the current call stack and filters it with `filter`; files
    /// are told apart by the standard library's and Cargo's layouts alone.
    pub fn capture(filter: &BacktraceFilter) -> (res: Option<Backtrace>)
        ensures
            exists|syms: Seq<RawSymbol>, frames: Seq<Frame>|
                {
                    &&& frames_of(frames, syms, None)
                    &&& backtrace_view(res) == filtered(*filter, frames)
                    &&& (res is None <==> usable_symbols(syms).len() == 0)
                    &&& captured_shape(*filter, frames, res)
                },
            res matches Some(bt) ==> bt.entries@.len() <= filter.max_entry_count,
    {
        Backtrace::capture_with(filter, &None)
    }
}


// ---------------------------------------------------------------------------
// The collector
// ---------------------------------------------------------------------------

/// The creation hook that attaches a backtrace of where a report was created.
#[derive(Copy, Clone)]
pub struct BacktraceCollector {
    /// Whether frames are shown with their full paths.
    pub show_full_path: bool,
    /// Which frames are left out.
    pub filter: BacktraceFilter,
    /// Whether reports that have children get a backtrace too; reports
    /// without children always get one.
    pub capture_backtrace_for_reports_with_children: bool,
}

/// Whether `a` is the attachment of a backtrace that the filter of `c`
/// makes of the frames of some captured symbols, rendered with full paths
/// where `c` shows them.
#[verifier::opaque]
pub open spec fn is_backtrace_attachment(a: ReportAttachment, c: BacktraceCollector) -> bool {
    exists|syms: Seq<RawSymbol>, frames: Seq<Frame>, es: Seq<BacktraceEntry>, total: nat|
        #![trigger frames_of(frames, syms, None), filtered(c.filter, frames), backtrace_text(es, total, c.show_full_path)]
        {
            &&& frames_of(frames, syms, None)
            &&& filtered(c.filter, frames) == Some((es, total))
            &&& a.object.type_id == BACKTRACE_TYPE_ID
            &&& a.object.display@ == backtrace_text(es, total, c.show_full_path)
            &&& a.object.debug@ == a.object.display@
            &&& a.handler == (AttachmentHandlerKind::Backtrace { has_entries: es.len() > 0 })
        }
}

/// Whether `c` captures a backtrace for a report; `has_children` tells
/// whether the report has children.
pub open spec fn captures_for(c: BacktraceCollector, has_children: bool) -> bool {
    c.capture_backtrace_for_reports_with_children || !has_children
}

/// Whether `added` is what `c` may add to a report; `has_children` tells
/// whether the report has children. Where `c` captures, it adds at most one
/// attachment, the backtrace its filter makes of the captured frames; whether
/// the capture gives any frame at all rests on the machine, so adding nothing
/// is allowed too. Where it does not capture, it adds nothing.
pub open spec fn adds_backtrace(c: BacktraceCollector, has_children: bool, added: Seq<ReportAttachment>) -> bool {
    if captures_for(c, has_children) {
        ||| added.len() == 0
        ||| (added.len() == 1 && is_backtrace_attachment(added[0], c))
    } else {
        added.len() == 0
    }
}

impl BacktraceCollector {
    /// The collector set up as the environment asks: `rust_backtrace_full`
    /// tells whether `RUST_BACKTRACE` is `full`, and `leafs_only` whether
    /// `ROOTCAUSE_BACKTRACE` is `leafs`. With `full`, frames are shown with
    /// their full paths, the frames of common crates are left out, and every
    /// report gets a backtrace unless `leafs_only` keeps them to reports
    /// without children. Otherwise no frame is left out, paths are shortened,
    /// and only reports without children get a backtrace.
    pub fn from_env_values(rust_backtrace_full: bool, leafs_only: bool) -> (res: Self)
        ensures
            res.show_full_path == rust_backtrace_full,
            res.capture_backtrace_for_reports_with_children == (rust_backtrace_full && !leafs_only),
            rust_backtrace_full ==> is_default_filter(res.filter),
            !rust_backtrace_full ==> {
                &&& res.filter.skipped_initial_crates@.len() == 0
                &&& res.filter.skipped_middle_crates@.len() == 0
                &&& res.filter.skipped_final_crates@.len() == 0
                &&& res.filter.max_entry_count == usize::MAX
            },
    {
        let empty: &'static [&'static str] = &[];
        BacktraceCollector {
            show_full_path: rust_backtrace_full,
            filter: if rust_backtrace_full {
                BacktraceFilter::default()
            } else {
                BacktraceFilter {
                    skipped_initial_crates: empty,
                    skipped_middle_crates: empty,
                    skipped_final_crates: empty,
                    max_entry_count: usize::MAX,
                }
            },
            capture_backtrace_for_reports_with_children: rust_backtrace_full && !leafs_only,
        }
    }

    /// Whether this collector captures a backtrace for a report;
    /// `has_children` tells whether the report has children. With
    /// `capture_backtrace_for_reports_with_children` set it captures for
    /// every report, else only for reports without children.
    pub fn captures_for_report(&self, has_children: bool) -> (res: bool)
        ensures
            res == (self.capture_backtrace_for_reports_with_children || !has_children),
            res == captures_for(*self, has_children),
            self.capture_backtrace_for_reports_with_children ==> res,
            !has_children ==> res,
    {
        self.capture_backtrace_for_reports_with_children || !has_children
    }

    /// Attaches `backtrace` to `report`, if there is one.
    pub fn attach(&self, report: &mut Report, backtrace: Option<Backtrace>)
        ensures
            final(report).context == old(report).context,
            final(report).context_handler == old(report).context_handler,
            final(report).children == old(report).children,
            match backtrace {
                Some(bt) => {
                    let a = final(report).attachments.items@.last();
                    &&& final(report).attachments.items@ == old(report).attachments.items@.push(a)
                    &&& a.object.type_id == BACKTRACE_TYPE_ID
                    &&& a.object.display@ == backtrace_text(
                        bt.entries@,
                        bt.total_omitted_frames as nat,
                        self.show_full_path,
                    )
                    &&& a.object.debug@ == a.object.display@
                    &&& a.handler == (AttachmentHandlerKind::Backtrace {
                        has_entries: bt.entries@.len() > 0,
                    })
                },
                None => final(report).attachments == old(report).attachments,
            },
    {
        match backtrace {
            Some(bt) => {
                let attachment = if self.show_full_path {
                    BacktraceHandler::<true>::attachment(bt)
                } else {
                    BacktraceHandler::<false>::attachment(bt)
                };
                report.attachments.push(attachment);
            },
            None => {},
        }
    }

    /// Captures a backtrace and attaches it to `report`, where this collector
    /// captures for it and the capture gives one.
    pub fn on_creation(&self, report: &mut Report)
        ensures
            final(report).context == old(report).context,
            final(report).context_handler == old(report).context_handler,
            final(report).children == old(report).children,
            old(report).attachments.items@.len() <= final(report).attachments.items@.len(),
            final(report).attachments.items@.take(old(report).attachments.items@.len() as int)
                == old(report).attachments.items@,
            adds_backtrace(
                *self,
                old(report).children.reports@.len() > 0,
                final(report).attachments.items@.skip(old(report).attachments.items@.len() as int),
            ),
    {
        let ghost old_items = report.attachments.items@;
        let do_capture = self.captures_for_report(report.children.reports.len() > 0);
        if do_capture {
            let backtrace = Backtrace::capture(&self.filter);
            let ghost bt = backtrace;
            let ghost (syms, frames) = choose|syms: Seq<RawSymbol>, frames: Seq<Frame>|
                frames_of(frames, syms, None) && backtrace_view(bt) == filtered(self.filter, frames);
            self.attach(report, backtrace);
            proof {
                reveal(is_backtrace_attachment);
                assert(frames_of(frames, syms, None));
                assert(backtrace_view(bt) == filtered(self.filter, frames));
                match bt {
                    Some(b) => {
                        let a = report.attachments.items@.last();
                        let es = b.entries@;
                        let total = b.total_omitted_frames as nat;
                        assert(report.attachments.items@.skip(old_items.len() as int) =~= seq![a]);
                        assert(filtered(self.filter, frames) == Some((es, total)));
                        assert(backtrace_text(es, total, self.show_full_path) == a.object.display@);
                        assert(is_backtrace_attachment(a, *self));
                    },
                    None => {
                        assert(report.attachments.items@.skip(old_items.len() as int) =~= Seq::<
                            ReportAttachment,
                        >::empty());
                    },
                }
            }
        } else {
            assert(report.attachments.items@.skip(old_items.len() as int) =~= Seq::<
                ReportAttachment,
            >::empty());
        }
        assert(report.attachments.items@.take(old_items.len() as int) =~= old_items);
    }
}

impl ReportCreationHook for BacktraceCollector {
    fn on_local_creation(&self, report: &mut Report, _location: Location)
        ensures
            final(report).context == old(report).context,
            final(report).context_handler == old(report).context_handler,
            final(report).children == old(report).children,
            old(report).attachments.items@.len() <= final(report).attachments.items@.len(),
            final(report).attachments.items@.take(old(report).attachments.items@.len() as int)
                == old(report).attachments.items@,
            adds_backtrace(
                *self,
                old(report).children.reports@.len() > 0,
                final(report).attachments.items@.skip(old(report).attachments.items@.len() as int),
            ),
    {
        self.on_creation(report);
    }

    fn on_sendsync_creation(&self, report: &mut Report, _location: Location)
        ensures
            final(report).context == old(report).context,
            final(report).context_handler == old(report).context_handler,
            final(report).children == old(report).children,
            old(report).attachments.items@.len() <= final(report).attachments.items@.len(),
            final(report).attachments.items@.take(old(report).attachments.items@.len() as int)
                == old(report).attachments.items@,
            adds_backtrace(
                *self,
                old(report).children.reports@.len() > 0,
                final(report).attachments.items@.skip(old(report).attachments.items@.len() as int),
            ),
    {
        self.on_creation(report);
    }
}

} // verus!
