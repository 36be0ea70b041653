//! The appendices collected while a report is rendered: texts grouped by
//! appendix name, the names in the order in which they first occurred.

use vstd::prelude::*;
use indexmap::IndexMap;
use rustc_hash::FxBuildHasher;

verus! {

#[verifier::external_type_specification]
#[verifier::external_body]
#[verifier::reject_recursive_types(K)]
#[verifier::reject_recursive_types(V)]
#[verifier::reject_recursive_types(S)]
pub struct ExIndexMap<K, V, S>(IndexMap<K, V, S>);

#[verifier::external_type_specification]
#[verifier::external_body]
pub struct ExFxBuildHasher(FxBuildHasher);

/// Appendix groups as a sequence of (name, texts) pairs, in order.
pub type AppendixGroups = Seq<(Seq<char>, Seq<Seq<char>>)>;

/// What an appendix map holds: its keys with their texts, in the map's order.
pub uninterp spec fn appendix_contents(m: IndexMap<&'static str, Vec<String>, FxBuildHasher>) -> Seq<(Seq<char>, Seq<Seq<char>>)>;

/// The index of the group named `name`, or the number of groups if there is none.
pub open spec fn group_index(apps: AppendixGroups, name: Seq<char>) -> nat
    decreases apps.len(),
{
    if apps.len() == 0 {
        0
    } else if apps[0].0 == name {
        0
    } else {
        1 + group_index(apps.drop_first(), name)
    }
}

/// `apps` with `text` added at the end of the group named `name`, which is
/// added at the end if it is not there yet.
pub open spec fn groups_push(apps: AppendixGroups, name: Seq<char>, text: Seq<char>) -> AppendixGroups {
    let i = group_index(apps, name);
    if i < apps.len() {
        apps.update(i as int, (name, apps[i as int].1.push(text)))
    } else {
        apps.push((name, seq![text]))
    }
}

/// The number of texts in the group named `name`.
pub open spec fn group_count(apps: AppendixGroups, name: Seq<char>) -> nat {
    let i = group_index(apps, name);
    if i < apps.len() {
        apps[i as int].1.len()
    } else {
        0
    }
}

/// The appendix map in which a report is rendered.
pub type Appendices = IndexMap<&'static str, Vec<String>, FxBuildHasher>;

/// An empty appendix map. Calls `IndexMap::default`, which makes a map with no entry.
#[verifier::external_body]
pub(crate) fn appendices_new() -> (m: Appendices)
    ensures
        appendix_contents(m) == Seq::<(Seq<char>, Seq<Seq<char>>)>::empty(),
{
    IndexMap::default()
}

/// Adds `text` to the group named `name` and returns the group's new size.
/// Calls `IndexMap::entry(name).or_default()` and pushes onto the vector it
/// gives: an existing key keeps its place, a new key is added at the end
/// with an empty vector.
#[verifier::external_body]
pub(crate) fn appendices_push(m: &mut Appendices, name: &'static str, text: String) -> (n: usize)
    ensures
        appendix_contents(*final(m)) == groups_push(appendix_contents(*old(m)), name@, text@),
        n == group_count(appendix_contents(*final(m)), name@),
{
    let texts = m.entry(name).or_default();
    texts.push(text);
    texts.len()
}

/// Whether the map holds no group. Calls `IndexMap::is_empty`.
#[verifier::external_body]
pub(crate) fn appendices_is_empty(m: &Appendices) -> (res: bool)
    ensures
        res == (appendix_contents(*m).len() == 0),
{
    m.is_empty()
}

/// The groups of the map, in order. Calls `IndexMap::into_iter`, which
/// yields the entries in the map's order.
#[verifier::external_body]
pub(crate) fn appendices_into_vec(m: Appendices) -> (v: Vec<(&'static str, Vec<String>)>)
    ensures
        v@.len() == appendix_contents(m).len(),
        forall|i: int|
            0 <= i < v@.len() ==> {
                &&& (#[trigger] v@[i]).0@ == appendix_contents(m)[i].0
                &&& v@[i].1@.len() == appendix_contents(m)[i].1.len()
                &&& forall|j: int|
                    0 <= j < v@[i].1@.len() ==> (#[trigger] v@[i].1@[j])@
                        == appendix_contents(m)[i].1[j]
            },
{
    m.into_iter().collect()
}

} // verus!
