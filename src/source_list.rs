//! Sky-model sources by name, in the order they were first given.
use vstd::prelude::*;

use indexmap::IndexMap;

use crate::component_list::reversed;
use crate::components::SourceComponent;

verus! {

#[verifier::external_type_specification]
#[verifier::external_body]
#[verifier::reject_recursive_types(K)]
#[verifier::reject_recursive_types(V)]
#[verifier::reject_recursive_types(S)]
pub struct ExIndexMap<K, V, S>(IndexMap<K, V, S>);

/// A sky-model source: its components.
#[derive(Clone, Debug)]
pub struct Source {
    pub components: Vec<SourceComponent>,
}

/// The entries of a map from source names to sources, in map order.
pub uninterp spec fn source_entries(m: IndexMap<String, Source>) -> Seq<(Seq<char>, Source)>;

/// The first index whose entry has name `key`.
pub open spec fn key_index(e: Seq<(Seq<char>, Source)>, key: Seq<char>) -> Option<int>
    decreases e.len(),
{
    if e.len() == 0 {
        None
    } else {
        match key_index(e.drop_last(), key) {
            Some(i) => Some(i),
            None => if e.last().0 == key {
                Some(e.len() - 1)
            } else {
                None
            },
        }
    }
}

/// The entries after inserting `value` under `key`: an entry with that name
/// keeps its place and takes the new value; else the pair goes last.
pub open spec fn inserted(e: Seq<(Seq<char>, Source)>, key: Seq<char>, value: Source) -> Seq<(Seq<char>, Source)> {
    match key_index(e, key) {
        Some(i) => e.update(i, (key, value)),
        None => e.push((key, value)),
    }
}

/// The entries of a list built by inserting `pairs` in order.
pub open spec fn inserted_all(pairs: Seq<(Seq<char>, Source)>) -> Seq<(Seq<char>, Source)>
    decreases pairs.len(),
{
    if pairs.len() == 0 {
        Seq::empty()
    } else {
        inserted(inserted_all(pairs.drop_last()), pairs.last().0, pairs.last().1)
    }
}

/// Relies on `IndexMap::new`: the map is empty.
#[verifier::external_body]
fn map_new() -> (r: IndexMap<String, Source>)
    ensures
        source_entries(r) == Seq::<(Seq<char>, Source)>::empty(),
{
    IndexMap::new()
}

/// Relies on `IndexMap::insert`: an existing key keeps its place and its
/// value is replaced and handed back; a new key goes last.
#[verifier::external_body]
fn map_insert(m: &mut IndexMap<String, Source>, key: String, value: Source) -> (r: Option<Source>)
    ensures
        source_entries(*final(m)) == inserted(source_entries(*old(m)), key@, value),
        r == match key_index(source_entries(*old(m)), key@) {
            Some(i) => Some(source_entries(*old(m))[i].1),
            None => None::<Source>,
        },
{
    m.insert(key, value)
}

/// Relies on `IndexMap::pop`: removes and hands back the last entry, keeping
/// the order of the others.
#[verifier::external_body]
pub(crate) fn map_pop(m: &mut IndexMap<String, Source>) -> (r: Option<(String, Source)>)
    ensures
        source_entries(*old(m)).len() == 0 ==> r is None && source_entries(*final(m))
            == source_entries(*old(m)),
        source_entries(*old(m)).len() > 0 ==> source_entries(*final(m)) == source_entries(
            *old(m),
        ).drop_last() && match r {
            Some((k, v)) => k@ == source_entries(*old(m)).last().0 && v == source_entries(
                *old(m),
            ).last().1,
            None => false,
        },
{
    m.pop()
}

/// Sky-model sources by name.
#[derive(Debug)]
pub struct SourceList(pub IndexMap<String, Source>);

impl SourceList {
    pub open spec fn entries(&self) -> Seq<(Seq<char>, Source)> {
        source_entries(self.0)
    }

    /// An empty source list.
    pub fn new() -> (r: SourceList)
        ensures
            r.entries() == Seq::<(Seq<char>, Source)>::empty(),
    {
        SourceList(map_new())
    }

    /// Wraps a map of sources.
    pub fn from(map: IndexMap<String, Source>) -> (r: SourceList)
        ensures
            r.entries() == source_entries(map),
    {
        SourceList(map)
    }

    /// Adds `source` under `name`; a name already present keeps its place
    /// and takes the new source, which the old one is returned for.
    pub fn insert(&mut self, name: String, source: Source) -> (r: Option<Source>)
        ensures
            final(self).entries() == inserted(old(self).entries(), name@, source),
            r == match key_index(old(self).entries(), name@) {
                Some(i) => Some(old(self).entries()[i].1),
                None => None::<Source>,
            },
    {
        map_insert(&mut self.0, name, source)
    }

    /// The list built by inserting the pairs in order.
    pub fn from_iter(pairs: Vec<(String, Source)>) -> (r: SourceList)
        ensures
            r.entries() == inserted_all(pairs@.map_values(|p: (String, Source)| (p.0@, p.1))),
    {
        let ghost views = pairs@.map_values(|p: (String, Source)| (p.0@, p.1));
        let n = pairs.len();
        let mut rest = reversed(pairs);
        let mut list = SourceList::new();
        let mut k: usize = 0;
        while k < n
            invariant
                k <= n,
                n == views.len(),
                rest@.len() == n - k,
                forall|j: int| 0 <= j < n - k ==> (#[trigger] rest@[j]).0@ == views[n - 1 - j].0
                    && rest@[j].1 == views[n - 1 - j].1,
                list.entries() == inserted_all(views.take(k as int)),
            decreases n - k,
        {
            let ghost last = rest@[n - 1 - k];
            let (name, source) = rest.pop().unwrap();
            assert(views.take(k + 1).drop_last() =~= views.take(k as int));
            list.insert(name, source);
            k = k + 1;
        }
        assert(views.take(n as int) =~= views);
        list
    }
}

} // verus!
