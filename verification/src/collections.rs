//! Hash-table storage backed by `hashbrown`, exposed to verified code through its contents.
//!
//! Each table is a private `hashbrown` value inside a struct whose contents Verus sees only
//! through a named view; every method below is a single `hashbrown` call whose contract states
//! what that call does to the contents.
use vstd::prelude::*;

use crate::shared::RenderWorldRendererKind;

verus! {

/// Set of integer ids (render-space ids, mesh asset ids, node ids).
#[verifier::external_body]
pub struct IdSet {
    inner: hashbrown::HashSet<i32>,
}

/// Ids currently held by an [`IdSet`].
pub uninterp spec fn id_set_contents(s: IdSet) -> Set<i32>;

impl View for IdSet {
    type V = Set<i32>;

    open spec fn view(&self) -> Set<i32> {
        id_set_contents(*self)
    }
}

impl IdSet {
    /// `hashbrown::HashSet::new`: an empty set.
    #[verifier::external_body]
    pub fn new() -> (r: Self)
        ensures
            id_set_contents(r) == Set::<i32>::empty(),
    {
        IdSet { inner: hashbrown::HashSet::new() }
    }

    /// `hashbrown::HashSet::insert`: adds `id`; returns whether it was absent.
    #[verifier::external_body]
    pub fn insert(&mut self, id: i32) -> (r: bool)
        ensures
            id_set_contents(*final(self)) == id_set_contents(*old(self)).insert(id),
            r == !id_set_contents(*old(self)).contains(id),
    {
        self.inner.insert(id)
    }

    /// `hashbrown::HashSet::contains`: membership of `id`.
    #[verifier::external_body]
    pub fn contains(&self, id: i32) -> (r: bool)
        ensures
            r == id_set_contents(*self).contains(id),
    {
        self.inner.contains(&id)
    }

    /// `hashbrown::HashSet::remove`: removes `id`; returns whether it was present.
    #[verifier::external_body]
    pub fn remove(&mut self, id: i32) -> (r: bool)
        ensures
            id_set_contents(*final(self)) == id_set_contents(*old(self)).remove(id),
            r == id_set_contents(*old(self)).contains(id),
    {
        self.inner.remove(&id)
    }

    /// `hashbrown::HashSet::clear`: removes every id.
    #[verifier::external_body]
    pub fn clear(&mut self)
        ensures
            id_set_contents(*final(self)) == Set::<i32>::empty(),
    {
        self.inner.clear();
    }

    /// `hashbrown::HashSet::len`: the number of ids.
    #[verifier::external_body]
    pub fn len(&self) -> (r: usize)
        ensures
            r == id_set_contents(*self).len(),
    {
        self.inner.len()
    }

    /// `hashbrown::HashSet::is_empty`: whether the set holds no id.
    #[verifier::external_body]
    pub fn is_empty(&self) -> (r: bool)
        ensures
            r == (id_set_contents(*self) == Set::<i32>::empty()),
    {
        self.inner.is_empty()
    }

    /// `hashbrown::HashSet::iter`, collected: every id exactly once, in the table's walk order.
    #[verifier::external_body]
    pub fn to_vec(&self) -> (r: Vec<i32>)
        ensures
            r@.to_set() == id_set_contents(*self),
            r@.no_duplicates(),
    {
        self.inner.iter().copied().collect()
    }
}

/// The empty set of material keys.
pub open spec fn no_material_keys() -> Set<(i32, Option<i32>)> {
    Set::empty()
}

/// Set of `(material asset id, property block id)` keys.
#[verifier::external_body]
pub struct MaterialKeySet {
    inner: hashbrown::HashSet<(i32, Option<i32>)>,
}

/// Keys currently held by a [`MaterialKeySet`].
pub uninterp spec fn material_key_set_contents(s: MaterialKeySet) -> Set<(i32, Option<i32>)>;

impl View for MaterialKeySet {
    type V = Set<(i32, Option<i32>)>;

    open spec fn view(&self) -> Set<(i32, Option<i32>)> {
        material_key_set_contents(*self)
    }
}

impl MaterialKeySet {
    /// `hashbrown::HashSet::new`: an empty set.
    #[verifier::external_body]
    pub fn new() -> (r: Self)
        ensures
            material_key_set_contents(r) == no_material_keys(),
    {
        MaterialKeySet { inner: hashbrown::HashSet::new() }
    }

    /// `hashbrown::HashSet::clear`: removes every key.
    #[verifier::external_body]
    pub fn clear(&mut self)
        ensures
            material_key_set_contents(*final(self)) == no_material_keys(),
    {
        self.inner.clear()
    }

    /// `hashbrown::HashSet::insert`: adds `key`; returns whether it was absent.
    #[verifier::external_body]
    pub fn insert(&mut self, key: (i32, Option<i32>)) -> (r: bool)
        ensures
            material_key_set_contents(*final(self)) == material_key_set_contents(*old(self)).insert(key),
            r == !material_key_set_contents(*old(self)).contains(key),
    {
        self.inner.insert(key)
    }
}

/// Reference from a reverse index to a dense renderer table row.
#[derive(Clone, Copy, Debug, PartialEq, Eq, Structural, Hash)]
pub struct RenderWorldRendererRef {
    /// Renderer table containing the record.
    pub kind: RenderWorldRendererKind,
    /// Dense renderer index in the selected table.
    pub index: usize,
}

/// Map from an integer key (mesh asset id or node id) to the renderer rows that carry it.
#[verifier::external_body]
pub struct RefIndex {
    inner: hashbrown::HashMap<i32, Vec<RenderWorldRendererRef>>,
}

/// Buckets currently held by a [`RefIndex`].
pub uninterp spec fn ref_index_contents(m: RefIndex) -> Map<i32, Seq<RenderWorldRendererRef>>;

impl View for RefIndex {
    type V = Map<i32, Seq<RenderWorldRendererRef>>;

    open spec fn view(&self) -> Map<i32, Seq<RenderWorldRendererRef>> {
        ref_index_contents(*self)
    }
}

impl RefIndex {
    /// `hashbrown::HashMap::new`: an empty index.
    #[verifier::external_body]
    pub fn new() -> (r: Self)
        ensures
            ref_index_contents(r).dom() == Set::<i32>::empty(),
    {
        RefIndex { inner: hashbrown::HashMap::new() }
    }

    /// `hashbrown::HashMap::get`, cloned: the bucket for `key`, if any.
    #[verifier::external_body]
    pub fn get(&self, key: i32) -> (r: Option<Vec<RenderWorldRendererRef>>)
        ensures
            ref_index_contents(*self).contains_key(key) ==> r.is_some() && r.unwrap()@ == ref_index_contents(*self)[key],
            !ref_index_contents(*self).contains_key(key) ==> r.is_none(),
    {
        self.inner.get(&key).cloned()
    }

    /// `hashbrown::HashMap::contains_key`: whether `key` has a bucket.
    #[verifier::external_body]
    pub fn contains_key(&self, key: i32) -> (r: bool)
        ensures
            r == ref_index_contents(*self).contains_key(key),
    {
        self.inner.contains_key(&key)
    }

    /// `hashbrown::HashMap::insert`: replaces the bucket for `key`.
    #[verifier::external_body]
    pub fn set(&mut self, key: i32, bucket: Vec<RenderWorldRendererRef>)
        ensures
            ref_index_contents(*final(self)) == ref_index_contents(*old(self)).insert(key, bucket@),
    {
        self.inner.insert(key, bucket);
    }

    /// `hashbrown::HashMap::remove`: drops the bucket for `key`.
    #[verifier::external_body]
    pub fn remove_key(&mut self, key: i32)
        ensures
            ref_index_contents(*final(self)) == ref_index_contents(*old(self)).remove(key),
    {
        self.inner.remove(&key);
    }

    /// `hashbrown::HashMap::len`: number of buckets.
    #[verifier::external_body]
    pub fn len(&self) -> (r: usize)
        ensures
            r == ref_index_contents(*self).dom().len(),
    {
        self.inner.len()
    }

    /// `hashbrown::HashMap::iter`, collected: every key with its bucket, in the table's walk order.
    #[verifier::external_body]
    pub fn entries(&self) -> (r: Vec<(i32, Vec<RenderWorldRendererRef>)>)
        ensures
            r@.len() == ref_index_contents(*self).dom().len(),
            forall|i: int| 0 <= i < r@.len() ==> ref_index_contents(*self).contains_key((#[trigger] r@[i]).0) && ref_index_contents(*self)[r@[i].0] == r@[i].1@,
            forall|i: int, j: int| 0 <= i < j < r@.len() ==> (#[trigger] r@[i]).0 != (#[trigger] r@[j]).0,
            forall|k: i32| ref_index_contents(*self).contains_key(k) ==> exists|i: int| 0 <= i < r@.len() && (#[trigger] r@[i]).0 == k,
    {
        self.inner.iter().map(|(k, v)| (*k, v.clone())).collect()
    }
}

/// Map from an integer key to a counter.
#[verifier::external_body]
pub struct CounterMap {
    inner: hashbrown::HashMap<i32, usize>,
}

/// Counters currently held by a [`CounterMap`].
pub uninterp spec fn counter_map_contents(m: CounterMap) -> Map<i32, usize>;

impl View for CounterMap {
    type V = Map<i32, usize>;

    open spec fn view(&self) -> Map<i32, usize> {
        counter_map_contents(*self)
    }
}

impl CounterMap {
    /// `hashbrown::HashMap::new`: an empty map.
    #[verifier::external_body]
    pub fn new() -> (r: Self)
        ensures
            counter_map_contents(r).dom() == Set::<i32>::empty(),
    {
        CounterMap { inner: hashbrown::HashMap::new() }
    }

    /// `hashbrown::HashMap::get`, copied: the counter for `key`, if any.
    #[verifier::external_body]
    pub fn get(&self, key: i32) -> (r: Option<usize>)
        ensures
            counter_map_contents(*self).contains_key(key) ==> r == Some(counter_map_contents(*self)[key]),
            !counter_map_contents(*self).contains_key(key) ==> r.is_none(),
    {
        self.inner.get(&key).copied()
    }

    /// `hashbrown::HashMap::insert`: sets the counter for `key`.
    #[verifier::external_body]
    pub fn set(&mut self, key: i32, value: usize)
        ensures
            counter_map_contents(*final(self)) == counter_map_contents(*old(self)).insert(key, value),
    {
        self.inner.insert(key, value);
    }

    /// `hashbrown::HashMap::remove`: drops `key` and its counter.
    #[verifier::external_body]
    pub fn remove_key(&mut self, key: i32)
        ensures
            counter_map_contents(*final(self)) == counter_map_contents(*old(self)).remove(key),
    {
        self.inner.remove(&key);
    }
}

/// Map from a stable 64-bit renderer identity to a dense ordinal.
#[verifier::external_body]
pub struct OrdinalMap {
    inner: hashbrown::HashMap<u64, usize>,
}

/// Ordinals currently held by an [`OrdinalMap`].
pub uninterp spec fn ordinal_map_contents(m: OrdinalMap) -> Map<u64, usize>;

impl View for OrdinalMap {
    type V = Map<u64, usize>;

    open spec fn view(&self) -> Map<u64, usize> {
        ordinal_map_contents(*self)
    }
}

impl OrdinalMap {
    /// `hashbrown::HashMap::new`: an empty map.
    #[verifier::external_body]
    pub fn new() -> (r: Self)
        ensures
            ordinal_map_contents(r).dom() == Set::<u64>::empty(),
    {
        OrdinalMap { inner: hashbrown::HashMap::new() }
    }

    /// `hashbrown::HashMap::get`, copied: the ordinal for `key`, if any.
    #[verifier::external_body]
    pub fn get(&self, key: u64) -> (r: Option<usize>)
        ensures
            ordinal_map_contents(*self).contains_key(key) ==> r == Some(ordinal_map_contents(*self)[key]),
            !ordinal_map_contents(*self).contains_key(key) ==> r.is_none(),
    {
        self.inner.get(&key).copied()
    }

    /// `hashbrown::HashMap::insert`: sets the ordinal for `key`, replacing any earlier one.
    #[verifier::external_body]
    pub fn insert(&mut self, key: u64, value: usize)
        ensures
            ordinal_map_contents(*final(self)) == ordinal_map_contents(*old(self)).insert(key, value),
    {
        self.inner.insert(key, value);
    }

    /// `hashbrown::HashMap::len`: the number of keys held.
    #[verifier::external_body]
    pub fn len(&self) -> (r: usize)
        ensures
            r == ordinal_map_contents(*self).dom().len(),
    {
        self.inner.len()
    }
}

/// Set of command-cache keys `(fingerprint, draw count, chunk count)`.
#[verifier::external_body]
pub struct CacheKeySet {
    inner: hashbrown::HashSet<(u64, usize, usize)>,
}

/// Keys currently held by a [`CacheKeySet`].
pub uninterp spec fn cache_key_set_contents(s: CacheKeySet) -> Set<(u64, usize, usize)>;

impl View for CacheKeySet {
    type V = Set<(u64, usize, usize)>;

    open spec fn view(&self) -> Set<(u64, usize, usize)> {
        cache_key_set_contents(*self)
    }
}

impl CacheKeySet {
    /// `hashbrown::HashSet::new`: an empty set.
    #[verifier::external_body]
    pub fn new() -> (r: Self)
        ensures
            cache_key_set_contents(r).len() == 0,
            cache_key_set_contents(r).finite(),
            forall|k: (u64, usize, usize)| !cache_key_set_contents(r).contains(k),
    {
        CacheKeySet { inner: hashbrown::HashSet::new() }
    }

    /// `hashbrown::HashSet::contains`: membership of `key`.
    #[verifier::external_body]
    pub fn contains(&self, key: (u64, usize, usize)) -> (r: bool)
        ensures
            r == cache_key_set_contents(*self).contains(key),
    {
        self.inner.contains(&key)
    }

    /// `hashbrown::HashSet::insert`: adds `key`; returns whether it was absent.
    #[verifier::external_body]
    pub fn insert(&mut self, key: (u64, usize, usize)) -> (r: bool)
        ensures
            cache_key_set_contents(*final(self)) == cache_key_set_contents(*old(self)).insert(key),
            r == !cache_key_set_contents(*old(self)).contains(key),
    {
        self.inner.insert(key)
    }

    /// `hashbrown::HashSet::remove`: removes `key`; returns whether it was present.
    #[verifier::external_body]
    pub fn remove(&mut self, key: (u64, usize, usize)) -> (r: bool)
        ensures
            cache_key_set_contents(*final(self)) == cache_key_set_contents(*old(self)).remove(key),
            r == cache_key_set_contents(*old(self)).contains(key),
    {
        self.inner.remove(&key)
    }

    /// `hashbrown::HashSet::len`: the number of keys held.
    #[verifier::external_body]
    pub fn len(&self) -> (r: usize)
        ensures
            r == cache_key_set_contents(*self).len(),
    {
        self.inner.len()
    }
}

/// Whether a renderer dirty key `(space id, skinned, renderable index)` lies outside `space`.
pub fn dirty_key_outside_space(key: &(i32, bool, usize), space: i32) -> (r: bool)
    ensures
        r == (key.0 != space),
{
    key.0 != space
}

/// Set of renderer dirty keys `(space id, skinned table, renderable index)`.
#[verifier::external_body]
pub struct RendererDirtySet {
    inner: hashbrown::HashSet<(i32, bool, usize)>,
}

/// Keys currently held by a [`RendererDirtySet`].
pub uninterp spec fn renderer_dirty_contents(s: RendererDirtySet) -> Set<(i32, bool, usize)>;

impl View for RendererDirtySet {
    type V = Set<(i32, bool, usize)>;

    open spec fn view(&self) -> Set<(i32, bool, usize)> {
        renderer_dirty_contents(*self)
    }
}

impl RendererDirtySet {
    /// `hashbrown::HashSet::new`: an empty set.
    #[verifier::external_body]
    pub fn new() -> (r: Self)
        ensures
            renderer_dirty_contents(r).finite(),
            forall|k: (i32, bool, usize)| !renderer_dirty_contents(r).contains(k),
    {
        RendererDirtySet { inner: hashbrown::HashSet::new() }
    }

    /// `hashbrown::HashSet::insert`: adds `key`; returns whether it was absent.
    #[verifier::external_body]
    pub fn insert(&mut self, key: (i32, bool, usize)) -> (r: bool)
        ensures
            renderer_dirty_contents(*final(self)) == renderer_dirty_contents(*old(self)).insert(key),
            r == !renderer_dirty_contents(*old(self)).contains(key),
    {
        self.inner.insert(key)
    }

    /// `hashbrown::HashSet::contains`: membership of `key`.
    #[verifier::external_body]
    pub fn contains(&self, key: (i32, bool, usize)) -> (r: bool)
        ensures
            r == renderer_dirty_contents(*self).contains(key),
    {
        self.inner.contains(&key)
    }

    /// `hashbrown::HashSet::len`: the number of keys held.
    #[verifier::external_body]
    pub fn len(&self) -> (r: usize)
        ensures
            r == renderer_dirty_contents(*self).len(),
    {
        self.inner.len()
    }

    /// `hashbrown::HashSet::is_empty`: whether no key is held.
    #[verifier::external_body]
    pub fn is_empty(&self) -> (r: bool)
        ensures
            r == (forall|k: (i32, bool, usize)| !renderer_dirty_contents(*self).contains(k)),
    {
        self.inner.is_empty()
    }

    /// `hashbrown::HashSet::clear`: removes every key.
    #[verifier::external_body]
    pub fn clear(&mut self)
        ensures
            renderer_dirty_contents(*final(self)).finite(),
            forall|k: (i32, bool, usize)| !renderer_dirty_contents(*final(self)).contains(k),
    {
        self.inner.clear();
    }

    /// `hashbrown::HashSet::remove`: drops `key`; returns whether it was present.
    #[verifier::external_body]
    pub fn remove(&mut self, key: (i32, bool, usize)) -> (r: bool)
        ensures
            renderer_dirty_contents(*final(self)) == renderer_dirty_contents(*old(self)).remove(key),
            r == renderer_dirty_contents(*old(self)).contains(key),
    {
        self.inner.remove(&key)
    }

    /// `hashbrown::HashSet::retain`: keeps only the keys outside `space`.
    #[verifier::external_body]
    pub fn retain_outside_space(&mut self, space: i32)
        ensures
            renderer_dirty_contents(*final(self)) == renderer_dirty_contents(*old(self)).filter(
                |k: (i32, bool, usize)| k.0 != space,
            ),
    {
        self.inner.retain(|k| dirty_key_outside_space(k, space));
    }

    /// `hashbrown::HashSet::iter`, copied: every key once, in the table's iteration order.
    #[verifier::external_body]
    pub fn to_vec(&self) -> (r: Vec<(i32, bool, usize)>)
        ensures
            forall|k: (i32, bool, usize)| renderer_dirty_contents(*self).contains(k) <==> r@.contains(k),
            forall|i: int, j: int| 0 <= i < j < r@.len() ==> r@[i] != r@[j],
    {
        self.inner.iter().copied().collect()
    }
}

/// Set of `(render space id, node id)` pairs.
#[verifier::external_body]
pub struct NodePairSet {
    inner: hashbrown::HashSet<(i32, i32)>,
}

/// Pairs currently held by a [`NodePairSet`].
pub uninterp spec fn node_pair_set_contents(s: NodePairSet) -> Set<(i32, i32)>;

impl View for NodePairSet {
    type V = Set<(i32, i32)>;

    open spec fn view(&self) -> Set<(i32, i32)> {
        node_pair_set_contents(*self)
    }
}

impl NodePairSet {
    /// `hashbrown::HashSet::new`: an empty set.
    #[verifier::external_body]
    pub fn new() -> (r: Self)
        ensures
            forall|k: (i32, i32)| !node_pair_set_contents(r).contains(k),
    {
        NodePairSet { inner: hashbrown::HashSet::new() }
    }

    /// `hashbrown::HashSet::insert`: adds `key`; returns whether it was absent.
    #[verifier::external_body]
    pub fn insert(&mut self, key: (i32, i32)) -> (r: bool)
        ensures
            node_pair_set_contents(*final(self)) == node_pair_set_contents(*old(self)).insert(key),
            r == !node_pair_set_contents(*old(self)).contains(key),
    {
        self.inner.insert(key)
    }
}


/// Map from a render-space id to a half-open draw range `(start, end)`.
#[verifier::external_body]
pub struct SpaceRangeMap {
    inner: hashbrown::HashMap<i32, (usize, usize)>,
}

/// Ranges currently held by a [`SpaceRangeMap`].
pub uninterp spec fn space_range_map_contents(m: SpaceRangeMap) -> Map<i32, (usize, usize)>;

impl View for SpaceRangeMap {
    type V = Map<i32, (usize, usize)>;

    open spec fn view(&self) -> Map<i32, (usize, usize)> {
        space_range_map_contents(*self)
    }
}

impl SpaceRangeMap {
    /// `hashbrown::HashMap::new`: an empty map.
    #[verifier::external_body]
    pub fn new() -> (r: Self)
        ensures
            space_range_map_contents(r).dom() == Set::<i32>::empty(),
    {
        SpaceRangeMap { inner: hashbrown::HashMap::new() }
    }

    /// `hashbrown::HashMap::clear`: removes every entry.
    #[verifier::external_body]
    pub fn clear(&mut self)
        ensures
            space_range_map_contents(*final(self)).dom() == Set::<i32>::empty(),
    {
        self.inner.clear();
    }

    /// `hashbrown::HashMap::insert`: sets the range of `key`.
    #[verifier::external_body]
    pub fn insert(&mut self, key: i32, range: (usize, usize))
        ensures
            space_range_map_contents(*final(self)) == space_range_map_contents(*old(self)).insert(key, range),
    {
        self.inner.insert(key, range);
    }

    /// `hashbrown::HashMap::get`, copied: the range of `key`, if any.
    #[verifier::external_body]
    pub fn get(&self, key: i32) -> (r: Option<(usize, usize)>)
        ensures
            space_range_map_contents(*self).contains_key(key) ==> r == Some(space_range_map_contents(*self)[key]),
            !space_range_map_contents(*self).contains_key(key) ==> r.is_none(),
    {
        self.inner.get(&key).copied()
    }

    /// `hashbrown::HashMap::contains_key`: whether `key` has a range.
    #[verifier::external_body]
    pub fn contains_key(&self, key: i32) -> (r: bool)
        ensures
            r == space_range_map_contents(*self).contains_key(key),
    {
        self.inner.contains_key(&key)
    }
}

/// Map from a renderer identity `(space id, skinned, renderable index, instance id)` to the
/// `(start, end)` draw range of its prepared run.
#[verifier::external_body]
pub struct RunLookupMap {
    inner: hashbrown::HashMap<(i32, bool, usize, u64), (u32, u32)>,
}

/// Entries currently held by a [`RunLookupMap`].
pub uninterp spec fn run_lookup_map_contents(m: RunLookupMap) -> Map<(i32, bool, usize, u64), (u32, u32)>;

impl View for RunLookupMap {
    type V = Map<(i32, bool, usize, u64), (u32, u32)>;

    open spec fn view(&self) -> Map<(i32, bool, usize, u64), (u32, u32)> {
        run_lookup_map_contents(*self)
    }
}

impl RunLookupMap {
    /// `hashbrown::HashMap::new`: an empty map.
    #[verifier::external_body]
    pub fn new() -> (r: Self)
        ensures
            forall|k: (i32, bool, usize, u64)| !run_lookup_map_contents(r).contains_key(k),
    {
        RunLookupMap { inner: hashbrown::HashMap::new() }
    }

    /// `hashbrown::HashMap::clear`: removes every entry.
    #[verifier::external_body]
    pub fn clear(&mut self)
        ensures
            forall|k: (i32, bool, usize, u64)| !run_lookup_map_contents(*final(self)).contains_key(k),
    {
        self.inner.clear();
    }

    /// `hashbrown::HashMap::insert`: sets the run of `key`.
    #[verifier::external_body]
    pub fn insert(&mut self, key: (i32, bool, usize, u64), run: (u32, u32))
        ensures
            run_lookup_map_contents(*final(self)) == run_lookup_map_contents(*old(self)).insert(key, run),
    {
        self.inner.insert(key, run);
    }

    /// `hashbrown::HashMap::get`, copied: the run of `key`, if any.
    #[verifier::external_body]
    pub fn get(&self, key: (i32, bool, usize, u64)) -> (r: Option<(u32, u32)>)
        ensures
            run_lookup_map_contents(*self).contains_key(key) ==> r == Some(run_lookup_map_contents(*self)[key]),
            !run_lookup_map_contents(*self).contains_key(key) ==> r.is_none(),
    {
        self.inner.get(&key).copied()
    }
}


/// Set of dense renderer indices.
#[verifier::external_body]
pub struct IndexSet {
    inner: hashbrown::HashSet<usize>,
}

/// Indices currently held by an [`IndexSet`].
pub uninterp spec fn index_set_contents(s: IndexSet) -> Set<usize>;

impl View for IndexSet {
    type V = Set<usize>;

    open spec fn view(&self) -> Set<usize> {
        index_set_contents(*self)
    }
}

impl IndexSet {
    /// `hashbrown::HashSet::new`: an empty set.
    #[verifier::external_body]
    pub fn new() -> (r: Self)
        ensures
            index_set_contents(r) == Set::<usize>::empty(),
    {
        IndexSet { inner: hashbrown::HashSet::new() }
    }

    /// `hashbrown::HashSet::insert`: adds `index`; returns whether it was absent.
    #[verifier::external_body]
    pub fn insert(&mut self, index: usize) -> (r: bool)
        ensures
            index_set_contents(*final(self)) == index_set_contents(*old(self)).insert(index),
            r == !index_set_contents(*old(self)).contains(index),
    {
        self.inner.insert(index)
    }

    /// `hashbrown::HashSet::contains`: membership of `index`.
    #[verifier::external_body]
    pub fn contains(&self, index: usize) -> (r: bool)
        ensures
            r == index_set_contents(*self).contains(index),
    {
        self.inner.contains(&index)
    }

    /// `hashbrown::HashSet::len`: the number of indices.
    #[verifier::external_body]
    pub fn len(&self) -> (r: usize)
        ensures
            r == index_set_contents(*self).len(),
    {
        self.inner.len()
    }

    /// `hashbrown::HashSet::iter`, collected: every index once, in the set's iteration order.
    #[verifier::external_body]
    pub fn to_vec(&self) -> (r: Vec<usize>)
        ensures
            r@.to_set() == index_set_contents(*self),
            r@.no_duplicates(),
    {
        self.inner.iter().copied().collect()
    }
}


/// Counter per nontransparent draw surface `(overlay, phase rank, render queue, sorting order,
/// space id, skinned, node id, mesh asset id, first index, index count)`.
#[verifier::external_body]
pub struct SurfaceCountMap {
    inner: hashbrown::HashMap<(bool, u8, i32, i32, i32, bool, i32, i32, u32, u32), usize>,
}

/// Counters currently held by a [`SurfaceCountMap`].
pub uninterp spec fn surface_count_map_contents(m: SurfaceCountMap) -> Map<(bool, u8, i32, i32, i32, bool, i32, i32, u32, u32), usize>;

impl View for SurfaceCountMap {
    type V = Map<(bool, u8, i32, i32, i32, bool, i32, i32, u32, u32), usize>;

    open spec fn view(&self) -> Map<(bool, u8, i32, i32, i32, bool, i32, i32, u32, u32), usize> {
        surface_count_map_contents(*self)
    }
}

impl SurfaceCountMap {
    /// `hashbrown::HashMap::new`: an empty map.
    #[verifier::external_body]
    pub fn new() -> (r: Self)
        ensures
            forall|k: (bool, u8, i32, i32, i32, bool, i32, i32, u32, u32)| !surface_count_map_contents(r).contains_key(k),
    {
        SurfaceCountMap { inner: hashbrown::HashMap::new() }
    }

    /// `hashbrown::HashMap::get`, copied: the counter of `key`, if any.
    #[verifier::external_body]
    pub fn get(&self, key: (bool, u8, i32, i32, i32, bool, i32, i32, u32, u32)) -> (r: Option<usize>)
        ensures
            surface_count_map_contents(*self).contains_key(key) ==> r == Some(surface_count_map_contents(*self)[key]),
            !surface_count_map_contents(*self).contains_key(key) ==> r.is_none(),
    {
        self.inner.get(&key).copied()
    }

    /// `hashbrown::HashMap::insert`: sets the counter of `key`.
    #[verifier::external_body]
    pub fn set(&mut self, key: (bool, u8, i32, i32, i32, bool, i32, i32, u32, u32), value: usize)
        ensures
            surface_count_map_contents(*final(self)) == surface_count_map_contents(*old(self)).insert(key, value),
    {
        self.inner.insert(key, value);
    }
}

} // verus!
