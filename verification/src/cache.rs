//! Key-value caches for artwork and palettes, the texture-atlas slot
//! allocator, and the low-precision hitbox fingerprint that gates input
//! region updates.

use crate::geom::Rect;
use crate::interaction::{IconHitbox, InteractionState, TrackHitbox};
use crate::state::str_eq;
use vstd::prelude::*;

verus! {

/// A string-keyed map backed by an association list with unique keys.
/// Lookups are linear; the abstract view is a `Map` over key views.
pub struct StrMap<V> {
    pub entries: Vec<(String, V)>,
}

/// The abstract map an entry list denotes, later entries winning.
pub open spec fn map_of<V>(entries: Seq<(String, V)>) -> Map<Seq<char>, V>
    decreases entries.len(),
{
    if entries.len() == 0 {
        Map::empty()
    } else {
        map_of(entries.drop_last()).insert(entries.last().0@, entries.last().1)
    }
}

/// Key uniqueness of the backing list.
pub open spec fn entries_unique<V>(entries: Seq<(String, V)>) -> bool {
    forall|i: int, j: int|
        0 <= i < j < entries.len() ==> (#[trigger] entries[i]).0@ != (#[trigger] entries[j]).0@
}

/// With unique keys, the abstract map holds a key exactly when some
/// entry bears it, with that entry's value.
pub proof fn lemma_map_of_entry<V>(entries: Seq<(String, V)>, i: int)
    requires
        entries_unique(entries),
        0 <= i < entries.len(),
    ensures
        map_of(entries).contains_key(entries[i].0@),
        map_of(entries)[entries[i].0@] == entries[i].1,
    decreases entries.len(),
{
    if i < entries.len() - 1 {
        assert(entries.drop_last()[i] == entries[i]);
        lemma_map_of_entry(entries.drop_last(), i);
        assert(entries[entries.len() - 1].0@ != entries[i].0@);
    }
}

/// A key no entry bears is absent from the abstract map.
pub proof fn lemma_map_of_absent<V>(entries: Seq<(String, V)>, key: Seq<char>)
    requires
        forall|i: int| 0 <= i < entries.len() ==> (#[trigger] entries[i]).0@ != key,
    ensures
        !map_of(entries).contains_key(key),
    decreases entries.len(),
{
    if entries.len() > 0 {
        assert(entries[entries.len() - 1].0@ != key);
        lemma_map_of_absent(entries.drop_last(), key);
    }
}

/// Appending a fresh entry inserts it into the abstract map.
pub proof fn lemma_map_of_push<V>(entries: Seq<(String, V)>, k: String, v: V)
    ensures
        map_of(entries.push((k, v))) == map_of(entries).insert(k@, v),
{
    assert(entries.push((k, v)).drop_last() =~= entries);
}

impl<V> StrMap<V> {
    /// The abstract contents.
    pub open spec fn m(&self) -> Map<Seq<char>, V> {
        map_of(self.entries@)
    }

    /// Keys are unique.
    pub open spec fn wf(&self) -> bool {
        entries_unique(self.entries@)
    }

    /// An empty cache.
    pub fn new() -> (r: StrMap<V>)
        ensures
            r.wf(),
            r.m() == Map::<Seq<char>, V>::empty(),
    {
        StrMap { entries: Vec::new() }
    }

    /// Whether the cache holds the key.
    pub fn contains_key(&self, key: &String) -> (b: bool)
        requires
            self.wf(),
        ensures
            b == self.m().contains_key(key@),
    {
        let mut i: usize = 0;
        while i < self.entries.len()
            invariant
                self.wf(),
                0 <= i <= self.entries@.len(),
                forall|j: int| 0 <= j < i ==> (#[trigger] self.entries@[j]).0@ != key@,
            decreases self.entries@.len() - i,
        {
            if str_eq(&self.entries[i].0, key) {
                proof {
                    lemma_map_of_entry(self.entries@, i as int);
                }
                return true;
            }
            i = i + 1;
        }
        proof {
            lemma_map_of_absent(self.entries@, key@);
        }
        false
    }

    /// Look the key up.
    pub fn get(&self, key: &String) -> (r: Option<&V>)
        requires
            self.wf(),
        ensures
            r matches Some(v) ==> self.m().contains_key(key@) && self.m()[key@] == *v,
            r is None ==> !self.m().contains_key(key@),
    {
        let mut i: usize = 0;
        while i < self.entries.len()
            invariant
                self.wf(),
                0 <= i <= self.entries@.len(),
                forall|j: int| 0 <= j < i ==> (#[trigger] self.entries@[j]).0@ != key@,
            decreases self.entries@.len() - i,
        {
            if str_eq(&self.entries[i].0, key) {
                proof {
                    lemma_map_of_entry(self.entries@, i as int);
                }
                return Some(&self.entries[i].1);
            }
            i = i + 1;
        }
        proof {
            lemma_map_of_absent(self.entries@, key@);
        }
        None
    }

    /// Insert or overwrite.
    pub fn insert(&mut self, key: String, value: V)
        requires
            old(self).wf(),
        ensures
            final(self).wf(),
            final(self).m() == old(self).m().insert(key@, value),
    {
        let mut i: usize = 0;
        while i < self.entries.len()
            invariant
                self.wf(),
                *self == *old(self),
                0 <= i <= self.entries@.len(),
                forall|j: int| 0 <= j < i ==> (#[trigger] self.entries@[j]).0@ != key@,
            decreases self.entries@.len() - i,
        {
            if str_eq(&self.entries[i].0, &key) {
                let ghost pre = self.entries@;
                self.entries[i] = (key, value);
                proof {
                    assert(self.entries@[i as int].0@ == pre[i as int].0@);
                    assert forall|a: int, b: int|
                        0 <= a < b < self.entries@.len() implies (#[trigger] self.entries@[a]).0@
                        != (#[trigger] self.entries@[b]).0@ by {
                        assert(self.entries@[a].0@ == pre[a].0@);
                        assert(self.entries@[b].0@ == pre[b].0@);
                    }
                    lemma_map_update_entry(pre, self.entries@, i as int);
                }
                return ;
            }
            i = i + 1;
        }
        proof {
            lemma_map_of_absent(self.entries@, key@);
            lemma_map_of_push(self.entries@, key, value);
        }
        self.entries.push((key, value));
    }

    /// Remove a key if present.
    pub fn remove(&mut self, key: &String)
        requires
            old(self).wf(),
        ensures
            final(self).wf(),
            final(self).m() == old(self).m().remove(key@),
    {
        let mut i: usize = 0;
        while i < self.entries.len()
            invariant
                self.wf(),
                *self == *old(self),
                0 <= i <= self.entries@.len(),
                forall|j: int| 0 <= j < i ==> (#[trigger] self.entries@[j]).0@ != key@,
            decreases self.entries@.len() - i,
        {
            if str_eq(&self.entries[i].0, key) {
                let ghost pre = self.entries@;
                self.entries.remove(i);
                proof {
                    assert forall|a: int, b: int|
                        0 <= a < b < self.entries@.len() implies (#[trigger] self.entries@[a]).0@
                        != (#[trigger] self.entries@[b]).0@ by {
                        let a2: int = if a < i {
                            a
                        } else {
                            a + 1
                        };
                        let b2: int = if b < i {
                            b
                        } else {
                            b + 1
                        };
                        assert(self.entries@[a].0@ == pre[a2].0@);
                        assert(self.entries@[b].0@ == pre[b2].0@);
                    }
                    lemma_map_remove_entry(pre, self.entries@, i as int);
                }
                return ;
            }
            i = i + 1;
        }
        proof {
            lemma_map_of_absent(self.entries@, key@);
            assert(old(self).m().remove(key@) =~= old(self).m());
        }
    }
}

/// Overwriting one entry's value updates the abstract map at its key.
pub proof fn lemma_map_update_entry<V>(pre: Seq<(String, V)>, post: Seq<(String, V)>, i: int)
    requires
        entries_unique(pre),
        0 <= i < pre.len(),
        post.len() == pre.len(),
        post[i].0@ == pre[i].0@,
        forall|j: int| 0 <= j < pre.len() && j != i ==> #[trigger] post[j] == pre[j],
    ensures
        map_of(post) =~= map_of(pre).insert(pre[i].0@, post[i].1),
    decreases pre.len(),
{
    if pre.len() > 0 {
        let n = pre.len() - 1;
        if i == n {
            assert(post.drop_last() =~= pre.drop_last());
        } else {
            assert forall|j: int| 0 <= j < n && j != i implies #[trigger] post.drop_last()[j]
                == pre.drop_last()[j] by {
                assert(post[j] == pre[j]);
            }
            lemma_map_update_entry(pre.drop_last(), post.drop_last(), i);
            assert(post.last() == pre.last());
            assert(pre[i].0@ != pre[n].0@);
        }
    }
}

/// Removing one entry removes its key from the abstract map.
pub proof fn lemma_map_remove_entry<V>(pre: Seq<(String, V)>, post: Seq<(String, V)>, i: int)
    requires
        entries_unique(pre),
        0 <= i < pre.len(),
        post =~= pre.subrange(0, i) + pre.subrange(i + 1, pre.len() as int),
    ensures
        map_of(post) =~= map_of(pre).remove(pre[i].0@),
    decreases pre.len(),
{
    let n = pre.len() - 1;
    if i == n {
        assert(post =~= pre.drop_last());
        assert forall|k: Seq<char>|
            map_of(pre.drop_last()).contains_key(k) implies k != pre[n].0@ by {
            if k == pre[n].0@ {
                lemma_map_of_no_absent_key(pre.drop_last(), k);
            }
        }
        assert(map_of(post) =~= map_of(pre).remove(pre[i].0@));
    } else {
        let pre2 = pre.drop_last();
        let post2 = post.drop_last();
        assert(post.len() == pre.len() - 1);
        assert(post2 =~= pre2.subrange(0, i) + pre2.subrange(i + 1, pre2.len() as int));
        lemma_map_remove_entry(pre2, post2, i);
        assert(post.last() == pre.last());
        assert(pre[i].0@ != pre[n].0@);
        assert(map_of(post) =~= map_of(pre).remove(pre[i].0@));
    }
}

/// A key borne by no entry is not in the abstract map.
proof fn lemma_map_of_no_absent_key<V>(entries: Seq<(String, V)>, key: Seq<char>)
    requires
        map_of(entries).contains_key(key),
    ensures
        exists|i: int| 0 <= i < entries.len() && (#[trigger] entries[i]).0@ == key,
    decreases entries.len(),
{
    if entries.len() > 0 {
        if entries.last().0@ != key {
            lemma_map_of_no_absent_key(entries.drop_last(), key);
            let i = choose|i: int|
                0 <= i < entries.drop_last().len() && (#[trigger] entries.drop_last()[i]).0@
                    == key;
            assert(entries[i].0@ == key);
        }
    }
}

/// The artwork cache: raw 64×64 RGBA pixel bytes per image URL; `None`
/// marks a fetch in progress, so a URL is never fetched twice at once.
pub struct ImageCache {
    pub images: StrMap<Option<Vec<u8>>>,
}

/// Every stored image is a whole number of RGBA pixels of bounded size.
pub open spec fn image_cache_wf(c: ImageCache) -> bool {
    &&& c.images.wf()
    &&& forall|k: Seq<char>|
        #[trigger] c.images.m().contains_key(k) ==> (c.images.m()[k] matches Some(px)
            ==> px@.len() % 4 == 0 && px@.len() <= 100_000_000)
}

impl ImageCache {
    /// An empty cache.
    pub fn new() -> (r: ImageCache)
        ensures
            image_cache_wf(r),
            r.images.m() == Map::<Seq<char>, Option<Vec<u8>>>::empty(),
    {
        ImageCache { images: StrMap::new() }
    }

    /// Claim a URL for fetching: inserts the in-progress sentinel and
    /// returns true exactly when the URL was absent, so at most one
    /// caller fetches it.
    pub fn begin_fetch(&mut self, url: &String) -> (fetch: bool)
        requires
            image_cache_wf(*old(self)),
        ensures
            image_cache_wf(*final(self)),
            fetch == !old(self).images.m().contains_key(url@),
            fetch ==> final(self).images.m() == old(self).images.m().insert(
                url@,
                None::<Vec<u8>>,
            ),
            !fetch ==> *final(self) == *old(self),
    {
        if self.images.contains_key(url) {
            return false;
        }
        self.images.insert(url.clone(), None);
        true
    }

    /// Store a fetched image's pixels.
    pub fn store_image(&mut self, url: String, pixels: Vec<u8>)
        requires
            image_cache_wf(*old(self)),
            pixels@.len() % 4 == 0,
            pixels@.len() <= 100_000_000,
        ensures
            image_cache_wf(*final(self)),
            final(self).images.m() == old(self).images.m().insert(url@, Some(pixels)),
    {
        self.images.insert(url, Some(pixels));
    }
}

/// Texture-array slot bookkeeping: which URL sits in which layer, and
/// whether it was referenced this frame.
pub struct ImageAtlas {
    pub entries: Vec<(String, usize, bool)>,
    pub max_layers: usize,
}

/// Atlas well-formedness: unique URLs, unique slots, slots in range.
pub open spec fn atlas_wf(a: ImageAtlas) -> bool {
    &&& forall|i: int, j: int|
        0 <= i < j < a.entries@.len() ==> (#[trigger] a.entries@[i]).0@ != (
        #[trigger] a.entries@[j]).0@
    &&& forall|i: int, j: int|
        0 <= i < j < a.entries@.len() ==> (#[trigger] a.entries@[i]).1 != (
        #[trigger] a.entries@[j]).1
    &&& forall|i: int| 0 <= i < a.entries@.len() ==> (#[trigger] a.entries@[i]).1 < a.max_layers
    &&& a.max_layers <= 0x1000
}

impl ImageAtlas {
    /// An empty atlas over the given number of texture layers.
    pub fn new(max_layers: usize) -> (r: ImageAtlas)
        requires
            max_layers <= 0x1000,
        ensures
            atlas_wf(r),
            r.entries@.len() == 0,
            r.max_layers == max_layers,
    {
        ImageAtlas { entries: Vec::new(), max_layers }
    }

    /// Forget which slots this frame used.
    pub fn mark_all_unused(&mut self)
        requires
            atlas_wf(*old(self)),
        ensures
            atlas_wf(*final(self)),
            final(self).entries@.len() == old(self).entries@.len(),
            final(self).max_layers == old(self).max_layers,
            forall|i: int|
                0 <= i < old(self).entries@.len() ==> #[trigger] final(self).entries@[i] == (
                old(self).entries@[i].0,
                old(self).entries@[i].1,
                false,
                ),
    {
        let ghost pre = self.entries@;
        let mut i: usize = 0;
        while i < self.entries.len()
            invariant
                0 <= i <= self.entries@.len(),
                self.entries@.len() == pre.len(),
                self.max_layers == old(self).max_layers,
                pre == old(self).entries@,
                atlas_wf(*old(self)),
                forall|j: int|
                    0 <= j < i ==> #[trigger] self.entries@[j] == (pre[j].0, pre[j].1, false),
                forall|j: int| i <= j < pre.len() ==> #[trigger] self.entries@[j] == pre[j],
            decreases self.entries@.len() - i,
        {
            let url = self.entries[i].0.clone();
            let slot = self.entries[i].1;
            self.entries[i] = (url, slot, false);
            i = i + 1;
        }
        proof {
            assert forall|a: int, b: int|
                0 <= a < b < self.entries@.len() implies (#[trigger] self.entries@[a]).0@ != (
            #[trigger] self.entries@[b]).0@ by {
                assert(self.entries@[a].0@ == pre[a].0@);
                assert(self.entries@[b].0@ == pre[b].0@);
            }
            assert forall|a: int, b: int|
                0 <= a < b < self.entries@.len() implies (#[trigger] self.entries@[a]).1 != (
            #[trigger] self.entries@[b]).1 by {
                assert(self.entries@[a].1 == pre[a].1);
                assert(self.entries@[b].1 == pre[b].1);
            }
        }
    }

    /// Drop entries whose slot went unused this frame.
    pub fn prune_unused(&mut self)
        requires
            atlas_wf(*old(self)),
        ensures
            atlas_wf(*final(self)),
            final(self).max_layers == old(self).max_layers,
            forall|i: int|
                0 <= i < final(self).entries@.len() ==> (#[trigger] final(self).entries@[i]).2
                    && old(self).entries@.contains(final(self).entries@[i]),
            forall|i: int|
                0 <= i < old(self).entries@.len() && (#[trigger] old(self).entries@[i]).2
                    ==> final(self).entries@.contains(old(self).entries@[i]),
    {
        let ghost pre = self.entries@;
        let mut kept: Vec<(String, usize, bool)> = Vec::new();
        let mut i: usize = 0;
        while i < self.entries.len()
            invariant
                0 <= i <= self.entries@.len(),
                self.entries@ == pre,
                atlas_wf(*old(self)),
                pre == old(self).entries@,
                forall|k: int|
                    0 <= k < kept@.len() ==> (#[trigger] kept@[k]).2 && pre.contains(kept@[k]),
                forall|j: int|
                    0 <= j < i && (#[trigger] pre[j]).2 ==> kept@.contains(pre[j]),
                forall|a: int, b: int|
                    0 <= a < b < kept@.len() ==> (#[trigger] kept@[a]).0@ != (
                    #[trigger] kept@[b]).0@,
                forall|a: int, b: int|
                    0 <= a < b < kept@.len() ==> (#[trigger] kept@[a]).1 != (
                    #[trigger] kept@[b]).1,
                forall|k: int| 0 <= k < kept@.len() ==> (#[trigger] kept@[k]).1 < self.max_layers,
                forall|k: int|
                    0 <= k < kept@.len() ==> exists|j: int|
                        0 <= j < i && #[trigger] kept@[k] == pre[j],
                self.max_layers == old(self).max_layers,
            decreases self.entries@.len() - i,
        {
            if self.entries[i].2 {
                let url = self.entries[i].0.clone();
                let slot = self.entries[i].1;
                let ghost kept_pre = kept@;
                kept.push((url, slot, true));
                proof {
                    assert(kept@.last() == pre[i as int]);
                    assert(pre.contains(pre[i as int]));
                    assert(kept@[kept@.len() - 1] == pre[i as int]);
                    assert(kept@.contains(pre[i as int]));
                    assert forall|j2: int|
                        0 <= j2 < i + 1 && (#[trigger] pre[j2]).2 implies kept@.contains(
                        pre[j2],
                    ) by {
                        if j2 < i {
                            let w = choose|w: int|
                                0 <= w < kept_pre.len() && #[trigger] kept_pre[w] == pre[j2];
                            assert(kept@[w] == pre[j2]);
                        }
                    }
                    assert forall|k: int|
                        0 <= k < kept@.len() implies exists|j: int|
                        0 <= j < i + 1 && #[trigger] kept@[k] == pre[j] by {
                        if k < kept_pre.len() {
                            let j = choose|j: int| 0 <= j < i && #[trigger] kept_pre[k] == pre[j];
                            assert(kept@[k] == pre[j]);
                        } else {
                            assert(kept@[k] == pre[i as int]);
                        }
                    }
                    assert forall|a: int, b: int|
                        0 <= a < b < kept@.len() implies (#[trigger] kept@[a]).0@ != (
                    #[trigger] kept@[b]).0@ by {
                        if b == kept@.len() - 1 {
                            let ja = choose|j: int|
                                0 <= j < i && #[trigger] kept_pre[a] == pre[j];
                            assert(kept@[a] == pre[ja]);
                            assert(kept@[b] == pre[i as int]);
                            assert(pre[ja].0@ != pre[i as int].0@);
                        }
                    }
                    assert forall|a: int, b: int|
                        0 <= a < b < kept@.len() implies (#[trigger] kept@[a]).1 != (
                    #[trigger] kept@[b]).1 by {
                        if b == kept@.len() - 1 {
                            let ja = choose|j: int|
                                0 <= j < i && #[trigger] kept_pre[a] == pre[j];
                            assert(kept@[a] == pre[ja]);
                            assert(kept@[b] == pre[i as int]);
                            assert(pre[ja].1 != pre[i as int].1);
                        }
                    }
                }
            }
            i = i + 1;
        }
        self.entries = kept;
    }

    /// Look a URL up, marking its slot used; `None` when it holds no
    /// slot.
    pub fn lookup(&mut self, url: &String) -> (r: Option<usize>)
        requires
            atlas_wf(*old(self)),
        ensures
            atlas_wf(*final(self)),
            final(self).max_layers == old(self).max_layers,
            r matches Some(slot) ==> exists|i: int|
                0 <= i < old(self).entries@.len() && (#[trigger] old(self).entries@[i]).0@ == url@
                    && old(self).entries@[i].1 == slot,
            r is None ==> *final(self) == *old(self) && (forall|i: int|
                0 <= i < old(self).entries@.len() ==> (#[trigger] old(self).entries@[i]).0@
                    != url@),
    {
        let mut i: usize = 0;
        while i < self.entries.len()
            invariant
                atlas_wf(*old(self)),
                *self == *old(self),
                0 <= i <= self.entries@.len(),
                forall|j: int| 0 <= j < i ==> (#[trigger] self.entries@[j]).0@ != url@,
            decreases self.entries@.len() - i,
        {
            if str_eq(&self.entries[i].0, url) {
                let ghost pre = self.entries@;
                let u = self.entries[i].0.clone();
                let slot = self.entries[i].1;
                self.entries[i] = (u, slot, true);
                proof {
                    assert forall|a: int, b: int|
                        0 <= a < b < self.entries@.len() implies (#[trigger] self.entries@[a]).0@
                        != (#[trigger] self.entries@[b]).0@ by {
                        assert(self.entries@[a].0@ == pre[a].0@);
                        assert(self.entries@[b].0@ == pre[b].0@);
                    }
                    assert forall|a: int, b: int|
                        0 <= a < b < self.entries@.len() implies (#[trigger] self.entries@[a]).1
                        != (#[trigger] self.entries@[b]).1 by {
                        assert(self.entries@[a].1 == pre[a].1);
                        assert(self.entries@[b].1 == pre[b].1);
                    }
                }
                return Some(slot);
            }
            i = i + 1;
        }
        None
    }

    /// Allocate the lowest free slot for a URL the atlas does not hold;
    /// `None` when every layer is taken (the artwork is then simply not
    /// displayed).
    pub fn allocate(&mut self, url: &String) -> (r: Option<usize>)
        requires
            atlas_wf(*old(self)),
            forall|i: int|
                0 <= i < old(self).entries@.len() ==> (#[trigger] old(self).entries@[i]).0@
                    != url@,
        ensures
            atlas_wf(*final(self)),
            final(self).max_layers == old(self).max_layers,
            r matches Some(slot) ==> ({
                &&& slot < old(self).max_layers
                &&& final(self).entries@.len() == old(self).entries@.len() + 1
                &&& forall|i: int|
                    0 <= i < old(self).entries@.len() ==> #[trigger] final(self).entries@[i]
                        == old(self).entries@[i]
                &&& final(self).entries@.last().0@ == url@
                &&& final(self).entries@.last().1 == slot
                &&& final(self).entries@.last().2
                &&& forall|i: int|
                    0 <= i < old(self).entries@.len() ==> (#[trigger] old(self).entries@[i]).1
                        != slot
            }),
            r is None ==> *final(self) == *old(self) && old(self).entries@.len() >= old(
                self,
            ).max_layers,
    {
        let mut slot: usize = 0;
        while slot < self.max_layers
            invariant
                atlas_wf(*old(self)),
                *self == *old(self),
                forall|i: int|
                    0 <= i < self.entries@.len() ==> (#[trigger] self.entries@[i]).0@ != url@,
                0 <= slot <= self.max_layers,
                forall|s: int| 0 <= s < slot ==> #[trigger] slot_taken(self.entries@, s),
            decreases self.max_layers - slot,
        {
            let mut taken: bool = false;
            let mut j: usize = 0;
            while j < self.entries.len()
                invariant
                    *self == *old(self),
                    0 <= j <= self.entries@.len(),
                    taken == exists|k: int|
                        0 <= k < j && (#[trigger] self.entries@[k]).1 == slot as int,
                decreases self.entries@.len() - j,
            {
                if self.entries[j].1 == slot {
                    taken = true;
                }
                j = j + 1;
            }
            if !taken {
                let ghost pre = self.entries@;
                self.entries.push((url.clone(), slot, true));
                proof {
                    assert(self.entries@.last().0@ == url@);
                    assert forall|a: int, b: int|
                        0 <= a < b < self.entries@.len() implies (#[trigger] self.entries@[a]).0@
                        != (#[trigger] self.entries@[b]).0@ by {
                        if b == self.entries@.len() - 1 {
                            assert(pre[a].0@ != url@);
                        }
                    }
                    assert forall|a: int, b: int|
                        0 <= a < b < self.entries@.len() implies (#[trigger] self.entries@[a]).1
                        != (#[trigger] self.entries@[b]).1 by {
                        if b == self.entries@.len() - 1 {
                            assert(!(exists|k: int|
                                0 <= k < pre.len() && (#[trigger] pre[k]).1 == slot));
                        }
                    }
                }
                return Some(slot);
            }
            slot = slot + 1;
        }
        proof {
            lemma_slots_pigeonhole(self.entries@, self.max_layers as int);
        }
        None
    }
}

/// Whether some entry occupies slot `s`.
pub open spec fn slot_taken(entries: Seq<(String, usize, bool)>, s: int) -> bool {
    exists|j: int| 0 <= j < entries.len() && (#[trigger] entries[j]).1 == s
}

/// If every slot below `m` is taken by some entry and slots are unique,
/// there are at least `m` entries.
proof fn lemma_slots_pigeonhole(entries: Seq<(String, usize, bool)>, m: int)
    requires
        m >= 0,
        forall|i: int, j: int|
            0 <= i < j < entries.len() ==> (#[trigger] entries[i]).1 != (#[trigger] entries[j]).1,
        forall|s: int| 0 <= s < m ==> #[trigger] slot_taken(entries, s),
    ensures
        entries.len() >= m,
    decreases m,
{
    if m > 0 {
        assert(slot_taken(entries, m - 1));
        let j = choose|j: int| 0 <= j < entries.len() && (#[trigger] entries[j]).1 == m - 1;
        let rest = entries.remove(j);
        assert forall|a: int, b: int|
            0 <= a < b < rest.len() implies (#[trigger] rest[a]).1 != (#[trigger] rest[b]).1 by {
            let a2: int = if a < j {
                a
            } else {
                a + 1
            };
            let b2: int = if b < j {
                b
            } else {
                b + 1
            };
            assert(rest[a] == entries[a2]);
            assert(rest[b] == entries[b2]);
        }
        assert forall|s: int| 0 <= s < m - 1 implies #[trigger] slot_taken(rest, s) by {
            assert(slot_taken(entries, s));
            let k0 = choose|k: int| 0 <= k < entries.len() && (#[trigger] entries[k]).1 == s;
            assert(k0 != j);
            if k0 < j {
                assert(rest[k0] == entries[k0]);
            } else {
                assert(rest[k0 - 1] == entries[k0]);
            }
        }
        lemma_slots_pigeonhole(rest, m - 1);
    }
}

/// One step of the 64-bit fingerprint: mix a value in and multiply by
/// the folding prime, wrapping.
pub open spec fn fp_step(h: u64, v: u64) -> u64 {
    (((h ^ v) as u128) * 0x0000_0100_0000_01B3u128) as u64
}

/// A rectangle quantized to hundred-pixel buckets, each coordinate
/// clamped into a 16-bit value.
pub open spec fn quantize(x: int) -> int {
    let bucket = crate::tdiv(
        if x >= 0 {
            x + 50_000
        } else {
            x - 50_000
        },
        100_000,
    );
    if bucket < 0 {
        0
    } else if bucket > 65_535 {
        65_535
    } else {
        bucket
    }
}

/// The fingerprint after folding one rectangle in.
pub open spec fn fp_rect(h: u64, r: Rect) -> u64 {
    fp_step(
        fp_step(
            fp_step(fp_step(h, quantize(r.x0 as int) as u64), quantize(r.y0 as int) as u64),
            quantize(r.x1 as int) as u64,
        ),
        quantize(r.y1 as int) as u64,
    )
}

/// The fingerprint of the frame's hitbox rectangles: track hitboxes in
/// order, then icon hitboxes.
pub open spec fn fp_rects(h: u64, rects: Seq<Rect>) -> u64
    decreases rects.len(),
{
    if rects.len() == 0 {
        h
    } else {
        fp_rect(fp_rects(h, rects.drop_last()), rects.last())
    }
}

/// Quantize one coordinate, executably.
pub fn quantize_exec(x: i64) -> (q: u64)
    requires
        -2_000_000_000_000i64 <= x <= 2_000_000_000_000i64,
    ensures
        q == quantize(x as int),
{
    let shifted: i64 = if x >= 0 {
        x + 50_000
    } else {
        x - 50_000
    };
    let mag: i64 = if shifted >= 0 {
        shifted
    } else {
        -shifted
    };
    let b: i64 = mag / 100_000;
    let bucket: i64 = if shifted >= 0 {
        b
    } else {
        -b
    };
    if bucket < 0 {
        0
    } else if bucket > 65_535 {
        65_535
    } else {
        bucket as u64
    }
}

/// Fold one value into the running fingerprint, executably.
pub fn fp_step_exec(h: u64, v: u64) -> (r: u64)
    ensures
        r == fp_step(h, v),
{
    let mixed: u64 = h ^ v;
    let wide: u128 = mixed as u128 * 0x0000_0100_0000_01B3u128;
    wide as u64
}

/// Fold one rectangle into the running fingerprint.
pub fn fp_rect_exec(h: u64, r: &Rect) -> (out: u64)
    requires
        -2_000_000_000_000i64 <= r.x0 <= 2_000_000_000_000i64,
        -2_000_000_000_000i64 <= r.y0 <= 2_000_000_000_000i64,
        -2_000_000_000_000i64 <= r.x1 <= 2_000_000_000_000i64,
        -2_000_000_000_000i64 <= r.y1 <= 2_000_000_000_000i64,
    ensures
        out == fp_rect(h, *r),
{
    let a = fp_step_exec(h, quantize_exec(r.x0));
    let b = fp_step_exec(a, quantize_exec(r.y0));
    let c = fp_step_exec(b, quantize_exec(r.x1));
    fp_step_exec(c, quantize_exec(r.y1))
}

/// The hitbox rectangles consumed for input regions: track hitboxes in
/// order, then icon hitboxes.
pub open spec fn region_rects(it: InteractionState) -> Seq<Rect> {
    it.track_hitboxes@.map_values(|t: TrackHitbox| t.rect) + it.icon_hitboxes@.map_values(
        |h: IconHitbox| h.rect,
    )
}

/// Recompute the hitbox fingerprint; when it differs from the stored
/// one, return the rectangles for a fresh input region and remember the
/// new fingerprint.  An unchanged fingerprint means no update.
pub fn update_input_region(it: &mut InteractionState) -> (r: Option<Vec<Rect>>)
    requires
        crate::interaction::interaction_wf(*old(it)),
    ensures
        crate::interaction::interaction_wf(*final(it)),
        ({
            let hash = fp_rects(0, region_rects(*old(it)));
            &&& final(it).last_hitbox_hash == hash
            &&& (r is Some <==> hash != old(it).last_hitbox_hash)
            &&& r matches Some(rects) ==> rects@ == region_rects(*old(it))
            &&& *final(it) == (InteractionState {
                last_hitbox_hash: (hash as u64),
                ..*old(it)
            })
        }),
{
    let mut rects: Vec<Rect> = Vec::new();
    let mut i: usize = 0;
    while i < it.track_hitboxes.len()
        invariant
            crate::interaction::interaction_wf(*it),
            *it == *old(it),
            0 <= i <= it.track_hitboxes@.len(),
            rects@ == it.track_hitboxes@.map_values(|t: TrackHitbox| t.rect).take(i as int),
        decreases it.track_hitboxes@.len() - i,
    {
        rects.push(it.track_hitboxes[i].rect);
        proof {
            assert(rects@ =~= it.track_hitboxes@.map_values(|t: TrackHitbox| t.rect).take(
                i + 1,
            ));
        }
        i = i + 1;
    }
    proof {
        assert(rects@ =~= it.track_hitboxes@.map_values(|t: TrackHitbox| t.rect));
    }
    let ghost track_part = rects@;
    let mut j: usize = 0;
    while j < it.icon_hitboxes.len()
        invariant
            crate::interaction::interaction_wf(*it),
            *it == *old(it),
            0 <= j <= it.icon_hitboxes@.len(),
            rects@ == track_part + it.icon_hitboxes@.map_values(|h: IconHitbox| h.rect).take(
                j as int,
            ),
            track_part == it.track_hitboxes@.map_values(|t: TrackHitbox| t.rect),
        decreases it.icon_hitboxes@.len() - j,
    {
        rects.push(it.icon_hitboxes[j].rect);
        proof {
            assert(rects@ =~= track_part + it.icon_hitboxes@.map_values(
                |h: IconHitbox| h.rect,
            ).take(j + 1));
        }
        j = j + 1;
    }
    proof {
        assert(rects@ =~= region_rects(*it));
        assert forall|n: int|
            0 <= n < rects@.len() implies crate::interaction::rect_wf(#[trigger] rects@[n]) by {
            let tl = it.track_hitboxes@.len() as int;
            if n < tl {
                assert(rects@[n] == it.track_hitboxes@.map_values(|t: TrackHitbox| t.rect)[n]);
                assert(rects@[n] == it.track_hitboxes@[n].rect);
            } else {
                assert(rects@[n] == it.icon_hitboxes@.map_values(|h: IconHitbox| h.rect)[n - tl]);
                assert(rects@[n] == it.icon_hitboxes@[n - tl].rect);
            }
        }
    }
    let mut hash: u64 = 0;
    let mut k: usize = 0;
    while k < rects.len()
        invariant
            crate::interaction::interaction_wf(*it),
            *it == *old(it),
            0 <= k <= rects@.len(),
            rects@ == region_rects(*it),
            hash == fp_rects(0, rects@.take(k as int)),
            forall|n: int|
                0 <= n < rects@.len() ==> crate::interaction::rect_wf(#[trigger] rects@[n]),
        decreases rects@.len() - k,
    {
        proof {
            assert(rects@.take(k + 1).drop_last() =~= rects@.take(k as int));
            assert(rects@.take(k + 1).last() == rects@[k as int]);
        }
        hash = fp_rect_exec(hash, &rects[k]);
        k = k + 1;
    }
    proof {
        assert(rects@.take(rects@.len() as int) =~= rects@);
    }
    let changed = hash != it.last_hitbox_hash;
    it.last_hitbox_hash = hash;
    if changed {
        Some(rects)
    } else {
        None
    }
}

} // verus!
