//! A cache of rendered results, keyed by the layout they were rendered from,
//! that forgets what has not been asked for in a while.

use crate::text::{hex_text, key_text, push_hex, push_key};
use crate::tileset::{LoadedTilesetLayout, OverlaidLayout, OverlaidLayoutEntry, TilesetRef};
use vstd::prelude::*;
use vstd::string::StringExecFns;

verus! {

/// What a cached result was rendered from. Two keys name the same result
/// exactly when every source, base, size and selection in them agrees.
#[derive(Clone, Hash, Eq, PartialEq)]
pub enum TileCacheKey {
    /// The tiles of a graphics layout in the colours of one palette line.
    LoadedGfxLayout {
        gfx_layout: OverlaidLayout<TilesetRef>,
        palette_source: TilesetRef,
        palette_line: u8,
    },
    /// The blocks of a block-table layout.
    LoadedTilesetLayout { layout: LoadedTilesetLayout<TilesetRef> },
}

/// The contents of a key.
pub enum TileCacheKeyView {
    LoadedGfxLayout {
        gfx_layout: Seq<OverlaidLayoutEntry<TilesetRef>>,
        palette_source: TilesetRef,
        palette_line: u8,
    },
    LoadedTilesetLayout {
        gfx: Seq<OverlaidLayoutEntry<TilesetRef>>,
        tiletable: Seq<OverlaidLayoutEntry<TilesetRef>>,
        palette_source: TilesetRef,
    },
}

impl View for TileCacheKey {
    type V = TileCacheKeyView;

    open spec fn view(&self) -> TileCacheKeyView {
        match *self {
            TileCacheKey::LoadedGfxLayout { gfx_layout, palette_source, palette_line } => {
                TileCacheKeyView::LoadedGfxLayout {
                    gfx_layout: gfx_layout.entries@,
                    palette_source,
                    palette_line,
                }
            },
            TileCacheKey::LoadedTilesetLayout { layout } => TileCacheKeyView::LoadedTilesetLayout {
                gfx: layout.gfx.entries@,
                tiletable: layout.tiletable.entries@,
                palette_source: layout.palette_source,
            },
        }
    }
}

/// A handle as it is written in a texture name.
pub open spec fn handle_text(handle: TilesetRef) -> Seq<char> {
    key_text("TilesetRef"@, handle.idx, handle.version)
}

/// The name of a layout: the word `layout`, then for every entry its base in
/// hexadecimal and its source.
pub open spec fn layout_text(entries: Seq<OverlaidLayoutEntry<TilesetRef>>) -> Seq<char>
    decreases entries.len(),
{
    if entries.len() == 0 {
        "layout"@
    } else {
        layout_text(entries.drop_last()) + "-0x"@ + hex_text(entries.last().base as nat) + seq![
            '[',
        ] + handle_text(entries.last().tileset) + seq![']']
    }
}

fn push_handle(s: &mut String, handle: TilesetRef)
    ensures
        final(s)@ == old(s)@ + handle_text(handle),
{
    push_key(s, "TilesetRef", handle.idx, handle.version);
}

fn layout_name(layout: &OverlaidLayout<TilesetRef>) -> (s: String)
    ensures
        s@ == layout_text(layout.entries@),
{
    let mut s: String = String::from_str("layout");
    let mut n: usize = 0;
    assert(layout.entries@.take(0).len() == 0);
    while n < layout.entries.len()
        invariant
            n <= layout.entries@.len(),
            s@ == layout_text(layout.entries@.take(n as int)),
        decreases layout.entries@.len() - n,
    {
        let e = &layout.entries[n];
        let ghost before = s@;
        proof {
            reveal_strlit("[");
            reveal_strlit("]");
            let ghost head = layout.entries@.take(n + 1);
            assert(head.last() == layout.entries@[n as int]);
            assert(head.drop_last() =~= layout.entries@.take(n as int));
        }
        s.append("-0x");
        push_hex(&mut s, e.base as u64, 0);
        s.append("[");
        push_handle(&mut s, e.tileset);
        s.append("]");
        proof {
            assert(crate::text::zero_padded(hex_text(e.base as nat), 0) =~= hex_text(
                e.base as nat,
            ));
            assert(s@ =~= before + "-0x"@ + hex_text(e.base as nat) + seq!['['] + handle_text(
                e.tileset,
            ) + seq![']']);
        }
        n += 1;
    }
    assert(layout.entries@.take(n as int) =~= layout.entries@);
    s
}

fn same_entries(
    a: &Vec<OverlaidLayoutEntry<TilesetRef>>,
    b: &Vec<OverlaidLayoutEntry<TilesetRef>>,
) -> (r: bool)
    ensures
        r == (a@ == b@),
{
    if a.len() != b.len() {
        return false;
    }
    let mut n: usize = 0;
    while n < a.len()
        invariant
            a@.len() == b@.len(),
            n <= a@.len(),
            forall|j: int| 0 <= j < n ==> a@[j] == b@[j],
        decreases a@.len() - n,
    {
        let x = &a[n];
        let y = &b[n];
        if x.base != y.base || x.size != y.size || x.tileset != y.tileset {
            return false;
        }
        n += 1;
    }
    assert(a@ =~= b@);
    true
}

impl TileCacheKey {
    /// The text of the name that a texture of this key is given.
    pub open spec fn spec_texture_name(&self) -> Seq<char> {
        match *self {
            TileCacheKey::LoadedGfxLayout { gfx_layout, palette_source, palette_line } => {
                layout_text(gfx_layout.entries@) + "-pal"@ + hex_text(palette_line as nat) + seq![
                    '[',
                ] + handle_text(palette_source) + seq![']']
            },
            TileCacheKey::LoadedTilesetLayout { layout } => layout_text(layout.tiletable.entries@)
                + "-ttb"@,
        }
    }

    /// A descriptive name for the texture of this key. Different keys may have
    /// the same name.
    pub fn texture_name(&self) -> (r: String)
        ensures
            r@ == self.spec_texture_name(),
    {
        match self {
            TileCacheKey::LoadedGfxLayout { gfx_layout, palette_source, palette_line } => {
                proof {
                    reveal_strlit("[");
                    reveal_strlit("]");
                }
                let mut s: String = layout_name(gfx_layout);
                let ghost before = s@;
                s.append("-pal");
                push_hex(&mut s, *palette_line as u64, 0);
                s.append("[");
                push_handle(&mut s, *palette_source);
                s.append("]");
                proof {
                    assert(crate::text::zero_padded(hex_text(*palette_line as nat), 0) =~= hex_text(
                        *palette_line as nat,
                    ));
                    assert(s@ =~= before + "-pal"@ + hex_text(*palette_line as nat) + seq!['[']
                        + handle_text(*palette_source) + seq![']']);
                }
                s
            },
            TileCacheKey::LoadedTilesetLayout { layout } => {
                let mut s: String = layout_name(&layout.tiletable);
                s.append("-ttb");
                s
            },
        }
    }

    /// Whether two keys name the same result.
    pub fn same(&self, other: &TileCacheKey) -> (r: bool)
        ensures
            r == (self@ == other@),
    {
        match self {
            TileCacheKey::LoadedGfxLayout { gfx_layout, palette_source, palette_line } => match other {
                TileCacheKey::LoadedGfxLayout {
                    gfx_layout: other_layout,
                    palette_source: other_source,
                    palette_line: other_line,
                } => {
                    *palette_line == *other_line && *palette_source == *other_source
                        && same_entries(&gfx_layout.entries, &other_layout.entries)
                },
                TileCacheKey::LoadedTilesetLayout { .. } => false,
            },
            TileCacheKey::LoadedTilesetLayout { layout } => match other {
                TileCacheKey::LoadedGfxLayout { .. } => false,
                TileCacheKey::LoadedTilesetLayout { layout: other_layout } => {
                    layout.palette_source == other_layout.palette_source && same_entries(
                        &layout.gfx.entries,
                        &other_layout.gfx.entries,
                    ) && same_entries(&layout.tiletable.entries, &other_layout.tiletable.entries)
                },
            },
        }
    }
}

/// How many maintenance passes a result outlives its last use.
pub const MAX_AGE: u32 = 15;

/// How many maintenance passes lie between a use in epoch `last_use` and epoch
/// `epoch`, the epoch counter wrapping round.
pub open spec fn age(epoch: u32, last_use: u32) -> u32 {
    epoch.wrapping_sub(last_use)
}

/// What a cache holds: the current epoch and, for every key, the epoch of its
/// last use and its result.
pub struct CacheState<V> {
    pub epoch: u32,
    pub entries: Map<TileCacheKeyView, (u32, V)>,
}

impl<V> CacheState<V> {
    /// Whether no result is older than a cache keeps it.
    pub open spec fn fresh(self) -> bool {
        forall|k: TileCacheKeyView| #[trigger]
            self.entries.contains_key(k) ==> age(self.epoch, self.entries[k].0) <= MAX_AGE
    }

    /// The state after key `k` was given the result `value` in this epoch.
    pub open spec fn stored(self, k: TileCacheKeyView, value: V) -> CacheState<V> {
        CacheState { epoch: self.epoch, entries: self.entries.insert(k, (self.epoch, value)) }
    }

    /// The state after the result of key `k` was used in this epoch.
    pub open spec fn touched(self, k: TileCacheKeyView) -> CacheState<V> {
        self.stored(k, self.entries[k].1)
    }

    /// The state after one maintenance pass: the epoch has advanced by one, and
    /// the results that are then more than `MAX_AGE` epochs old are gone.
    pub open spec fn maintained(self) -> CacheState<V> {
        let next = self.epoch.wrapping_add(1);
        CacheState {
            epoch: next,
            entries: Map::new(
                |k: TileCacheKeyView|
                    self.entries.contains_key(k) && age(next, self.entries[k].0) <= MAX_AGE,
                |k: TileCacheKeyView| self.entries[k],
            ),
        }
    }

    /// The state after `n` maintenance passes in a row.
    pub open spec fn maintained_times(self, n: nat) -> CacheState<V>
        decreases n,
    {
        if n == 0 {
            self
        } else {
            self.maintained_times((n - 1) as nat).maintained()
        }
    }
}

/// A result that was stored is found under its key, and using it in the epoch
/// in which it was stored changes nothing: a second request for the same key
/// has no work to do.
pub proof fn lemma_stored_is_found<V>(state: CacheState<V>, k: TileCacheKeyView, value: V)
    ensures
        state.stored(k, value).entries.contains_key(k),
        state.stored(k, value).entries[k] == (state.epoch, value),
        state.stored(k, value).touched(k) == state.stored(k, value),
        state.fresh() ==> state.stored(k, value).fresh(),
{
    let after = state.stored(k, value);
    assert(after.touched(k).entries =~= after.entries);
    assert(age(state.epoch, state.epoch) == 0);
}

/// A result that is still there after `n` maintenance passes in a row was used
/// no more than `MAX_AGE - n` epochs before them, and is unchanged.
pub proof fn lemma_survivor<V>(state: CacheState<V>, k: TileCacheKeyView, n: nat)
    requires
        state.fresh(),
        state.maintained_times(n).entries.contains_key(k),
    ensures
        state.entries.contains_key(k),
        state.maintained_times(n).entries[k] == state.entries[k],
        state.maintained_times(n).epoch as int == (state.epoch + n) % 0x1_0000_0000,
        age(state.epoch, state.entries[k].0) + n <= MAX_AGE,
    decreases n,
{
    if n > 0 {
        let before = state.maintained_times((n - 1) as nat);
        assert(before.maintained().entries.contains_key(k));
        assert(before.entries.contains_key(k));
        lemma_survivor(state, k, (n - 1) as nat);
    }
}

/// A result that is not used during sixteen maintenance passes in a row is gone
/// after them.
pub proof fn lemma_evicted_after_sixteen<V>(state: CacheState<V>, k: TileCacheKeyView)
    requires
        state.fresh(),
    ensures
        !state.maintained_times(16).entries.contains_key(k),
{
    if state.maintained_times(16).entries.contains_key(k) {
        lemma_survivor(state, k, 16);
    }
}

/// A result that was used in the current epoch is still there after fifteen
/// maintenance passes in a row.
pub proof fn lemma_kept_for_fifteen<V>(state: CacheState<V>, k: TileCacheKeyView, n: nat)
    requires
        state.entries.contains_key(k),
        state.entries[k].0 == state.epoch,
        n <= 15,
    ensures
        state.maintained_times(n).entries.contains_key(k),
        state.maintained_times(n).entries[k] == state.entries[k],
        state.maintained_times(n).epoch as int == (state.epoch + n) % 0x1_0000_0000,
    decreases n,
{
    if n > 0 {
        lemma_kept_for_fifteen(state, k, (n - 1) as nat);
    }
}

struct CacheSlot<V> {
    key: TileCacheKey,
    last_use: u32,
    value: V,
}

/// The cache. A result is stored under a key with the epoch of its last use;
/// a maintenance pass advances the epoch and drops what is too old.
pub struct TileTextureCache<V> {
    /// Incremented every maintenance pass.
    update_counter: u32,
    entries: Vec<CacheSlot<V>>,
}

impl<V> TileTextureCache<V> {
    spec fn keys(&self) -> Seq<TileCacheKeyView> {
        Seq::new(self.entries@.len(), |i: int| self.entries@[i].key@)
    }

    /// The invariant of the cache: no key is stored twice and no result is
    /// older than the cache keeps it.
    pub closed spec fn wf(&self) -> bool {
        &&& self.keys().no_duplicates()
        &&& forall|i: int|
            0 <= i < self.entries@.len() ==> age(
                self.update_counter,
                (#[trigger] self.entries@[i]).last_use,
            ) <= MAX_AGE
    }

    proof fn lemma_slot(&self, i: int)
        requires
            self.keys().no_duplicates(),
            0 <= i < self.entries@.len(),
        ensures
            self@.entries.contains_key(self.entries@[i].key@),
            self@.entries[self.entries@[i].key@] == (
                self.entries@[i].last_use,
                self.entries@[i].value,
            ),
    {
        let k = self.entries@[i].key@;
        assert(self.keys()[i] == k);
        let j = self.keys().index_of(k);
        assert(self.keys()[j] == k);
    }

    proof fn lemma_absent(&self, k: TileCacheKeyView)
        requires
            forall|i: int| 0 <= i < self.entries@.len() ==> (#[trigger] self.entries@[i]).key@ != k,
        ensures
            !self@.entries.contains_key(k),
    {
        if self.keys().contains(k) {
            let j = choose|j: int| 0 <= j < self.keys().len() && self.keys()[j] == k;
            assert(self.entries@[j].key@ == k);
        }
    }

    /// The state of a well-formed cache is fresh.
    pub proof fn lemma_wf_fresh(&self)
        requires
            self.wf(),
        ensures
            self@.fresh(),
    {
        assert forall|k: TileCacheKeyView| #[trigger]
            self@.entries.contains_key(k) implies age(self@.epoch, self@.entries[k].0)
            <= MAX_AGE by {
            let j = choose|j: int| 0 <= j < self.keys().len() && self.keys()[j] == k;
            self.lemma_slot(j);
        }
    }
}

impl<V> View for TileTextureCache<V> {
    type V = CacheState<V>;

    closed spec fn view(&self) -> CacheState<V> {
        CacheState {
            epoch: self.update_counter,
            entries: Map::new(
                |k: TileCacheKeyView| self.keys().contains(k),
                |k: TileCacheKeyView|
                    (
                        self.entries@[self.keys().index_of(k)].last_use,
                        self.entries@[self.keys().index_of(k)].value,
                    ),
            ),
        }
    }
}

impl<V> Default for TileTextureCache<V> {
    fn default() -> (r: Self)
        ensures
            r.wf(),
            r@.epoch == 0,
            r@.entries == Map::<TileCacheKeyView, (u32, V)>::empty(),
    {
        Self::new()
    }
}

impl<V> TileTextureCache<V> {
    /// An empty cache in epoch 0.
    pub fn new() -> (r: Self)
        ensures
            r.wf(),
            r@.epoch == 0,
            r@.entries == Map::<TileCacheKeyView, (u32, V)>::empty(),
    {
        let r = TileTextureCache { update_counter: 0, entries: Vec::new() };
        assert(r@.entries =~= Map::<TileCacheKeyView, (u32, V)>::empty());
        r
    }

    /// The number of results in the cache.
    pub fn len(&self) -> (n: usize)
        requires
            self.wf(),
        ensures
            n == self@.entries.len(),
            self@.entries.dom().finite(),
    {
        proof {
            self.keys().unique_seq_to_set();
            assert(self@.entries.dom() =~= self.keys().to_set());
        }
        self.entries.len()
    }

    fn find(&self, key: &TileCacheKey) -> (r: Option<usize>)
        ensures
            match r {
                Some(i) => i < self.entries@.len() && self.entries@[i as int].key@ == key@,
                None => forall|i: int|
                    0 <= i < self.entries@.len() ==> (#[trigger] self.entries@[i]).key@ != key@,
            },
    {
        let mut n: usize = 0;
        while n < self.entries.len()
            invariant
                n <= self.entries@.len(),
                forall|i: int| 0 <= i < n ==> (#[trigger] self.entries@[i]).key@ != key@,
            decreases self.entries@.len() - n,
        {
            if self.entries[n].key.same(key) {
                return Some(n);
            }
            n += 1;
        }
        None
    }

    /// Stamps slot `i` with the current epoch.
    fn touch(&mut self, i: usize) -> (r: &V)
        requires
            old(self).wf(),
            i < old(self).entries@.len(),
        ensures
            final(self).wf(),
            final(self)@ == old(self)@.touched(old(self).entries@[i as int].key@),
            *r == old(self)@.entries[old(self).entries@[i as int].key@].1,
    {
        let now: u32 = self.update_counter;
        self.entries[i].last_use = now;
        proof {
            let k = old(self).entries@[i as int].key@;
            assert(self.entries@.len() == old(self).entries@.len());
            assert(self.entries@[i as int].key == old(self).entries@[i as int].key);
            assert(self.entries@[i as int].value == old(self).entries@[i as int].value);
            assert(self.entries@[i as int].last_use == now);
            assert forall|j: int| 0 <= j < self.entries@.len() && j != i implies #[trigger] self.entries@[j]
                == old(self).entries@[j] by {}
            assert(self.keys() =~= old(self).keys());
            old(self).lemma_slot(i as int);
            assert(age(now, now) == 0);
            assert(self@.entries =~= old(self)@.touched(k).entries) by {
                assert forall|q: TileCacheKeyView| self@.entries.contains_key(q) implies #[trigger] self@.entries[q]
                    == old(self)@.touched(k).entries[q] by {
                    let j = self.keys().index_of(q);
                    assert(self.keys()[j] == q);
                    assert(old(self).keys()[j] == q);
                    assert(old(self).keys()[i as int] == k);
                    self.lemma_slot(j);
                    old(self).lemma_slot(j);
                }
            }
        }
        &self.entries[i].value
    }

    /// The result stored under `key`, if there is one; its use is recorded.
    pub fn get(&mut self, key: &TileCacheKey) -> (r: Option<&V>)
        requires
            old(self).wf(),
        ensures
            final(self).wf(),
            old(self)@.entries.contains_key(key@) ==> r == Some(&old(self)@.entries[key@].1)
                && final(self)@ == old(self)@.touched(key@),
            !old(self)@.entries.contains_key(key@) ==> r is None && final(self)@ == old(self)@,
    {
        match self.find(key) {
            Some(i) => {
                proof {
                    self.lemma_slot(i as int);
                }
                Some(self.touch(i))
            },
            None => {
                proof {
                    self.lemma_absent(key@);
                }
                None
            },
        }
    }

    /// Stores `value` under `key` unless the key has a result already; either
    /// way the key's result is then the one returned, and its use is recorded.
    pub fn insert(&mut self, key: TileCacheKey, value: V) -> (r: &V)
        requires
            old(self).wf(),
        ensures
            final(self).wf(),
            old(self)@.entries.contains_key(key@) ==> *r == old(self)@.entries[key@].1
                && final(self)@ == old(self)@.touched(key@),
            !old(self)@.entries.contains_key(key@) ==> *r == value
                && final(self)@ == old(self)@.stored(key@, value),
    {
        match self.find(&key) {
            Some(i) => {
                proof {
                    self.lemma_slot(i as int);
                }
                self.touch(i)
            },
            None => {
                proof {
                    self.lemma_absent(key@);
                }
                let now: u32 = self.update_counter;
                let ghost k = key@;
                self.entries.push(CacheSlot { key, last_use: now, value });
                let last: usize = self.entries.len() - 1;
                proof {
                    assert(self.keys() =~= old(self).keys().push(k));
                    assert(!old(self).keys().contains(k));
                    assert(self.keys().no_duplicates()) by {
                        assert forall|a: int, b: int|
                            0 <= a < self.keys().len() && 0 <= b < self.keys().len() && a
                                != b implies self.keys()[a] != self.keys()[b] by {
                            if a < old(self).keys().len() && b < old(self).keys().len() {
                                assert(old(self).keys()[a] != old(self).keys()[b]);
                            } else if a < old(self).keys().len() {
                                assert(old(self).keys()[a] == self.keys()[a]);
                            } else {
                                assert(old(self).keys()[b] == self.keys()[b]);
                            }
                        }
                    }
                    assert(self@.entries =~= old(self)@.stored(k, value).entries) by {
                        assert forall|q: TileCacheKeyView| self@.entries.contains_key(q) implies #[trigger] self@.entries[q]
                            == old(self)@.stored(k, value).entries[q] by {
                            let j = self.keys().index_of(q);
                            assert(self.keys()[j] == q);
                            self.lemma_slot(j);
                            if j < old(self).entries@.len() {
                                old(self).lemma_slot(j);
                            }
                        }
                        assert forall|q: TileCacheKeyView|
                            old(self)@.stored(k, value).entries.contains_key(
                                q,
                            ) implies #[trigger] self@.entries.contains_key(q) by {
                            if q != k {
                                let j = old(self).keys().index_of(q);
                                assert(old(self).keys()[j] == q);
                                assert(self.keys()[j] == q);
                            } else {
                                assert(self.keys()[last as int] == k);
                            }
                        }
                    }
                }
                &self.entries[last].value
            },
        }
    }

    /// Drops the result stored under `key`, if there is one.
    pub fn invalidate(&mut self, key: &TileCacheKey)
        requires
            old(self).wf(),
        ensures
            final(self).wf(),
            final(self)@.epoch == old(self)@.epoch,
            final(self)@.entries == old(self)@.entries.remove(key@),
    {
        match self.find(key) {
            Some(i) => {
                self.entries.remove(i);
                proof {
                    old(self).lemma_slot(i as int);
                    self.lemma_removed(old(self), i as int);
                }
            },
            None => {
                proof {
                    self.lemma_absent(key@);
                    assert(self@.entries =~= old(self)@.entries.remove(key@));
                }
            },
        }
    }

    /// What removing slot `i` from `before` leaves.
    proof fn lemma_removed(&self, before: &Self, i: int)
        requires
            before.keys().no_duplicates(),
            0 <= i < before.entries@.len(),
            self.entries@ == before.entries@.remove(i),
            self.update_counter == before.update_counter,
        ensures
            self.keys().no_duplicates(),
            before.wf() ==> self.wf(),
            self@.epoch == before@.epoch,
            self@.entries == before@.entries.remove(before.entries@[i].key@),
    {
        let k = before.entries@[i].key@;
        let shift = |j: int|
            if j < i {
                j
            } else {
                j + 1
            };
        assert forall|j: int| 0 <= j < self.entries@.len() implies #[trigger] self.entries@[j]
            == before.entries@[shift(j)] by {}
        assert forall|j: int| 0 <= j < self.keys().len() implies #[trigger] self.keys()[j]
            == before.keys()[shift(j)] by {
            assert(self.entries@[j] == before.entries@[shift(j)]);
        }
        assert(self.keys().no_duplicates()) by {
            assert forall|a: int, b: int|
                0 <= a < self.keys().len() && 0 <= b < self.keys().len() && a
                    != b implies self.keys()[a] != self.keys()[b] by {
                assert(self.keys()[a] == before.keys()[shift(a)]);
                assert(self.keys()[b] == before.keys()[shift(b)]);
            }
        }
        if before.wf() {
            assert forall|j: int| 0 <= j < self.entries@.len() implies age(
                self.update_counter,
                (#[trigger] self.entries@[j]).last_use,
            ) <= MAX_AGE by {
                assert(self.entries@[j] == before.entries@[shift(j)]);
            }
        }
        assert(self@.entries =~= before@.entries.remove(k)) by {
            assert forall|q: TileCacheKeyView| self@.entries.contains_key(q) implies q != k
                && before@.entries.contains_key(q) && #[trigger] self@.entries[q]
                == before@.entries[q] by {
                let j = self.keys().index_of(q);
                assert(self.keys()[j] == q);
                assert(before.keys()[shift(j)] == q);
                assert(before.keys()[i] == k);
                self.lemma_slot(j);
                before.lemma_slot(shift(j));
                assert(self.entries@[j] == before.entries@[shift(j)]);
            }
            assert forall|q: TileCacheKeyView|
                before@.entries.contains_key(q) && q != k implies #[trigger] self@.entries.contains_key(
                q,
            ) by {
                let j = before.keys().index_of(q);
                assert(before.keys()[j] == q);
                assert(before.keys()[i] == k);
                if j < i {
                    assert(self.keys()[j] == before.keys()[shift(j)]);
                } else {
                    assert(self.keys()[j - 1] == before.keys()[shift(j - 1)]);
                }
            }
        }
    }
}

impl<V> TileTextureCache<V> {
    /// The result stored under `key`; where there is none, `f` is called to
    /// make it, and it is stored. Either way the key's use is recorded. `f`
    /// need not accept the key where the key has a result already.
    pub fn get_or_insert_with<F: FnOnce(&TileCacheKey) -> V>(&mut self, key: TileCacheKey, f: F) -> (r:
        &V)
        requires
            old(self).wf(),
            !old(self)@.entries.contains_key(key@) ==> f.requires((&key,)),
        ensures
            final(self).wf(),
            old(self)@.entries.contains_key(key@) ==> *r == old(self)@.entries[key@].1 && final(self)@
                == old(self)@.touched(key@),
            !old(self)@.entries.contains_key(key@) ==> f.ensures((&key,), *r)
                && final(self)@ == old(self)@.stored(key@, *r),
    {
        match self.find(&key) {
            Some(i) => {
                proof {
                    self.lemma_slot(i as int);
                }
                self.touch(i)
            },
            None => {
                proof {
                    self.lemma_absent(key@);
                }
                let value: V = f(&key);
                self.insert(key, value)
            },
        }
    }

    /// One maintenance pass: the epoch advances by one, and every result whose
    /// last use is then more than `MAX_AGE` epochs back is dropped.
    pub fn update(&mut self)
        requires
            old(self).wf(),
        ensures
            final(self).wf(),
            final(self)@ == old(self)@.maintained(),
    {
        let now: u32 = self.update_counter.wrapping_add(1);
        self.update_counter = now;
        let mut i: usize = 0;
        while i < self.entries.len()
            invariant
                now == old(self).update_counter.wrapping_add(1),
                self.update_counter == now,
                self.keys().no_duplicates(),
                i <= self.entries@.len(),
                forall|j: int|
                    0 <= j < i ==> age(now, (#[trigger] self.entries@[j]).last_use) <= MAX_AGE,
                forall|q: TileCacheKeyView| #[trigger]
                    self@.entries.contains_key(q) ==> old(self)@.entries.contains_key(q)
                        && self@.entries[q] == old(self)@.entries[q],
                forall|q: TileCacheKeyView|
                    old(self)@.entries.contains_key(q) && age(now, old(self)@.entries[q].0)
                        <= MAX_AGE ==> #[trigger] self@.entries.contains_key(q),
            decreases self.entries@.len() - i,
        {
            if now.wrapping_sub(self.entries[i].last_use) > MAX_AGE {
                let ghost before = *self;
                self.entries.remove(i);
                proof {
                    before.lemma_slot(i as int);
                    self.lemma_removed(&before, i as int);
                }
            } else {
                i += 1;
            }
        }
        proof {
            assert(self@.entries =~= old(self)@.maintained().entries) by {
                assert forall|q: TileCacheKeyView| self@.entries.contains_key(q) implies age(
                    now,
                    old(self)@.entries[q].0,
                ) <= MAX_AGE by {
                    let j = self.keys().index_of(q);
                    assert(self.keys()[j] == q);
                    self.lemma_slot(j);
                }
            }
        }
    }
}

} // verus!
