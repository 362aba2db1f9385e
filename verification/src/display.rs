//! The order in which tilesets are listed, and the shared tileset that is
//! offered first.

use crate::order::compare_text;
use crate::tileset::{display_sign, lemma_display_order, Tileset, TilesetKind, TilesetRef};
use std::cmp::Ordering;
use vstd::prelude::*;

verus! {

fn rank_of_kind(kind: TilesetKind) -> (r: u8)
    ensures
        r == crate::tileset::kind_rank(kind),
{
    match kind {
        TilesetKind::Sce => 0,
        TilesetKind::Cre => 1,
    }
}

/// The sign of the order of two tilesets in a list.
fn display_sign_of(a: &Tileset, b: &Tileset) -> (r: i8)
    ensures
        r == display_sign(a, b),
{
    let ka: u8 = rank_of_kind(a.kind);
    let kb: u8 = rank_of_kind(b.kind);
    if ka < kb {
        return -1;
    }
    if ka > kb {
        return 1;
    }
    match (a.index, b.index) {
        (None, Some(_)) => {
            return -1;
        },
        (Some(_), None) => {
            return 1;
        },
        (Some(x), Some(y)) => {
            if x < y {
                return -1;
            }
            if x > y {
                return 1;
            }
        },
        (None, None) => {},
    }
    proof {
        crate::text::lemma_text_order_equal(a.name@, b.name@);
    }
    match compare_text(a.name.as_str(), b.name.as_str()) {
        Ordering::Less => {
            return -1;
        },
        Ordering::Greater => {
            return 1;
        },
        Ordering::Equal => {},
    }
    if a.handle.idx < b.handle.idx {
        -1
    } else if a.handle.idx > b.handle.idx {
        1
    } else if a.handle.version < b.handle.version {
        -1
    } else if a.handle.version > b.handle.version {
        1
    } else {
        0
    }
}

impl Tileset {
    /// How this tileset stands to `o` in a list of tilesets: by kind, then by
    /// index, then by name, then by handle.
    pub fn display_cmp(&self, o: &Self) -> (r: Ordering)
        ensures
            r is Less <==> display_sign(self, o) < 0,
            r is Equal <==> display_sign(self, o) == 0,
            r is Greater <==> display_sign(self, o) > 0,
    {
        let sign: i8 = display_sign_of(self, o);
        if sign < 0 {
            Ordering::Less
        } else if sign > 0 {
            Ordering::Greater
        } else {
            Ordering::Equal
        }
    }
}

/// Whether `tilesets[i]` is the shared tileset that is offered first: the one
/// that was used last, where a tileset has that handle, and else the shared
/// tileset that comes first in the list order.
pub open spec fn is_default_cre(
    last_used: Option<TilesetRef>,
    tilesets: Seq<&Tileset>,
    i: int,
) -> bool {
    &&& 0 <= i < tilesets.len()
    &&& if exists|j: int| 0 <= j < tilesets.len() && last_used == Some((#[trigger] tilesets[j]).handle) {
        &&& last_used == Some(tilesets[i].handle)
        &&& forall|j: int| 0 <= j < i ==> last_used != Some((#[trigger] tilesets[j]).handle)
    } else {
        &&& tilesets[i].kind == TilesetKind::Cre
        &&& forall|j: int|
            0 <= j < tilesets.len() && (#[trigger] tilesets[j]).kind == TilesetKind::Cre
                ==> display_sign(tilesets[i], tilesets[j]) <= 0
        &&& forall|j: int|
            0 <= j < i && (#[trigger] tilesets[j]).kind == TilesetKind::Cre ==> display_sign(
                tilesets[i],
                tilesets[j],
            ) < 0
    }
}

/// Picks the shared tileset that is offered first, by its position in
/// `tilesets`. There is none where no tileset has the handle that was used last
/// and no tileset is a shared one.
pub fn find_default_cre(last_used: Option<TilesetRef>, tilesets: &Vec<&Tileset>) -> (r: Option<usize>)
    ensures
        match r {
            Some(i) => is_default_cre(last_used, tilesets@, i as int),
            None => forall|j: int|
                0 <= j < tilesets@.len() ==> last_used != Some((#[trigger] tilesets@[j]).handle)
                    && tilesets@[j].kind != TilesetKind::Cre,
        },
{
    if let Some(handle) = last_used {
        let mut n: usize = 0;
        while n < tilesets.len()
            invariant
                n <= tilesets@.len(),
                last_used == Some(handle),
                forall|j: int| 0 <= j < n ==> (#[trigger] tilesets@[j]).handle != handle,
            decreases tilesets@.len() - n,
        {
            if tilesets[n].handle == handle {
                return Some(n);
            }
            n += 1;
        }
    }
    let mut best: Option<usize> = None;
    let mut n: usize = 0;
    while n < tilesets.len()
        invariant
            n <= tilesets@.len(),
            forall|j: int|
                0 <= j < tilesets@.len() ==> last_used != Some((#[trigger] tilesets@[j]).handle),
            match best {
                Some(i) => {
                    &&& i < n
                    &&& tilesets@[i as int].kind == TilesetKind::Cre
                    &&& forall|j: int|
                        0 <= j < n && (#[trigger] tilesets@[j]).kind == TilesetKind::Cre
                            ==> display_sign(tilesets@[i as int], tilesets@[j]) <= 0
                    &&& forall|j: int|
                        0 <= j < i && (#[trigger] tilesets@[j]).kind == TilesetKind::Cre
                            ==> display_sign(tilesets@[i as int], tilesets@[j]) < 0
                },
                None => forall|j: int|
                    0 <= j < n ==> (#[trigger] tilesets@[j]).kind != TilesetKind::Cre,
            },
        decreases tilesets@.len() - n,
    {
        let candidate: &Tileset = tilesets[n];
        if rank_of_kind(candidate.kind) == 1 {
            match best {
                Some(i) => {
                    let sign: i8 = display_sign_of(candidate, tilesets[i]);
                    proof {
                        lemma_display_order(candidate, tilesets@[i as int], candidate);
                        lemma_display_order(candidate, candidate, candidate);
                    }
                    if sign < 0 {
                        proof {
                            assert forall|j: int|
                                0 <= j < n + 1 && (#[trigger] tilesets@[j]).kind
                                    == TilesetKind::Cre implies display_sign(
                                candidate,
                                tilesets@[j],
                            ) <= 0 by {
                                if j < n {
                                    lemma_display_order(candidate, tilesets@[i as int], tilesets@[j]);
                                }
                            }
                            assert forall|j: int|
                                0 <= j < n && (#[trigger] tilesets@[j]).kind
                                    == TilesetKind::Cre implies display_sign(
                                candidate,
                                tilesets@[j],
                            ) < 0 by {
                                lemma_display_order(candidate, tilesets@[i as int], tilesets@[j]);
                                lemma_display_order(tilesets@[j], candidate, tilesets@[i as int]);
                                lemma_display_order(tilesets@[j], tilesets@[i as int], candidate);
                                lemma_display_order(tilesets@[i as int], tilesets@[j], candidate);
                            }
                        }
                        best = Some(n);
                    }
                },
                None => {
                    proof {
                        lemma_display_order(candidate, candidate, candidate);
                    }
                    best = Some(n);
                },
            }
        }
        n += 1;
    }
    best
}

} // verus!
