//! Which surfaces a compositor is told of.
//!
//! A scene lists its compositor surfaces. The compositor hears of a surface that
//! is gone since the last frame, and of one that is new or has moved. Where a
//! list names a surface twice, the later entry counts.
use crate::single::Single;
use vstd::prelude::*;

verus! {

/// Where a surface shows, as two corners.
#[derive(Clone, Copy, Debug, PartialEq, Eq, Structural)]
pub struct Bounds {
    pub x0: Single,
    pub y0: Single,
    pub x1: Single,
    pub y1: Single,
}

/// A compositor surface of a scene.
#[derive(Clone, Copy, Debug, PartialEq, Eq, Structural)]
pub struct Surface {
    pub key: u64,
    pub bounds: Bounds,
}

/// The surfaces of a list, by their keys.
pub open spec fn shown(list: Seq<Surface>) -> Map<u64, Bounds>
    decreases list.len(),
{
    if list.len() == 0 {
        Map::empty()
    } else {
        shown(list.drop_last()).insert(list.last().key, list.last().bounds)
    }
}

/// Whether the entry at `i` counts: no later one has its key.
pub open spec fn counts(list: Seq<Surface>, i: int) -> bool {
    forall|j: int| i < j < list.len() ==> (#[trigger] list[j]).key != list[i].key
}

/// Whether the entry at `i` is of a surface that is gone from `now`.
pub open spec fn goes(last: Seq<Surface>, now: Seq<Surface>, i: int) -> bool {
    counts(last, i) && !shown(now).contains_key(last[i].key)
}

/// Whether the entry at `i` is of a surface that is new since `last` or shows
/// elsewhere.
pub open spec fn comes(last: Seq<Surface>, now: Seq<Surface>, i: int) -> bool {
    counts(now, i) && !(shown(last).contains_key(now[i].key) && shown(last)[now[i].key]
        == now[i].bounds)
}

/// The keys of the surfaces that are gone, among the first `n` of the last
/// frame.
pub open spec fn destroyed(last: Seq<Surface>, now: Seq<Surface>, n: nat) -> Seq<u64>
    decreases n,
{
    if n == 0 {
        Seq::empty()
    } else {
        let before = destroyed(last, now, (n - 1) as nat);
        if goes(last, now, n - 1) {
            before.push(last[n - 1].key)
        } else {
            before
        }
    }
}

/// The surfaces that are new or show elsewhere, among the first `n` of a frame.
pub open spec fn declared(last: Seq<Surface>, now: Seq<Surface>, n: nat) -> Seq<Surface>
    decreases n,
{
    if n == 0 {
        Seq::empty()
    } else {
        let before = declared(last, now, (n - 1) as nat);
        if comes(last, now, n - 1) {
            before.push(now[n - 1])
        } else {
            before
        }
    }
}

/// The keys of all surfaces that are gone since the last frame, in its order.
pub open spec fn destroys(last: Seq<Surface>, now: Seq<Surface>) -> Seq<u64> {
    destroyed(last, now, last.len())
}

/// All surfaces that are new or show elsewhere, in the frame's order.
pub open spec fn declares(last: Seq<Surface>, now: Seq<Surface>) -> Seq<Surface> {
    declared(last, now, now.len())
}

/// An entry that counts says where its surface shows.
proof fn lemma_counting_entry(list: Seq<Surface>, i: int)
    requires
        0 <= i < list.len(),
        counts(list, i),
    ensures
        shown(list).contains_key(list[i].key),
        shown(list)[list[i].key] == list[i].bounds,
    decreases list.len(),
{
    if i < list.len() - 1 {
        let shorter = list.drop_last();
        assert(list[list.len() - 1].key != list[i].key);
        assert forall|j: int| i < j < shorter.len() implies (#[trigger] shorter[j]).key
            != shorter[i].key by {
            assert(list[j].key != list[i].key);
        }
        lemma_counting_entry(shorter, i);
    }
}

/// A surface that is shown has an entry that counts.
proof fn lemma_shown_entry(list: Seq<Surface>, key: u64) -> (i: int)
    requires
        shown(list).contains_key(key),
    ensures
        0 <= i < list.len(),
        list[i].key == key,
        counts(list, i),
    decreases list.len(),
{
    if list.last().key == key {
        list.len() - 1
    } else {
        let i = lemma_shown_entry(list.drop_last(), key);
        assert forall|j: int| i < j < list.len() implies (#[trigger] list[j]).key
            != list[i].key by {
            if j < list.len() - 1 {
                assert(list.drop_last()[j].key != key);
            }
        }
        i
    }
}

/// A list that has no entry for a key does not show it.
proof fn lemma_unlisted(list: Seq<Surface>, key: u64)
    requires
        forall|j: int| 0 <= j < list.len() ==> (#[trigger] list[j]).key != key,
    ensures
        !shown(list).contains_key(key),
{
    if shown(list).contains_key(key) {
        let i = lemma_shown_entry(list, key);
    }
}

/// Whether one of the first `n` entries of the last frame is of this surface and
/// goes.
spec fn gone(last: Seq<Surface>, now: Seq<Surface>, n: nat, key: u64) -> bool {
    exists|i: int| 0 <= i < n && #[trigger] goes(last, now, i) && last[i].key == key
}

/// Whether one of the first `n` entries of a frame is this surface and comes.
spec fn fresh(last: Seq<Surface>, now: Seq<Surface>, n: nat, surface: Surface) -> bool {
    exists|i: int| 0 <= i < n && #[trigger] comes(last, now, i) && now[i] == surface
}

/// Each key of [`destroyed`] comes from an entry that goes, and each such entry
/// is in it.
proof fn lemma_destroyed(last: Seq<Surface>, now: Seq<Surface>, n: nat)
    requires
        n <= last.len(),
    ensures
        ({
            let keys = destroyed(last, now, n);
            &&& forall|p: int|
                0 <= p < keys.len() ==> gone(last, now, n, #[trigger] keys[p])
            &&& forall|i: int|
                0 <= i < n && #[trigger] goes(last, now, i) ==> keys.contains(last[i].key)
            &&& forall|p: int, q: int| 0 <= p < q < keys.len() ==> keys[p] != keys[q]
        }),
    decreases n,
{
    if n > 0 {
        let m = (n - 1) as nat;
        lemma_destroyed(last, now, m);
        let before = destroyed(last, now, m);
        let keys = destroyed(last, now, n);
        assert forall|p: int| 0 <= p < keys.len() implies gone(
            last,
            now,
            n,
            #[trigger] keys[p],
        ) by {
            if p < before.len() {
                assert(gone(last, now, m, before[p]));
            } else {
                assert(goes(last, now, m as int));
            }
        }
        assert forall|i: int| 0 <= i < n && #[trigger] goes(last, now, i) implies keys.contains(
            last[i].key,
        ) by {
            if i < m {
                let p = choose|p: int| 0 <= p < before.len() && before[p] == last[i].key;
                assert(keys[p] == last[i].key);
            } else {
                assert(keys[before.len() as int] == last[i].key);
            }
        }
        assert forall|p: int, q: int| 0 <= p < q < keys.len() implies keys[p] != keys[q] by {
            if q == before.len() {
                assert(gone(last, now, m, before[p]));
                let i = choose|i: int|
                    0 <= i < m && #[trigger] goes(last, now, i) && last[i].key == before[p];
                assert(last[m as int].key != last[i].key);
            }
        }
    }
}

/// Each surface of [`declared`] comes from an entry that comes, and each such
/// entry is in it.
proof fn lemma_declared(last: Seq<Surface>, now: Seq<Surface>, n: nat)
    requires
        n <= now.len(),
    ensures
        ({
            let list = declared(last, now, n);
            &&& forall|p: int|
                0 <= p < list.len() ==> fresh(last, now, n, #[trigger] list[p])
            &&& forall|i: int|
                0 <= i < n && #[trigger] comes(last, now, i) ==> list.contains(now[i])
            &&& forall|p: int, q: int| 0 <= p < q < list.len() ==> list[p].key != list[q].key
        }),
    decreases n,
{
    if n > 0 {
        let m = (n - 1) as nat;
        lemma_declared(last, now, m);
        let before = declared(last, now, m);
        let list = declared(last, now, n);
        assert forall|p: int| 0 <= p < list.len() implies fresh(
            last,
            now,
            n,
            #[trigger] list[p],
        ) by {
            if p < before.len() {
                assert(fresh(last, now, m, before[p]));
            } else {
                assert(comes(last, now, m as int));
            }
        }
        assert forall|i: int| 0 <= i < n && #[trigger] comes(last, now, i) implies list.contains(
            now[i],
        ) by {
            if i < m {
                let p = choose|p: int| 0 <= p < before.len() && before[p] == now[i];
                assert(list[p] == now[i]);
            } else {
                assert(list[before.len() as int] == now[i]);
            }
        }
        assert forall|p: int, q: int| 0 <= p < q < list.len() implies list[p].key
            != list[q].key by {
            if q == before.len() {
                assert(fresh(last, now, m, before[p]));
                let i = choose|i: int|
                    0 <= i < m && #[trigger] comes(last, now, i) && now[i] == before[p];
                assert(now[m as int].key != now[i].key);
            }
        }
    }
}

/// The compositor is told once of each surface that was in the last frame and is
/// not in this one, and of no other that it is gone.
pub proof fn law_destroys_what_is_gone(last: Seq<Surface>, now: Seq<Surface>, key: u64)
    ensures
        destroys(last, now).contains(key) <==> shown(last).contains_key(key) && !shown(
            now,
        ).contains_key(key),
        destroys(last, now).no_duplicates(),
{
    lemma_destroyed(last, now, last.len());
    let keys = destroys(last, now);
    if keys.contains(key) {
        let p = choose|p: int| 0 <= p < keys.len() && keys[p] == key;
        assert(gone(last, now, last.len(), keys[p]));
        let i = choose|i: int|
            0 <= i < last.len() && #[trigger] goes(last, now, i) && last[i].key == keys[p];
        lemma_counting_entry(last, i);
    }
    if shown(last).contains_key(key) && !shown(now).contains_key(key) {
        let i = lemma_shown_entry(last, key);
        assert(goes(last, now, i));
    }
}

/// The compositor is told once, with where it shows, of each surface that is new
/// or shows elsewhere than in the last frame, and of no other.
pub proof fn law_declares_what_is_new(last: Seq<Surface>, now: Seq<Surface>, surface: Surface)
    ensures
        declares(last, now).contains(surface) <==> {
            &&& shown(now).contains_key(surface.key)
            &&& shown(now)[surface.key] == surface.bounds
            &&& !(shown(last).contains_key(surface.key) && shown(last)[surface.key]
                == surface.bounds)
        },
        forall|p: int, q: int|
            0 <= p < q < declares(last, now).len() ==> declares(last, now)[p].key != declares(
                last,
                now,
            )[q].key,
{
    lemma_declared(last, now, now.len());
    let list = declares(last, now);
    if list.contains(surface) {
        let p = choose|p: int| 0 <= p < list.len() && list[p] == surface;
        assert(fresh(last, now, now.len(), list[p]));
        let i = choose|i: int|
            0 <= i < now.len() && #[trigger] comes(last, now, i) && now[i] == list[p];
        lemma_counting_entry(now, i);
    }
    if shown(now).contains_key(surface.key) && shown(now)[surface.key] == surface.bounds && !(shown(
        last,
    ).contains_key(surface.key) && shown(last)[surface.key] == surface.bounds) {
        let i = lemma_shown_entry(now, surface.key);
        lemma_counting_entry(now, i);
        assert(now[i] == surface);
        assert(comes(last, now, i));
    }
}

/// While the same surfaces show in the same places, the compositor is told of
/// none.
pub proof fn law_unchanged_surfaces_are_not_told(last: Seq<Surface>, now: Seq<Surface>)
    requires
        shown(last) == shown(now),
    ensures
        destroys(last, now) == Seq::<u64>::empty(),
        declares(last, now) == Seq::<Surface>::empty(),
{
    let (keys, list) = (destroys(last, now), declares(last, now));
    if keys.len() > 0 {
        law_destroys_what_is_gone(last, now, keys[0]);
        assert(keys.contains(keys[0]));
    }
    if list.len() > 0 {
        law_declares_what_is_new(last, now, list[0]);
        assert(list.contains(list[0]));
    }
    assert(keys =~= Seq::<u64>::empty());
    assert(list =~= Seq::<Surface>::empty());
}

/// Looks up where a surface shows.
pub fn bounds_of(list: &Vec<Surface>, key: u64) -> (r: Option<Bounds>)
    ensures
        match r {
            Some(bounds) => shown(list@).contains_key(key) && shown(list@)[key] == bounds,
            None => !shown(list@).contains_key(key),
        },
{
    let mut i: usize = list.len();
    while i > 0
        invariant
            i <= list.len(),
            forall|j: int| i <= j < list.len() ==> (#[trigger] list@[j]).key != key,
        decreases i,
    {
        i = i - 1;
        if list[i].key == key {
            proof {
                assert(counts(list@, i as int));
                lemma_counting_entry(list@, i as int);
            }
            return Some(list[i].bounds);
        }
    }
    proof {
        lemma_unlisted(list@, key);
    }
    None
}

fn entry_counts(list: &Vec<Surface>, i: usize) -> (r: bool)
    requires
        i < list.len(),
    ensures
        r == counts(list@, i as int),
{
    let mut j: usize = i + 1;
    while j < list.len()
        invariant
            i < j <= list.len(),
            forall|k: int| i < k < j ==> (#[trigger] list@[k]).key != list@[i as int].key,
        decreases list.len() - j,
    {
        if list[j].key == list[i].key {
            return false;
        }
        j = j + 1;
    }
    true
}

/// Lists the surfaces that are gone since the last frame.
pub fn surfaces_to_destroy(last: &Vec<Surface>, now: &Vec<Surface>) -> (r: Vec<u64>)
    ensures
        r@ == destroys(last@, now@),
{
    let mut out: Vec<u64> = Vec::new();
    let mut i: usize = 0;
    while i < last.len()
        invariant
            i <= last.len(),
            out@ == destroyed(last@, now@, i as nat),
        decreases last.len() - i,
    {
        if entry_counts(last, i) && bounds_of(now, last[i].key).is_none() {
            out.push(last[i].key);
        }
        i = i + 1;
    }
    out
}

/// Lists the surfaces that are new or show elsewhere than in the last frame.
pub fn surfaces_to_declare(last: &Vec<Surface>, now: &Vec<Surface>) -> (r: Vec<Surface>)
    ensures
        r@ == declares(last@, now@),
{
    let mut out: Vec<Surface> = Vec::new();
    let mut i: usize = 0;
    while i < now.len()
        invariant
            i <= now.len(),
            out@ == declared(last@, now@, i as nat),
        decreases now.len() - i,
    {
        let unchanged: bool = match bounds_of(last, now[i].key) {
            Some(bounds) => bounds == now[i].bounds,
            None => false,
        };
        if entry_counts(now, i) && !unchanged {
            out.push(now[i]);
        }
        i = i + 1;
    }
    out
}

/// Copies a list of surfaces.
pub fn duplicate_surfaces(list: &Vec<Surface>) -> (r: Vec<Surface>)
    ensures
        r@ == list@,
{
    let mut out: Vec<Surface> = Vec::new();
    let mut i: usize = 0;
    while i < list.len()
        invariant
            i <= list.len(),
            out@ == list@.take(i as int),
        decreases list.len() - i,
    {
        out.push(list[i]);
        i = i + 1;
    }
    out
}

} // verus!
