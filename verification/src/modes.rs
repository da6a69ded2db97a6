//! Normalising an enumerated display mode list: de-duplication and ordering.
//!
//! The OS enumerates the modes an adapter advertises in driver order, with
//! many repeats.  The library keeps one mode per (width, height, refresh
//! rate, colour depth) key, the first occurrence winning, and orders the
//! result descending by (width, height, refresh rate) — highest resolution
//! and rate first, ties keeping their enumeration order.

use vstd::multiset::Multiset;
use vstd::prelude::*;

use crate::display::{DisplayError, DisplayMode};

verus! {

/// Two modes carry the same (width, height, refresh rate, colour depth) key.
pub open spec fn same_mode_key(a: DisplayMode, b: DisplayMode) -> bool {
    a.width == b.width && a.height == b.height && a.refresh_rate == b.refresh_rate
        && a.bits_per_pixel == b.bits_per_pixel
}

/// Whether some mode of `s` carries the key of `m`.
pub open spec fn has_mode_key(s: Seq<DisplayMode>, m: DisplayMode) -> bool {
    exists|i: int| 0 <= i < s.len() && same_mode_key(s[i], m)
}

/// `a` sorts at or before `b` in the descending (width, height, refresh rate)
/// order.
pub open spec fn mode_ge(a: DisplayMode, b: DisplayMode) -> bool {
    a.width > b.width || (a.width == b.width && (a.height > b.height || (a.height == b.height
        && a.refresh_rate >= b.refresh_rate)))
}

/// Descending order, highest first.
pub open spec fn sorted_desc(s: Seq<DisplayMode>) -> bool {
    forall|i: int, j: int| 0 <= i < j < s.len() ==> mode_ge(s[i], s[j])
}

/// The mode list with duplicate keys dropped, the first occurrence of each
/// key kept in place.
pub open spec fn dedup_of(s: Seq<DisplayMode>) -> Seq<DisplayMode>
    decreases s.len(),
{
    if s.len() == 0 {
        Seq::empty()
    } else if has_mode_key(s.drop_last(), s.last()) {
        dedup_of(s.drop_last())
    } else {
        dedup_of(s.drop_last()).push(s.last())
    }
}

/// Stable insertion of `m` into a descending list: `m` goes after every mode
/// that sorts at or before it, so ties keep their arrival order.
pub open spec fn insert_desc(s: Seq<DisplayMode>, m: DisplayMode) -> Seq<DisplayMode>
    decreases s.len(),
{
    if s.len() > 0 && mode_ge(s[0], m) {
        seq![s[0]] + insert_desc(s.skip(1), m)
    } else {
        seq![m] + s
    }
}

/// Stable insertion sort into descending order.
pub open spec fn sort_desc(s: Seq<DisplayMode>) -> Seq<DisplayMode>
    decreases s.len(),
{
    if s.len() == 0 {
        Seq::empty()
    } else {
        insert_desc(sort_desc(s.drop_last()), s.last())
    }
}

/// Appending one mode extends the keys by exactly that mode's key.
proof fn lemma_has_key_push(t: Seq<DisplayMode>, x: DisplayMode, m: DisplayMode)
    ensures
        has_mode_key(t.push(x), m) <==> (has_mode_key(t, m) || same_mode_key(x, m)),
{
    if has_mode_key(t, m) {
        let j = choose|j: int| 0 <= j < t.len() && same_mode_key(t[j], m);
        assert(same_mode_key(t.push(x)[j], m));
    }
    if same_mode_key(x, m) {
        assert(same_mode_key(t.push(x)[t.len() as int], m));
    }
    if has_mode_key(t.push(x), m) {
        let j = choose|j: int| 0 <= j < t.push(x).len() && same_mode_key(t.push(x)[j], m);
        if j < t.len() {
            assert(same_mode_key(t[j], m));
        }
    }
}

/// De-duplication keeps exactly the keys of the input.
proof fn lemma_dedup_same_keys(s: Seq<DisplayMode>, m: DisplayMode)
    ensures
        has_mode_key(dedup_of(s), m) <==> has_mode_key(s, m),
    decreases s.len(),
{
    if s.len() > 0 {
        let prefix = s.drop_last();
        let x = s.last();
        lemma_dedup_same_keys(prefix, m);
        assert(s =~= prefix.push(x));
        lemma_has_key_push(prefix, x, m);
        if has_mode_key(prefix, x) {
            // the dropped duplicate's key is already among the prefix keys
            if same_mode_key(x, m) {
                let j = choose|j: int| 0 <= j < prefix.len() && same_mode_key(prefix[j], x);
                assert(same_mode_key(prefix[j], m));
            }
        } else {
            lemma_has_key_push(dedup_of(prefix), x, m);
        }
    }
}

/// Insertion keeps the multiset of modes and adds the new one; it keeps the
/// descending order when the list was ordered.
proof fn lemma_insert_desc_props(s: Seq<DisplayMode>, m: DisplayMode)
    ensures
        insert_desc(s, m).len() == s.len() + 1,
        insert_desc(s, m).to_multiset() == s.to_multiset().insert(m),
        sorted_desc(s) ==> sorted_desc(insert_desc(s, m)),
        forall|x: DisplayMode| #[trigger]
            insert_desc(s, m).contains(x) <==> s.contains(x) || x == m,
    decreases s.len(),
{
    broadcast use vstd::seq_lib::group_to_multiset_ensures;
    broadcast use vstd::multiset::group_multiset_axioms;

    let r = insert_desc(s, m);
    if s.len() > 0 && mode_ge(s[0], m) {
        lemma_insert_desc_props(s.skip(1), m);
        let tail = insert_desc(s.skip(1), m);
        assert(r =~= seq![s[0]] + tail);
        assert(r.to_multiset() =~= s.to_multiset().insert(m)) by {
            assert(s =~= seq![s[0]] + s.skip(1));
            vstd::seq_lib::lemma_multiset_commutative(seq![s[0]], s.skip(1));
            vstd::seq_lib::lemma_multiset_commutative(seq![s[0]], tail);
            assert(seq![s[0]].to_multiset() =~= Multiset::empty().insert(s[0]));
        }
        assert forall|x: DisplayMode| #[trigger] r.contains(x) implies s.contains(x) || x
            == m by {
            let k = choose|k: int| 0 <= k < r.len() && r[k] == x;
            if k == 0 {
                assert(s[0] == x);
            } else {
                assert(tail[k - 1] == x);
                assert(tail.contains(x));
                if s.skip(1).contains(x) {
                    let l = choose|l: int| 0 <= l < s.skip(1).len() && s.skip(1)[l] == x;
                    assert(s[l + 1] == x);
                }
            }
        }
        assert forall|x: DisplayMode| s.contains(x) || x == m implies #[trigger] r.contains(
            x,
        ) by {
            if s.contains(x) {
                let k = choose|k: int| 0 <= k < s.len() && s[k] == x;
                if k == 0 {
                    assert(r[0] == x);
                } else {
                    assert(s.skip(1)[k - 1] == x);
                    assert(s.skip(1).contains(x));
                    assert(tail.contains(x));
                    let l = choose|l: int| 0 <= l < tail.len() && tail[l] == x;
                    assert(r[l + 1] == x);
                }
            } else {
                assert(tail.contains(m));
                let l = choose|l: int| 0 <= l < tail.len() && tail[l] == x;
                assert(r[l + 1] == x);
            }
        }
        if sorted_desc(s) {
            assert(sorted_desc(s.skip(1)));
            assert forall|i: int, j: int| 0 <= i < j < r.len() implies mode_ge(r[i], r[j]) by {
                if i == 0 {
                    assert(tail[j - 1] == r[j]);
                    assert(tail.contains(tail[j - 1]));
                    if s.skip(1).contains(r[j]) {
                        let k = choose|k: int| 0 <= k < s.skip(1).len() && s.skip(1)[k] == r[j];
                        assert(s[k + 1] == r[j]);
                        assert(mode_ge(s[0], s[k + 1]));
                    } else {
                        assert(r[j] == m);
                    }
                } else {
                    assert(r[i] == tail[i - 1] && r[j] == tail[j - 1]);
                }
            }
        }
    } else {
        assert(r =~= seq![m] + s);
        vstd::seq_lib::lemma_multiset_commutative(seq![m], s);
        assert(seq![m].to_multiset() =~= Multiset::empty().insert(m));
        assert forall|x: DisplayMode| #[trigger] r.contains(x) implies s.contains(x) || x
            == m by {
            let k = choose|k: int| 0 <= k < r.len() && r[k] == x;
            if k > 0 {
                assert(s[k - 1] == x);
            }
        }
        assert forall|x: DisplayMode| s.contains(x) || x == m implies #[trigger] r.contains(
            x,
        ) by {
            if s.contains(x) {
                let k = choose|k: int| 0 <= k < s.len() && s[k] == x;
                assert(r[k + 1] == x);
            } else {
                assert(r[0] == x);
            }
        }
        if sorted_desc(s) {
            assert forall|i: int, j: int| 0 <= i < j < r.len() implies mode_ge(r[i], r[j]) by {
                if i == 0 {
                    if s.len() > 0 {
                        assert(!mode_ge(s[0], m));
                        assert(mode_ge(m, s[0]));
                        if j > 1 {
                            assert(mode_ge(s[0], s[j - 1]));
                        }
                    }
                }
            }
        }
    }
}

/// The sort orders the list descending and keeps exactly the input modes,
/// multiplicities included.
pub proof fn lemma_sort_desc_props(s: Seq<DisplayMode>)
    ensures
        sort_desc(s).len() == s.len(),
        sort_desc(s).to_multiset() == s.to_multiset(),
        sorted_desc(sort_desc(s)),
    decreases s.len(),
{
    broadcast use vstd::seq_lib::group_to_multiset_ensures;

    if s.len() > 0 {
        lemma_sort_desc_props(s.drop_last());
        lemma_insert_desc_props(sort_desc(s.drop_last()), s.last());
        assert(s =~= s.drop_last().push(s.last()));
        assert(s.drop_last().push(s.last()).to_multiset() =~= s.drop_last().to_multiset().insert(
            s.last(),
        ));
    }
}

/// Whether `a` and `b` carry the same mode key, executably.
fn mode_key_eq(a: &DisplayMode, b: &DisplayMode) -> (r: bool)
    ensures
        r == same_mode_key(*a, *b),
{
    let bits_eq = match (a.bits_per_pixel, b.bits_per_pixel) {
        (Option::None, Option::None) => true,
        (Option::Some(x), Option::Some(y)) => x == y,
        _ => false,
    };
    a.width == b.width && a.height == b.height && a.refresh_rate == b.refresh_rate && bits_eq
}

/// Whether `a` sorts at or before `b`, executably.
fn mode_ge_exec(a: &DisplayMode, b: &DisplayMode) -> (r: bool)
    ensures
        r == mode_ge(*a, *b),
{
    a.width > b.width || (a.width == b.width && (a.height > b.height || (a.height == b.height
        && a.refresh_rate >= b.refresh_rate)))
}

/// Scanning for the first element that sorts strictly after `m` finds the
/// position that stable insertion uses.
proof fn lemma_insert_desc_at(s: Seq<DisplayMode>, m: DisplayMode, idx: int)
    requires
        0 <= idx <= s.len(),
        forall|j: int| 0 <= j < idx ==> mode_ge(s[j], m),
        idx < s.len() ==> !mode_ge(s[idx], m),
    ensures
        insert_desc(s, m) == s.insert(idx, m),
    decreases s.len(),
{
    if s.len() > 0 && mode_ge(s[0], m) {
        lemma_insert_desc_at(s.skip(1), m, idx - 1);
        assert(insert_desc(s, m) =~= s.insert(idx, m));
    } else {
        assert(insert_desc(s, m) =~= s.insert(idx, m));
    }
}

/// Normalises a raw enumerated mode list: drops duplicate (width, height,
/// refresh rate, colour depth) keys keeping each first occurrence, then
/// orders descending by (width, height, refresh rate) with ties keeping
/// their enumeration order.  An empty enumeration is the enumeration
/// failure.
pub fn normalize_display_modes(raw: Vec<DisplayMode>) -> (r: Result<
    Vec<DisplayMode>,
    DisplayError,
>)
    ensures
        r is Ok <==> raw@.len() > 0,
        raw@.len() == 0 ==> r == Result::<Vec<DisplayMode>, DisplayError>::Err(
            DisplayError::EnumFailed,
        ),
        r matches Ok(v) ==> v@ == sort_desc(dedup_of(raw@)),
        r matches Ok(v) ==> sorted_desc(v@),
{
    if raw.len() == 0 {
        return Err(DisplayError::EnumFailed);
    }
    let n = raw.len();
    let mut deduped: Vec<DisplayMode> = Vec::new();
    let mut i: usize = 0;
    while i < n
        invariant
            n == raw@.len(),
            i <= n,
            deduped@ == dedup_of(raw@.take(i as int)),
        decreases n - i,
    {
        let ghost prefix = raw@.take(i as int + 1);
        proof {
            assert(prefix.drop_last() =~= raw@.take(i as int));
            assert(prefix.last() == raw@[i as int]);
            lemma_dedup_same_keys(raw@.take(i as int), raw@[i as int]);
        }
        let m = &raw[i];
        let mut seen = false;
        let k = deduped.len();
        let mut j: usize = 0;
        while j < k
            invariant
                k == deduped@.len(),
                j <= k,
                seen == exists|l: int| 0 <= l < j && same_mode_key(deduped@[l], *m),
            decreases k - j,
        {
            if mode_key_eq(&deduped[j], m) {
                seen = true;
            }
            j += 1;
        }
        if !seen {
            deduped.push(m.clone());
        }
        i += 1;
    }
    proof {
        assert(raw@.take(n as int) =~= raw@);
    }
    let ghost dd = dedup_of(raw@);
    let mut ordered: Vec<DisplayMode> = Vec::new();
    let dn = deduped.len();
    let mut i: usize = 0;
    while i < dn
        invariant
            dn == deduped@.len(),
            i <= dn,
            deduped@ == dd,
            ordered@ == sort_desc(dd.take(i as int)),
        decreases dn - i,
    {
        let ghost sprefix = dd.take(i as int + 1);
        proof {
            assert(sprefix.drop_last() =~= dd.take(i as int));
            assert(sprefix.last() == dd[i as int]);
        }
        let m = &deduped[i];
        let on = ordered.len();
        let mut pos: usize = 0;
        let mut placed = false;
        while !placed && pos < on
            invariant
                on == ordered@.len(),
                pos <= on,
                forall|j: int| 0 <= j < pos ==> mode_ge(ordered@[j], *m),
                placed ==> pos < on && !mode_ge(ordered@[pos as int], *m),
            decreases on - pos + (if placed {
                0int
            } else {
                1int
            }),
        {
            if !mode_ge_exec(&ordered[pos], m) {
                placed = true;
            } else {
                pos += 1;
            }
        }
        proof {
            lemma_insert_desc_at(ordered@, dd[i as int], pos as int);
        }
        ordered.insert(pos, m.clone());
        i += 1;
    }
    proof {
        assert(dd.take(dn as int) =~= dd);
        lemma_sort_desc_props(dd);
    }
    Ok(ordered)
}

} // verus!
