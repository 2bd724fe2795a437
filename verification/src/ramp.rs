//! Monochrome lookup ramps: an ordered base palette plus a fixed set of
//! extra anchor shades, deduplicated by exact packed RGB value and
//! sorted ascending by relative luminance.

use vstd::prelude::*;
use crate::luminance::{luminance_from_u8, spec_luminance};
use crate::nearest::{find_nearest_index, is_nearest_first};
use crate::{pack_rgb, spec_pack_rgb};

verus! {

/// The ten-step gray family, darkest to lightest.
pub const GRAY_RAMP: [[u8; 3]; 10] = [
    [0x16, 0x16, 0x16],
    [0x26, 0x26, 0x26],
    [0x39, 0x39, 0x39],
    [0x52, 0x52, 0x52],
    [0x6f, 0x6f, 0x6f],
    [0x8d, 0x8d, 0x8d],
    [0xa8, 0xa8, 0xa8],
    [0xc6, 0xc6, 0xc6],
    [0xe0, 0xe0, 0xe0],
    [0xf4, 0xf4, 0xf4],
];

/// The ten-step cool gray family, darkest to lightest.
pub const COOL_GRAY_RAMP: [[u8; 3]; 10] = [
    [0x12, 0x16, 0x19],
    [0x21, 0x27, 0x2a],
    [0x34, 0x3a, 0x3f],
    [0x4d, 0x53, 0x58],
    [0x69, 0x70, 0x77],
    [0x87, 0x8d, 0x96],
    [0xa2, 0xa9, 0xb0],
    [0xc1, 0xc7, 0xcd],
    [0xdd, 0xe1, 0xe6],
    [0xf2, 0xf4, 0xf8],
];

/// The ten-step warm gray family, darkest to lightest.
pub const WARM_GRAY_RAMP: [[u8; 3]; 10] = [
    [0x17, 0x14, 0x14],
    [0x27, 0x25, 0x25],
    [0x3c, 0x38, 0x38],
    [0x56, 0x51, 0x51],
    [0x72, 0x6e, 0x6e],
    [0x8f, 0x8b, 0x8b],
    [0xad, 0xa8, 0xa8],
    [0xca, 0xc5, 0xc4],
    [0xe5, 0xe0, 0xdf],
    [0xf7, 0xf3, 0xf2],
];

/// Near-black and near-white anchor shades shared by every family,
/// because the OLED and base variants reuse these exact values.
pub const MONO_RAMP_EXTRAS: [[u8; 3]; 13] = [
    [0x00, 0x00, 0x00],
    [0x0b, 0x0b, 0x0b],
    [0x0f, 0x0f, 0x0f],
    [0x16, 0x16, 0x16],
    [0x1b, 0x1b, 0x1b],
    [0x1e, 0x1e, 0x1e],
    [0x21, 0x21, 0x21],
    [0x26, 0x26, 0x26],
    [0x39, 0x39, 0x39],
    [0x52, 0x52, 0x52],
    [0xdd, 0xe1, 0xe6],
    [0xf2, 0xf4, 0xf8],
    [0xff, 0xff, 0xff],
];

/// Relative luminance of an RGB triple.
pub open spec fn spec_lum_of(c: [u8; 3]) -> int {
    spec_luminance(c[0], c[1], c[2])
}

/// Some element of `s` shares the packed RGB value of `c`.
pub open spec fn contains_packed(s: Seq<[u8; 3]>, c: [u8; 3]) -> bool {
    exists|i: int| 0 <= i < s.len() && spec_pack_rgb(#[trigger] s[i]) == spec_pack_rgb(c)
}

/// Keeps the first occurrence of each packed RGB value and drops later
/// duplicates.
pub open spec fn spec_dedup(s: Seq<[u8; 3]>) -> Seq<[u8; 3]>
    decreases s.len(),
{
    if s.len() == 0 {
        Seq::empty()
    } else {
        let rest = spec_dedup(s.drop_last());
        if contains_packed(s.drop_last(), s.last()) {
            rest
        } else {
            rest.push(s.last())
        }
    }
}

/// Deduplication keeps exactly the packed values of its input.
pub proof fn lemma_dedup_contains(s: Seq<[u8; 3]>, c: [u8; 3])
    ensures
        contains_packed(spec_dedup(s), c) == contains_packed(s, c),
    decreases s.len(),
{
    if s.len() > 0 {
        lemma_dedup_contains(s.drop_last(), c);
        let rest = spec_dedup(s.drop_last());
        if contains_packed(s.drop_last(), s.last()) {
            if contains_packed(s, c) && !contains_packed(s.drop_last(), c) {
                let i = choose|i: int|
                    0 <= i < s.len() && spec_pack_rgb(#[trigger] s[i]) == spec_pack_rgb(c);
                if i < s.len() - 1 {
                    assert(s.drop_last()[i] == s[i]);
                }
                assert(i == s.len() - 1);
                assert(spec_pack_rgb(s.last()) == spec_pack_rgb(c));
            }
        } else {
            let full = rest.push(s.last());
            if contains_packed(s, c) {
                let i = choose|i: int|
                    0 <= i < s.len() && spec_pack_rgb(#[trigger] s[i]) == spec_pack_rgb(c);
                if i < s.len() - 1 {
                    assert(s.drop_last()[i] == s[i]);
                    assert(contains_packed(s.drop_last(), c));
                    let j = choose|j: int|
                        0 <= j < rest.len() && spec_pack_rgb(#[trigger] rest[j]) == spec_pack_rgb(
                            c,
                        );
                    assert(full[j] == rest[j]);
                } else {
                    assert(full.last() == s.last());
                }
            }
            if contains_packed(full, c) {
                let i = choose|i: int|
                    0 <= i < full.len() && spec_pack_rgb(#[trigger] full[i]) == spec_pack_rgb(c);
                if i < rest.len() {
                    assert(rest[i] == full[i]);
                } else {
                    assert(full[i] == s.last());
                    assert(s[s.len() - 1] == s.last());
                }
            }
        }
    }
}

/// No two elements of `s` share a packed RGB value.
pub open spec fn distinct_packed(s: Seq<[u8; 3]>) -> bool {
    forall|i: int, j: int|
        0 <= i < j < s.len() ==> spec_pack_rgb(#[trigger] s[i]) != spec_pack_rgb(#[trigger] s[j])
}

/// Deduplication leaves no two elements with the same packed value.
pub proof fn lemma_dedup_distinct(s: Seq<[u8; 3]>)
    ensures
        distinct_packed(spec_dedup(s)),
    decreases s.len(),
{
    if s.len() > 0 {
        lemma_dedup_distinct(s.drop_last());
        let rest = spec_dedup(s.drop_last());
        if !contains_packed(s.drop_last(), s.last()) {
            lemma_dedup_contains(s.drop_last(), s.last());
            let full = rest.push(s.last());
            assert forall|i: int, j: int| 0 <= i < j < full.len() implies spec_pack_rgb(
                #[trigger] full[i],
            ) != spec_pack_rgb(#[trigger] full[j]) by {
                if j < rest.len() {
                    assert(full[i] == rest[i] && full[j] == rest[j]);
                } else {
                    assert(full[j] == s.last());
                    assert(full[i] == rest[i]);
                    assert(!contains_packed(rest, s.last()));
                }
            }
        }
    }
}

/// Inserts an entry into a luminance-sorted sequence, after any entry
/// of equal luminance: insertion never reorders equal keys, which keeps
/// the overall sort stable.
pub open spec fn spec_insert_sorted(e: (u64, [u8; 3]), s: Seq<(u64, [u8; 3])>) -> Seq<
    (u64, [u8; 3]),
>
    decreases s.len(),
{
    if s.len() == 0 {
        seq![e]
    } else if e.0 < s[0].0 {
        seq![e] + s
    } else {
        seq![s[0]] + spec_insert_sorted(e, s.drop_first())
    }
}

/// Stable insertion sort by luminance: entries are inserted in input
/// order, each after all equal keys, so ties keep their insertion
/// order.
pub open spec fn spec_sort_by_lum(s: Seq<(u64, [u8; 3])>) -> Seq<(u64, [u8; 3])>
    decreases s.len(),
{
    if s.len() == 0 {
        Seq::empty()
    } else {
        spec_insert_sorted(s.last(), spec_sort_by_lum(s.drop_last()))
    }
}

/// Entries appear in ascending luminance order.
pub open spec fn sorted_by_lum(s: Seq<(u64, [u8; 3])>) -> bool {
    forall|i: int, j: int| 0 <= i < j < s.len() ==> (#[trigger] s[i]).0 <= (#[trigger] s[j]).0
}

/// Inserting into a sorted sequence keeps it sorted.
pub proof fn lemma_insert_sorted_keeps(e: (u64, [u8; 3]), s: Seq<(u64, [u8; 3])>)
    requires
        sorted_by_lum(s),
    ensures
        sorted_by_lum(spec_insert_sorted(e, s)),
        spec_insert_sorted(e, s).len() == s.len() + 1,
    decreases s.len(),
{
    if s.len() > 0 && e.0 >= s[0].0 {
        assert forall|i: int, j: int| 0 <= i < j < s.drop_first().len() implies (#[trigger] s.drop_first()[i]).0
            <= (#[trigger] s.drop_first()[j]).0 by {
            assert(s.drop_first()[i] == s[i + 1] && s.drop_first()[j] == s[j + 1]);
        }
        lemma_insert_sorted_keeps(e, s.drop_first());
        let rest = spec_insert_sorted(e, s.drop_first());
        let full = seq![s[0]] + rest;
        assert forall|i: int, j: int| 0 <= i < j < full.len() implies (#[trigger] full[i]).0 <= (
        #[trigger] full[j]).0 by {
            if i == 0 {
                lemma_insert_element_bound(e, s.drop_first(), j - 1);
                if full[j] != e {
                    let k = choose|k: int|
                        0 <= k < s.drop_first().len() && rest[j - 1] == #[trigger] s.drop_first()[k];
                    assert(s.drop_first()[k] == s[k + 1]);
                }
            } else {
                assert(full[i] == rest[i - 1] && full[j] == rest[j - 1]);
            }
        }
    }
}

/// Every element of an insertion result is the inserted entry or one of
/// the original elements.
proof fn lemma_insert_element_bound(e: (u64, [u8; 3]), s: Seq<(u64, [u8; 3])>, j: int)
    requires
        0 <= j < spec_insert_sorted(e, s).len(),
    ensures
        spec_insert_sorted(e, s)[j] == e || exists|k: int|
            0 <= k < s.len() && spec_insert_sorted(e, s)[j] == #[trigger] s[k],
    decreases s.len(),
{
    let full = spec_insert_sorted(e, s);
    if s.len() == 0 {
    } else if e.0 < s[0].0 {
        if j > 0 {
            assert(full[j] == s[j - 1]);
        }
    } else {
        if j > 0 {
            let rest = spec_insert_sorted(e, s.drop_first());
            assert(full[j] == rest[j - 1]);
            lemma_insert_element_bound(e, s.drop_first(), j - 1);
            if rest[j - 1] != e {
                let k = choose|k: int|
                    0 <= k < s.drop_first().len() && rest[j - 1] == #[trigger] s.drop_first()[k];
                assert(s.drop_first()[k] == s[k + 1]);
            }
        }
    }
}

/// The stable sort leaves its result in ascending luminance order, with
/// as many entries as it was given.
pub proof fn lemma_sort_sorted(s: Seq<(u64, [u8; 3])>)
    ensures
        sorted_by_lum(spec_sort_by_lum(s)),
        spec_sort_by_lum(s).len() == s.len(),
    decreases s.len(),
{
    if s.len() > 0 {
        lemma_sort_sorted(s.drop_last());
        lemma_insert_sorted_keeps(s.last(), spec_sort_by_lum(s.drop_last()));
    }
}

/// Some entry holds a color with the packed RGB value of `c`.
pub open spec fn contains_packed_entry(s: Seq<(u64, [u8; 3])>, c: [u8; 3]) -> bool {
    exists|i: int| 0 <= i < s.len() && spec_pack_rgb((#[trigger] s[i]).1) == spec_pack_rgb(c)
}

/// No two entries hold colors with the same packed RGB value.
pub open spec fn distinct_packed_entries(s: Seq<(u64, [u8; 3])>) -> bool {
    forall|i: int, j: int|
        0 <= i < j < s.len() ==> spec_pack_rgb((#[trigger] s[i]).1) != spec_pack_rgb(
            (#[trigger] s[j]).1,
        )
}

/// Insertion adds exactly one entry's color to the colors present, and
/// keeps entries of pairwise distinct colors pairwise distinct.
proof fn lemma_insert_packed(e: (u64, [u8; 3]), s: Seq<(u64, [u8; 3])>)
    ensures
        forall|c: [u8; 3]|
            #[trigger] contains_packed_entry(spec_insert_sorted(e, s), c) == (contains_packed_entry(
                s,
                c,
            ) || spec_pack_rgb(e.1) == spec_pack_rgb(c)),
        distinct_packed_entries(s) && !contains_packed_entry(s, e.1) ==> distinct_packed_entries(
            spec_insert_sorted(e, s),
        ),
    decreases s.len(),
{
    let full = spec_insert_sorted(e, s);
    if s.len() == 0 {
        assert forall|c: [u8; 3]| #[trigger]
            contains_packed_entry(full, c) == (contains_packed_entry(s, c) || spec_pack_rgb(e.1)
                == spec_pack_rgb(c)) by {
            assert(full[0] == e);
            if spec_pack_rgb(e.1) == spec_pack_rgb(c) {
                assert(contains_packed_entry(full, c));
            }
        }
    } else if e.0 < s[0].0 {
        assert forall|c: [u8; 3]| #[trigger]
            contains_packed_entry(full, c) == (contains_packed_entry(s, c) || spec_pack_rgb(e.1)
                == spec_pack_rgb(c)) by {
            assert(full[0] == e);
            if contains_packed_entry(s, c) {
                let i = choose|i: int|
                    0 <= i < s.len() && spec_pack_rgb((#[trigger] s[i]).1) == spec_pack_rgb(c);
                assert(full[i + 1] == s[i]);
            }
            if contains_packed_entry(full, c) && spec_pack_rgb(e.1) != spec_pack_rgb(c) {
                let i = choose|i: int|
                    0 <= i < full.len() && spec_pack_rgb((#[trigger] full[i]).1) == spec_pack_rgb(
                        c,
                    );
                assert(i > 0 && full[i] == s[i - 1]);
            }
        }
        if distinct_packed_entries(s) && !contains_packed_entry(s, e.1) {
            assert forall|i: int, j: int| 0 <= i < j < full.len() implies spec_pack_rgb(
                (#[trigger] full[i]).1,
            ) != spec_pack_rgb((#[trigger] full[j]).1) by {
                assert(full[j] == s[j - 1]);
                if i > 0 {
                    assert(full[i] == s[i - 1]);
                }
            }
        }
    } else {
        lemma_insert_packed(e, s.drop_first());
        let rest = spec_insert_sorted(e, s.drop_first());
        assert forall|c: [u8; 3]| #[trigger]
            contains_packed_entry(full, c) == (contains_packed_entry(s, c) || spec_pack_rgb(e.1)
                == spec_pack_rgb(c)) by {
            lemma_packed_cons(s[0], s.drop_first(), c);
            lemma_packed_cons(s[0], rest, c);
            assert(seq![s[0]] + s.drop_first() =~= s);
            assert(full =~= seq![s[0]] + rest);
        }
        if distinct_packed_entries(s) && !contains_packed_entry(s, e.1) {
            assert forall|i: int, j: int| 0 <= i < j < s.drop_first().len()
                implies spec_pack_rgb((#[trigger] s.drop_first()[i]).1) != spec_pack_rgb(
                (#[trigger] s.drop_first()[j]).1,
            ) by {
                assert(s.drop_first()[i] == s[i + 1] && s.drop_first()[j] == s[j + 1]);
            }
            assert(!contains_packed_entry(s.drop_first(), e.1)) by {
                if contains_packed_entry(s.drop_first(), e.1) {
                    let i = choose|i: int|
                        0 <= i < s.drop_first().len() && spec_pack_rgb(
                            (#[trigger] s.drop_first()[i]).1,
                        ) == spec_pack_rgb(e.1);
                    assert(s[i + 1] == s.drop_first()[i]);
                }
            }
            assert forall|i: int, j: int| 0 <= i < j < full.len() implies spec_pack_rgb(
                (#[trigger] full[i]).1,
            ) != spec_pack_rgb((#[trigger] full[j]).1) by {
                assert(full[j] == rest[j - 1]);
                if i > 0 {
                    assert(full[i] == rest[i - 1]);
                } else {
                    assert(full[0] == s[0]);
                    lemma_insert_element_bound(e, s.drop_first(), j - 1);
                    if rest[j - 1] == e {
                        assert(spec_pack_rgb(s[0].1) != spec_pack_rgb(e.1)) by {
                            if spec_pack_rgb(s[0].1) == spec_pack_rgb(e.1) {
                                assert(contains_packed_entry(s, e.1));
                            }
                        }
                    } else {
                        let k = choose|k: int|
                            0 <= k < s.drop_first().len() && rest[j - 1] == #[trigger] s.drop_first()[k];
                        assert(s.drop_first()[k] == s[k + 1]);
                    }
                }
            }
        }
    }
}

/// A color is present in a sequence with a first entry exactly when it
/// is that entry's color or present in the remainder.
proof fn lemma_packed_cons(h: (u64, [u8; 3]), t: Seq<(u64, [u8; 3])>, c: [u8; 3])
    ensures
        contains_packed_entry(seq![h] + t, c) == (spec_pack_rgb(h.1) == spec_pack_rgb(c)
            || contains_packed_entry(t, c)),
{
    let s = seq![h] + t;
    if spec_pack_rgb(h.1) == spec_pack_rgb(c) {
        assert(s[0] == h);
    }
    if contains_packed_entry(t, c) {
        let i = choose|i: int|
            0 <= i < t.len() && spec_pack_rgb((#[trigger] t[i]).1) == spec_pack_rgb(c);
        assert(s[i + 1] == t[i]);
    }
    if contains_packed_entry(s, c) {
        let i = choose|i: int|
            0 <= i < s.len() && spec_pack_rgb((#[trigger] s[i]).1) == spec_pack_rgb(c);
        if i > 0 {
            assert(t[i - 1] == s[i]);
        }
    }
}

/// Sorting neither loses nor invents colors, and keeps pairwise
/// distinct colors pairwise distinct.
proof fn lemma_sort_distinct(s: Seq<(u64, [u8; 3])>)
    requires
        distinct_packed_entries(s),
    ensures
        distinct_packed_entries(spec_sort_by_lum(s)),
    decreases s.len(),
{
    if s.len() > 0 {
        let head = s.drop_last();
        assert forall|i: int, j: int| 0 <= i < j < head.len() implies spec_pack_rgb(
            (#[trigger] head[i]).1,
        ) != spec_pack_rgb((#[trigger] head[j]).1) by {
            assert(head[i] == s[i] && head[j] == s[j]);
        }
        lemma_sort_distinct(head);
        lemma_sort_contains(head);
        assert(!contains_packed_entry(spec_sort_by_lum(head), s.last().1)) by {
            if contains_packed_entry(head, s.last().1) {
                let i = choose|i: int|
                    0 <= i < head.len() && spec_pack_rgb((#[trigger] head[i]).1) == spec_pack_rgb(
                        s.last().1,
                    );
                assert(head[i] == s[i]);
                assert(s[s.len() - 1] == s.last());
            }
        }
        lemma_insert_packed(s.last(), spec_sort_by_lum(head));
    }
}

/// The sorted sequence holds exactly the colors of its input.
proof fn lemma_sort_contains(s: Seq<(u64, [u8; 3])>)
    ensures
        forall|c: [u8; 3]| #[trigger]
            contains_packed_entry(spec_sort_by_lum(s), c) == contains_packed_entry(s, c),
    decreases s.len(),
{
    if s.len() > 0 {
        let head = s.drop_last();
        lemma_sort_contains(head);
        assert forall|c: [u8; 3]| #[trigger]
            contains_packed_entry(spec_sort_by_lum(s), c) == contains_packed_entry(s, c) by {
            lemma_insert_packed(s.last(), spec_sort_by_lum(head));
            assert(contains_packed_entry(s, c) == (contains_packed_entry(head, c) || spec_pack_rgb(
                s.last().1,
            ) == spec_pack_rgb(c))) by {
                assert(head.push(s.last()) =~= s);
                lemma_packed_push(head, s.last(), c);
            }
        }
    }
}

/// A color is present after a push exactly when it is the pushed
/// entry's color or was present before.
proof fn lemma_packed_push(t: Seq<(u64, [u8; 3])>, e: (u64, [u8; 3]), c: [u8; 3])
    ensures
        contains_packed_entry(t.push(e), c) == (contains_packed_entry(t, c) || spec_pack_rgb(e.1)
            == spec_pack_rgb(c)),
{
    let s = t.push(e);
    if spec_pack_rgb(e.1) == spec_pack_rgb(c) {
        assert(s[t.len() as int] == e);
    }
    if contains_packed_entry(t, c) {
        let i = choose|i: int|
            0 <= i < t.len() && spec_pack_rgb((#[trigger] t[i]).1) == spec_pack_rgb(c);
        assert(s[i] == t[i]);
    }
    if contains_packed_entry(s, c) {
        let i = choose|i: int|
            0 <= i < s.len() && spec_pack_rgb((#[trigger] s[i]).1) == spec_pack_rgb(c);
        if i < t.len() {
            assert(t[i] == s[i]);
        }
    }
}

/// Pairs each color with its luminance, keeping the order.
pub open spec fn spec_with_lums(s: Seq<[u8; 3]>) -> Seq<(u64, [u8; 3])> {
    Seq::new(s.len(), |i: int| (spec_lum_of(s[i]) as u64, s[i]))
}

/// The ramp entries built from a color list: deduplicated by packed
/// RGB (first occurrence wins), paired with luminance, and stably
/// sorted ascending by luminance.
pub open spec fn spec_build_ramp(colors: Seq<[u8; 3]>) -> Seq<(u64, [u8; 3])> {
    spec_sort_by_lum(spec_with_lums(spec_dedup(colors)))
}

/// Deduplication keeps at least one element of a non-empty input.
pub proof fn lemma_dedup_nonempty(s: Seq<[u8; 3]>)
    requires
        s.len() > 0,
    ensures
        spec_dedup(s).len() > 0,
    decreases s.len(),
{
    if s.len() > 1 {
        lemma_dedup_nonempty(s.drop_last());
    }
}

/// The colors of a sequence of ramp entries, in order.
pub open spec fn entry_rgbs(s: Seq<(u64, [u8; 3])>) -> Seq<[u8; 3]> {
    Seq::new(s.len(), |i: int| s[i].1)
}

/// Whether some entry holds a color with the packed RGB value of `c`.
fn contains_packed_vec(entries: &Vec<(u64, [u8; 3])>, c: [u8; 3]) -> (r: bool)
    ensures
        r == contains_packed(entry_rgbs(entries@), c),
{
    let target = pack_rgb(c);
    let mut i: usize = 0;
    while i < entries.len()
        invariant
            i <= entries@.len(),
            target == spec_pack_rgb(c),
            forall|j: int|
                0 <= j < i ==> spec_pack_rgb(#[trigger] entry_rgbs(entries@)[j]) != spec_pack_rgb(
                    c,
                ),
        decreases entries@.len() - i,
    {
        let e = entries[i];
        if pack_rgb(e.1) == target {
            assert(entry_rgbs(entries@)[i as int] == e.1);
            return true;
        }
        assert(entry_rgbs(entries@)[i as int] == e.1);
        i = i + 1;
    }
    false
}

/// Inserting at the first position whose luminance exceeds the new
/// entry's is exactly the stable insertion.
proof fn lemma_insert_at_position(e: (u64, [u8; 3]), s: Seq<(u64, [u8; 3])>, idx: int)
    requires
        0 <= idx <= s.len(),
        forall|k: int| 0 <= k < idx ==> (#[trigger] s[k]).0 <= e.0,
        idx < s.len() ==> s[idx].0 > e.0,
    ensures
        spec_insert_sorted(e, s) == s.insert(idx, e),
    decreases idx,
{
    if idx == 0 {
        if s.len() == 0 {
            assert(spec_insert_sorted(e, s) =~= s.insert(0, e));
        } else {
            assert(spec_insert_sorted(e, s) =~= s.insert(0, e));
        }
    } else {
        assert(s[0].0 <= e.0);
        assert forall|k: int| 0 <= k < idx - 1 implies (#[trigger] s.drop_first()[k]).0 <= e.0 by {
            assert(s.drop_first()[k] == s[k + 1]);
        }
        assert(idx - 1 < s.drop_first().len() ==> s.drop_first()[idx - 1] == s[idx]);
        lemma_insert_at_position(e, s.drop_first(), idx - 1);
        assert(spec_insert_sorted(e, s) == seq![s[0]] + s.drop_first().insert(idx - 1, e));
        assert(seq![s[0]] + s.drop_first().insert(idx - 1, e) =~= s.insert(idx, e));
    }
}

/// Inserts one entry into a luminance-sorted vector, after any entries
/// of equal luminance.
fn insert_entry(sorted: &mut Vec<(u64, [u8; 3])>, e: (u64, [u8; 3]))
    ensures
        final(sorted)@ == spec_insert_sorted(e, old(sorted)@),
{
    let mut idx: usize = 0;
    while idx < sorted.len() && sorted[idx].0 <= e.0
        invariant
            idx <= sorted@.len(),
            sorted@ == old(sorted)@,
            forall|k: int| 0 <= k < idx ==> (#[trigger] sorted@[k]).0 <= e.0,
        decreases sorted@.len() - idx,
    {
        idx = idx + 1;
    }
    proof {
        lemma_insert_at_position(e, sorted@, idx as int);
    }
    sorted.insert(idx, e);
}

/// A monochrome lookup ramp: colors sorted ascending by relative
/// luminance, the luminances and RGB triples held side by side.
pub struct MonoRamp {
    /// Scaled relative luminance of each entry, ascending.
    pub luminances: Vec<u64>,
    /// The RGB triple of each entry, in the same order.
    pub rgbs: Vec<[u8; 3]>,
}

impl MonoRamp {
    /// The entries of the ramp as (luminance, color) pairs.
    pub open spec fn entries(&self) -> Seq<(u64, [u8; 3])> {
        Seq::new(self.luminances@.len() as nat, |i: int| (self.luminances@[i], self.rgbs@[i]))
    }

    /// A usable ramp: parallel columns of equal length, at least one
    /// entry.
    pub open spec fn wf(&self) -> bool {
        &&& self.luminances@.len() == self.rgbs@.len()
        &&& self.luminances@.len() > 0
    }

    /// The color of the ramp entry whose luminance is nearest the
    /// target, the earlier entry on an exact tie.
    pub fn nearest_rgb(&self, target: u64) -> (r: [u8; 3])
        requires
            self.wf(),
        ensures
            exists|i: int|
                #[trigger] is_nearest_first(self.luminances@, target, i) && r == self.rgbs@[i],
    {
        let idx = find_nearest_index(self.luminances.as_slice(), target);
        let r = self.rgbs[idx];
        proof {
            assert(is_nearest_first(self.luminances@, target, idx as int) && r == self.rgbs@[
            idx as int]);
        }
        r
    }
}

/// Builds the monochrome ramp for one base family: the shared extra
/// shades followed by the family's ten steps, deduplicated by exact
/// packed RGB (first occurrence wins), and stably sorted ascending by
/// luminance.
pub fn build_ramp(base: &[[u8; 3]; 10]) -> (ramp: MonoRamp)
    ensures
        ramp.wf(),
        ramp.entries() == spec_build_ramp(MONO_RAMP_EXTRAS@ + base@),
        sorted_by_lum(ramp.entries()),
        distinct_packed_entries(ramp.entries()),
        forall|j: int|
            0 <= j < ramp.luminances@.len() ==> #[trigger] ramp.luminances@[j] == spec_lum_of(
                ramp.rgbs@[j],
            ),
{
    let ghost all: Seq<[u8; 3]> = MONO_RAMP_EXTRAS@ + base@;
    let mut entries: Vec<(u64, [u8; 3])> = Vec::new();
    let mut i: usize = 0;
    while i < 13
        invariant
            i <= 13,
            all == MONO_RAMP_EXTRAS@ + base@,
            entries@ == spec_with_lums(spec_dedup(all.take(i as int))),
        decreases 13 - i,
    {
        let c = MONO_RAMP_EXTRAS[i];
        proof {
            assert(all[i as int] == c);
        }
        push_dedup(&mut entries, c, Ghost(all), Ghost(i as int));
        i = i + 1;
    }
    let mut j: usize = 0;
    while j < 10
        invariant
            j <= 10,
            all == MONO_RAMP_EXTRAS@ + base@,
            entries@ == spec_with_lums(spec_dedup(all.take(13 + j as int))),
        decreases 10 - j,
    {
        let c = base[j];
        proof {
            assert(all[13 + j as int] == c);
        }
        push_dedup(&mut entries, c, Ghost(all), Ghost(13 + j as int));
        j = j + 1;
    }
    proof {
        assert(all.take(23) =~= all);
    }
    let mut sorted: Vec<(u64, [u8; 3])> = Vec::new();
    let mut k: usize = 0;
    while k < entries.len()
        invariant
            k <= entries@.len(),
            sorted@ == spec_sort_by_lum(entries@.take(k as int)),
        decreases entries@.len() - k,
    {
        let e = entries[k];
        proof {
            assert(entries@.take(k + 1 as int).drop_last() =~= entries@.take(k as int));
            assert(entries@.take(k + 1 as int).last() == e);
        }
        insert_entry(&mut sorted, e);
        k = k + 1;
    }
    proof {
        assert(entries@.take(entries@.len() as int) =~= entries@);
        lemma_dedup_nonempty(all);
        lemma_sort_sorted(spec_with_lums(spec_dedup(all)));
    }
    let mut luminances: Vec<u64> = Vec::new();
    let mut rgbs: Vec<[u8; 3]> = Vec::new();
    let mut m: usize = 0;
    while m < sorted.len()
        invariant
            m <= sorted@.len(),
            luminances@.len() == m,
            rgbs@.len() == m,
            forall|t: int|
                0 <= t < m ==> (luminances@[t], rgbs@[t]) == #[trigger] sorted@[t],
        decreases sorted@.len() - m,
    {
        let e = sorted[m];
        luminances.push(e.0);
        rgbs.push(e.1);
        m = m + 1;
    }
    let ramp = MonoRamp { luminances, rgbs };
    proof {
        assert(ramp.entries() =~= sorted@);
        lemma_build_ramp_properties(all);
        assert forall|j: int| 0 <= j < ramp.luminances@.len() implies #[trigger] ramp.luminances@[j]
            == spec_lum_of(ramp.rgbs@[j]) by {
            assert(ramp.entries()[j] == (ramp.luminances@[j], ramp.rgbs@[j]));
        }
    }
    ramp
}

/// Appends a color with its luminance unless its packed RGB value is
/// already present: one step of the first-occurrence deduplication.
fn push_dedup(
    entries: &mut Vec<(u64, [u8; 3])>,
    c: [u8; 3],
    Ghost(all): Ghost<Seq<[u8; 3]>>,
    Ghost(n): Ghost<int>,
)
    requires
        0 <= n < all.len(),
        all[n] == c,
        old(entries)@ == spec_with_lums(spec_dedup(all.take(n))),
    ensures
        final(entries)@ == spec_with_lums(spec_dedup(all.take(n + 1))),
{
    proof {
        assert(all.take(n + 1).drop_last() =~= all.take(n));
        assert(all.take(n + 1).last() == c);
        lemma_dedup_contains(all.take(n), c);
        assert(entry_rgbs(spec_with_lums(spec_dedup(all.take(n)))) =~= spec_dedup(all.take(n)));
    }
    if !contains_packed_vec(entries, c) {
        let lum = luminance_from_u8(c[0], c[1], c[2]);
        entries.push((lum, c));
        proof {
            assert(final(entries)@ =~= spec_with_lums(spec_dedup(all.take(n + 1))));
        }
    }
}

/// Every element of a sorted sequence is an element of its input.
proof fn lemma_sort_elements(s: Seq<(u64, [u8; 3])>, j: int)
    requires
        0 <= j < spec_sort_by_lum(s).len(),
    ensures
        exists|k: int| 0 <= k < s.len() && spec_sort_by_lum(s)[j] == #[trigger] s[k],
    decreases s.len(),
{
    let head = s.drop_last();
    let sorted = spec_sort_by_lum(s);
    lemma_insert_element_bound(s.last(), spec_sort_by_lum(head), j);
    if sorted[j] == s.last() {
        assert(sorted[j] == s[s.len() - 1]);
    } else {
        let m = choose|m: int|
            0 <= m < spec_sort_by_lum(head).len() && sorted[j] == #[trigger] spec_sort_by_lum(
                head,
            )[m];
        lemma_sort_elements(head, m);
        let k = choose|k: int| 0 <= k < head.len() && spec_sort_by_lum(head)[m] == #[trigger] head[k];
        assert(head[k] == s[k]);
    }
}

/// A built ramp is sorted ascending by luminance, holds no two entries
/// with the same packed RGB value, and pairs every color with its own
/// luminance.
#[verifier::rlimit(50)]
pub proof fn lemma_build_ramp_properties(colors: Seq<[u8; 3]>)
    ensures
        sorted_by_lum(spec_build_ramp(colors)),
        distinct_packed_entries(spec_build_ramp(colors)),
        forall|j: int|
            0 <= j < spec_build_ramp(colors).len() ==> (#[trigger] spec_build_ramp(colors)[j]).0
                == spec_lum_of(spec_build_ramp(colors)[j].1),
{
    let deduped = spec_dedup(colors);
    let pairs = spec_with_lums(deduped);
    lemma_sort_sorted(pairs);
    lemma_dedup_distinct(colors);
    assert forall|i: int, j: int| 0 <= i < j < pairs.len() implies spec_pack_rgb(
        (#[trigger] pairs[i]).1,
    ) != spec_pack_rgb((#[trigger] pairs[j]).1) by {
        assert(pairs[i].1 == deduped[i] && pairs[j].1 == deduped[j]);
    }
    lemma_sort_distinct(pairs);
    assert forall|j: int| 0 <= j < spec_build_ramp(colors).len() implies (
    #[trigger] spec_build_ramp(colors)[j]).0 == spec_lum_of(spec_build_ramp(colors)[j].1) by {
        lemma_sort_elements(pairs, j);
        let k = choose|k: int|
            0 <= k < pairs.len() && spec_build_ramp(colors)[j] == #[trigger] pairs[k];
        assert(pairs[k].1 == deduped[k]);
    }
}

/// The three monochrome ramps, one per gray family, built once and
/// shared read-only thereafter.
pub struct MonochromeRamps {
    /// The ramp of the default gray family.
    pub default_gray: MonoRamp,
    /// The ramp of the cool gray family.
    pub cool: MonoRamp,
    /// The ramp of the warm gray family.
    pub warm: MonoRamp,
}

impl MonochromeRamps {
    /// Each family's ramp was built from its own base palette.
    pub open spec fn wf(&self) -> bool {
        &&& self.default_gray.wf()
        &&& self.default_gray.entries() == spec_build_ramp(MONO_RAMP_EXTRAS@ + GRAY_RAMP@)
        &&& self.cool.wf()
        &&& self.cool.entries() == spec_build_ramp(MONO_RAMP_EXTRAS@ + COOL_GRAY_RAMP@)
        &&& self.warm.wf()
        &&& self.warm.entries() == spec_build_ramp(MONO_RAMP_EXTRAS@ + WARM_GRAY_RAMP@)
    }
}

/// Builds the ramps of all three gray families.
pub fn build_monochrome_ramps() -> (r: MonochromeRamps)
    ensures
        r.wf(),
{
    MonochromeRamps {
        default_gray: build_ramp(&GRAY_RAMP),
        cool: build_ramp(&COOL_GRAY_RAMP),
        warm: build_ramp(&WARM_GRAY_RAMP),
    }
}

/// A name for the cool gray family, in any accepted spelling.
pub open spec fn is_cool_family(f: Seq<char>) -> bool {
    f == "coolgray"@ || f == "cool-gray"@ || f == "cool"@
}

/// A name for the warm gray family, in any accepted spelling.
pub open spec fn is_warm_family(f: Seq<char>) -> bool {
    f == "warmgray"@ || f == "warm-gray"@ || f == "warm"@
}

/// The ramp a family name selects: cool or warm by their aliases, and
/// the default gray family for every other name.
pub open spec fn spec_select_ramp(ramps: MonochromeRamps, f: Seq<char>) -> MonoRamp {
    if is_cool_family(f) {
        ramps.cool
    } else if is_warm_family(f) {
        ramps.warm
    } else {
        ramps.default_gray
    }
}

/// Selects the ramp for a family name. Unrecognized names fall back to
/// the default gray family; they are never an error.
pub fn select_monochrome_ramp<'a>(ramps: &'a MonochromeRamps, family: &str) -> (r: &'a MonoRamp)
    ensures
        *r == spec_select_ramp(*ramps, family@),
{
    if crate::text::str_eq(family, "coolgray") || crate::text::str_eq(family, "cool-gray")
        || crate::text::str_eq(family, "cool") {
        &ramps.cool
    } else if crate::text::str_eq(family, "warmgray") || crate::text::str_eq(family, "warm-gray")
        || crate::text::str_eq(family, "warm") {
        &ramps.warm
    } else {
        &ramps.default_gray
    }
}

} // verus!
