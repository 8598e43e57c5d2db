//! The name generator.
//!
//! A name is a run of fragments drawn alternately from the vowel and the
//! consonant table, each legal for its position in the word, concatenated
//! and capitalized. The number of fragments is drawn from `[min, max)`
//! when `min < max` (the upper bound is exclusive) and is exactly `min`
//! when `min == max`.

use vstd::prelude::*;
use rand::rngs::SmallRng;
use crate::random::{rng_bool, rng_range_u8, rng_usize};
use crate::tables::{
    AIW, BOW, CONSONANT_COUNT, EOW, MOW, VOWEL_COUNT, begin_entry_wf, con_entry, consonant_at,
    in_consonants, in_table, in_vowels, lemma_consonant_begin_wf, lemma_consonant_starts_lower,
    lemma_vowel_begin_wf, vow_entry, vowel_at,
};
use crate::text::{
    concat_texts, frag_views, is_lower, is_upper, lemma_concat_chars, render, spec_render,
    text_chars_lower, to_upper,
};

verus! {

/// How many uniform draws a position may reject before the draw-and-filter
/// loop gives up and takes the first legal entry by table scan. The cap
/// exists so that the loop provably terminates; with the shipped tables at
/// least a third of each table is legal at every position, so the cap is
/// never reached in practice.
pub const RETRY_CAP: usize = 100000;

/// A fragment with mask `mask` may stand at position `idx` of a word of
/// `length` fragments: the first position asks for the begin flag, the
/// last for the end flag, interior positions for the middle flag. The
/// first position of a one-fragment word is checked against the begin
/// flag only, never the end flag.
pub open spec fn placement_ok(mask: u8, idx: int, length: int) -> bool {
    if idx == 0 {
        mask & BOW == BOW
    } else if idx == length - 1 {
        mask & EOW == EOW
    } else {
        mask & MOW == MOW
    }
}

/// Decides `placement_ok` for a fragment mask.
pub fn placement_allows(mask: u8, idx: usize, length: usize) -> (b: bool)
    requires
        idx < length,
    ensures
        b == placement_ok(mask, idx as int, length as int),
{
    if idx == 0 {
        mask & BOW == BOW
    } else if idx == length - 1 {
        mask & EOW == EOW
    } else {
        mask & MOW == MOW
    }
}

/// Entry `i` of the vowel table when `vowel` holds, else of the consonant
/// table.
pub open spec fn table_entry(vowel: bool, i: int) -> (Seq<char>, u8) {
    if vowel {
        vow_entry(i)
    } else {
        con_entry(i)
    }
}

/// The number of entries of the chosen table.
pub open spec fn table_count(vowel: bool) -> int {
    if vowel {
        VOWEL_COUNT as int
    } else {
        CONSONANT_COUNT as int
    }
}

/// A fragment whose mask has all three placement bits set may stand at any
/// position of any word.
pub proof fn lemma_aiw_everywhere(idx: int, length: int)
    ensures
        placement_ok(AIW, idx, length),
{
    assert((7u8 & 4u8) == 4u8) by (bit_vector);
    assert((7u8 & 1u8) == 1u8) by (bit_vector);
    assert((7u8 & 2u8) == 2u8) by (bit_vector);
}

/// The first entry of either table that is legal at position `idx`; both
/// tables open with an entry legal everywhere, so the scan always finds
/// one.
fn first_legal(vowel: bool, idx: usize, length: usize) -> (r: (&'static str, u8))
    requires
        idx < length,
    ensures
        in_table(vowel, r.0@, r.1),
        placement_ok(r.1, idx as int, length as int),
{
    proof {
        lemma_aiw_everywhere(idx as int, length as int);
    }
    let count = if vowel {
        VOWEL_COUNT
    } else {
        CONSONANT_COUNT
    };
    let mut j: usize = 0;
    while j < count
        invariant
            idx < length,
            count as int == table_count(vowel),
            j <= count,
            forall|t: int|
                0 <= t < j ==> !placement_ok(
                    (#[trigger] table_entry(vowel, t)).1,
                    idx as int,
                    length as int,
                ),
        decreases count - j,
    {
        let e = if vowel {
            vowel_at(j)
        } else {
            consonant_at(j)
        };
        proof {
            assert(table_entry(vowel, j as int) == (e.0@, e.1));
        }
        if placement_allows(e.1, idx, length) {
            proof {
                if vowel {
                    assert(in_vowels(e.0@, e.1)) by {
                        assert(0 <= (j as int) && (j as int) < VOWEL_COUNT && vow_entry(j as int) == (e.0@, e.1));
                    }
                } else {
                    assert(in_consonants(e.0@, e.1)) by {
                        assert(0 <= (j as int) && (j as int) < CONSONANT_COUNT && con_entry(j as int) == (e.0@, e.1));
                    }
                }
            }
            return e;
        }
        j += 1;
    }
    proof {
        assert(table_entry(vowel, 0).1 == AIW);
        assert(false);
    }
    vstd::pervasive::unreached()
}

/// Draws uniform indexes into the chosen table until a fragment legal at
/// position `idx` comes up; past the retry cap it falls back to the first
/// legal entry by scan.
fn pick(vowel: bool, idx: usize, length: usize, rng: &mut SmallRng) -> (r: (&'static str, u8))
    requires
        idx < length,
    ensures
        in_table(vowel, r.0@, r.1),
        placement_ok(r.1, idx as int, length as int),
{
    let mut tries: usize = 0;
    while tries < RETRY_CAP
        invariant
            idx < length,
        decreases RETRY_CAP - tries,
    {
        let e = if vowel {
            let j = rng_usize(rng) % VOWEL_COUNT;
            let e = vowel_at(j);
            proof {
                assert(in_vowels(e.0@, e.1)) by {
                    assert(0 <= (j as int) && (j as int) < VOWEL_COUNT && vow_entry(j as int) == (e.0@, e.1));
                }
            }
            e
        } else {
            let j = rng_usize(rng) % CONSONANT_COUNT;
            let e = consonant_at(j);
            proof {
                assert(in_consonants(e.0@, e.1)) by {
                    assert(0 <= (j as int) && (j as int) < CONSONANT_COUNT && con_entry(j as int) == (e.0@, e.1));
                }
            }
            e
        };
        if placement_allows(e.1, idx, length) {
            return e;
        }
        tries += 1;
    }
    first_legal(vowel, idx, length)
}

/// Position `k` draws from the vowel table exactly when its parity keeps
/// the starting choice (`first_vowel`) or flips it on odd positions.
pub open spec fn source_is_vowel(first_vowel: bool, k: int) -> bool {
    if k % 2 == 0 {
        first_vowel
    } else {
        !first_vowel
    }
}

/// A legal assembly: every fragment comes from the table its parity
/// selects and is legal at its position.
pub open spec fn assembly_ok(frags: Seq<(Seq<char>, u8)>, first_vowel: bool) -> bool {
    forall|k: int|
        0 <= k < frags.len() ==> {
            &&& in_table(source_is_vowel(first_vowel, k), (#[trigger] frags[k]).0, frags[k].1)
            &&& placement_ok(frags[k].1, k, frags.len() as int)
        }
}

/// Draws `length` fragments, alternating tables starting from
/// `first_vowel`, each legal at its position.
pub fn assemble(length: u8, first_vowel: bool, rng: &mut SmallRng) -> (v: Vec<(&'static str, u8)>)
    ensures
        v@.len() == length as int,
        assembly_ok(frag_views(v@), first_vowel),
{
    let len = length as usize;
    let mut v: Vec<(&'static str, u8)> = Vec::new();
    let mut vowel = first_vowel;
    let mut idx: usize = 0;
    while idx < len
        invariant
            idx <= len,
            len == length as int,
            v@.len() == idx,
            vowel == source_is_vowel(first_vowel, idx as int),
            forall|k: int|
                0 <= k < idx ==> {
                    &&& in_table(source_is_vowel(first_vowel, k), (#[trigger] v@[k]).0@, v@[k].1)
                    &&& placement_ok(v@[k].1, k, len as int)
                },
        decreases len - idx,
    {
        let e = pick(vowel, idx, len, rng);
        v.push(e);
        vowel = !vowel;
        idx += 1;
    }
    proof {
        assert forall|k: int| 0 <= k < frag_views(v@).len() implies {
            &&& in_table(
                source_is_vowel(first_vowel, k),
                (#[trigger] frag_views(v@)[k]).0,
                frag_views(v@)[k].1,
            )
            &&& placement_ok(frag_views(v@)[k].1, k, frag_views(v@).len() as int)
        } by {
            assert(frag_views(v@)[k] == (v@[k].0@, v@[k].1));
        }
    }
    v
}

/// The fragment count drawn for bounds `min` and `max`: uniform in
/// `[min, max)` when `min < max` (the upper bound is exclusive), exactly
/// `min` when the bounds agree.
pub open spec fn length_ok(min: int, max: int, l: int) -> bool {
    if min < max {
        min <= l < max
    } else {
        l == min
    }
}

/// Draws the fragment count for the given bounds.
pub fn choose_length(min: u8, max: u8, rng: &mut SmallRng) -> (l: u8)
    requires
        min <= max,
    ensures
        length_ok(min as int, max as int, l as int),
{
    if min < max {
        rng_range_u8(rng, min, max)
    } else {
        min
    }
}

/// The one error: the caller asked for `min > max`.
#[derive(Debug, PartialEq, Eq)]
pub struct InvalidRange;

/// Generates pronounceable names from the two fragment tables: fragments
/// are drawn alternately from the vowel and the consonant table, filtered
/// by their placement masks, concatenated, and capitalized.
pub struct Totro;

impl Totro {
    /// `name` is a possible output for the bounds `min` and `max`: the
    /// rendering of some legal assembly whose fragment count lies in the
    /// asked-for range.
    pub open spec fn generated_ok(min: int, max: int, name: Seq<char>) -> bool {
        exists|frags: Seq<(Seq<char>, u8)>, first_vowel: bool|
            {
                &&& length_ok(min, max, frags.len() as int)
                &&& #[trigger] assembly_ok(frags, first_vowel)
                &&& name == spec_render(frags)
            }
    }

    fn build(min: u8, max: u8, rng: &mut SmallRng) -> (name: String)
        requires
            min <= max,
        ensures
            Self::generated_ok(min as int, max as int, name@),
            max == 0 ==> name@ == Seq::<char>::empty(),
    {
        let length = choose_length(min, max, rng);
        let first_vowel = rng_bool(rng);
        let parts = assemble(length, first_vowel, rng);
        let name = render(&parts);
        proof {
            let frags = frag_views(parts@);
            assert(frags.len() == parts@.len());
            assert(Self::generated_ok(min as int, max as int, name@)) by {
                assert(length_ok(min as int, max as int, frags.len() as int)
                    && assembly_ok(frags, first_vowel) && name@ == spec_render(frags));
            }
            if max == 0 {
                assert(frags =~= Seq::<(Seq<char>, u8)>::empty());
                assert(name@ == Seq::<char>::empty());
            }
        }
        name
    }

    /// Generates one name for bounds checked at run time: `min > max` is
    /// answered with `InvalidRange` before any randomness is drawn.
    pub fn try_generate(min: u8, max: u8, rng: &mut SmallRng) -> (r: Result<String, InvalidRange>)
        ensures
            (r is Err) <==> min > max,
            r is Ok ==> Self::generated_ok(min as int, max as int, (r->Ok_0)@),
            min <= max && max == 0 ==> r is Ok && (r->Ok_0)@ == Seq::<char>::empty(),
    {
        if min > max {
            Err(InvalidRange)
        } else {
            Ok(Self::build(min, max, rng))
        }
    }

    /// Generates one name of `[min, max)` fragments (`min` exactly when
    /// the bounds agree), capitalized. `min` must not exceed `max`.
    pub fn generate(min: u8, max: u8, rng: &mut SmallRng) -> (name: String)
        requires
            min <= max,
        ensures
            Self::generated_ok(min as int, max as int, name@),
            max == 0 ==> name@ == Seq::<char>::empty(),
    {
        match Self::try_generate(min, max, rng) {
            Ok(name) => name,
            Err(_) => vstd::pervasive::unreached(),
        }
    }
}

/// Placement law: in a name of at least two fragments the first fragment
/// is begin-legal, the last end-legal and every interior one middle-legal.
pub proof fn lemma_placement(frags: Seq<(Seq<char>, u8)>, first_vowel: bool)
    requires
        assembly_ok(frags, first_vowel),
        frags.len() >= 2,
    ensures
        frags[0].1 & BOW == BOW,
        frags[frags.len() - 1].1 & EOW == EOW,
        forall|k: int| 1 <= k < frags.len() - 1 ==> (#[trigger] frags[k]).1 & MOW == MOW,
{
    assert(placement_ok(frags[0].1, 0, frags.len() as int));
    assert(placement_ok(frags[frags.len() - 1].1, frags.len() - 1, frags.len() as int));
    assert forall|k: int| 1 <= k < frags.len() - 1 implies (#[trigger] frags[k]).1 & MOW
        == MOW by {
        assert(placement_ok(frags[k].1, k, frags.len() as int));
    }
}

/// Placement law for one-fragment names: only the begin flag is asked of
/// the sole fragment, never the end flag.
pub proof fn lemma_placement_single(frags: Seq<(Seq<char>, u8)>, first_vowel: bool)
    requires
        assembly_ok(frags, first_vowel),
        frags.len() == 1,
    ensures
        frags[0].1 & BOW == BOW,
{
    assert(placement_ok(frags[0].1, 0, 1));
}

/// Alternation law: each fragment comes from the table its parity selects,
/// so no two adjacent fragments share a source table.
pub proof fn lemma_alternation(frags: Seq<(Seq<char>, u8)>, first_vowel: bool, k: int)
    requires
        assembly_ok(frags, first_vowel),
        0 <= k,
        k + 1 < frags.len(),
    ensures
        in_table(source_is_vowel(first_vowel, k), frags[k].0, frags[k].1),
        in_table(!source_is_vowel(first_vowel, k), frags[k + 1].0, frags[k + 1].1),
{
    assert(source_is_vowel(first_vowel, k + 1) == !source_is_vowel(first_vowel, k));
}

/// Every fragment of a legal assembly is a table entry, so its text holds
/// lowercase letters and apostrophes only.
pub proof fn lemma_assembly_texts_lower(frags: Seq<(Seq<char>, u8)>, first_vowel: bool, k: int)
    requires
        assembly_ok(frags, first_vowel),
        0 <= k < frags.len(),
    ensures
        text_chars_lower(frags[k].0),
{
    assert(in_table(source_is_vowel(first_vowel, k), frags[k].0, frags[k].1));
    if source_is_vowel(first_vowel, k) {
        let j = choose|j: int|
            0 <= j < VOWEL_COUNT && #[trigger] vow_entry(j) == (frags[k].0, frags[k].1);
        lemma_vowel_begin_wf(j);
    } else {
        let j = choose|j: int|
            0 <= j < CONSONANT_COUNT && #[trigger] con_entry(j) == (frags[k].0, frags[k].1);
        lemma_consonant_starts_lower(j);
    }
}

/// Capitalization law: a nonempty name starts with an uppercase ASCII
/// letter, and every character after the first keeps its case from the
/// fragment tables, a lowercase letter or an apostrophe.
pub proof fn lemma_capitalized(frags: Seq<(Seq<char>, u8)>, first_vowel: bool)
    requires
        assembly_ok(frags, first_vowel),
        frags.len() >= 1,
    ensures
        spec_render(frags).len() >= 1,
        is_upper(spec_render(frags)[0]),
        spec_render(frags).skip(1) == concat_texts(frags).skip(1),
        text_chars_lower(spec_render(frags).skip(1)),
{
    assert(placement_ok(frags[0].1, 0, frags.len() as int));
    assert(frags[0].1 & BOW == BOW);
    assert(in_table(source_is_vowel(first_vowel, 0), frags[0].0, frags[0].1));
    if source_is_vowel(first_vowel, 0) {
        let j = choose|j: int|
            0 <= j < VOWEL_COUNT && #[trigger] vow_entry(j) == (frags[0].0, frags[0].1);
        lemma_vowel_begin_wf(j);
        assert(begin_entry_wf(vow_entry(j)));
    } else {
        let j = choose|j: int|
            0 <= j < CONSONANT_COUNT && #[trigger] con_entry(j) == (frags[0].0, frags[0].1);
        lemma_consonant_begin_wf(j);
        assert(begin_entry_wf(con_entry(j)));
    }
    assert(frags[0].0.len() >= 1 && is_lower(frags[0].0[0]));
    let cat = concat_texts(frags);
    assert(cat == frags[0].0 + concat_texts(frags.drop_first()));
    assert(cat.len() >= 1);
    assert(cat[0] == frags[0].0[0]);
    assert(is_upper(to_upper(cat[0])));
    assert(spec_render(frags) == cat.update(0, to_upper(cat[0])));
    assert(spec_render(frags).skip(1) =~= cat.skip(1));
    assert forall|i: int| 0 <= i < cat.skip(1).len() implies is_lower(#[trigger] cat.skip(1)[i])
        || cat.skip(1)[i] == '\'' by {
        assert(cat.skip(1)[i] == cat[i + 1]);
        lemma_concat_chars(frags, i + 1);
        let (k, m) = choose|k: int, m: int|
            0 <= k < frags.len() && 0 <= m < frags[k].0.len() && cat[i + 1] == (
            #[trigger] frags[k].0[m]);
        lemma_assembly_texts_lower(frags, first_vowel, k);
        assert(is_lower(frags[k].0[m]) || frags[k].0[m] == '\'');
    }
}

} // verus!
