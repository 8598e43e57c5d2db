//! The two fragment tables and their placement masks.
//!
//! Each table entry pairs a short lowercase text with a placement mask.
//! Repeated entries are deliberate: under uniform index draws they weight
//! the more common sounds more heavily. The consonant table lists 52 base
//! entries, then two extra copies of the 17 most common single letters, then
//! extra copies of five r-blends. The vowel table cycles twelve times
//! through the five single vowels, then lists twenty two-letter blends and
//! three specials.
//!
//! Every entry is given twice, as a spec function on `int` indices (the
//! mathematical table the contracts speak of) and as an executable lookup
//! proved to return exactly the spec entry.

use vstd::prelude::*;
use crate::text::{is_lower, text_chars_lower};

verus! {

/// Placement mask: usable nowhere in a word.
pub const NIW: u8 = 0b00000000;

/// Placement mask bit: usable at the beginning of a word.
pub const BOW: u8 = 0b00000100;

/// Placement mask bit: usable in the middle of a word.
pub const MOW: u8 = 0b00000010;

/// Placement mask bit: usable at the end of a word.
pub const EOW: u8 = 0b00000001;

/// Placement mask: beginning or middle (`BOW | MOW`).
pub const BMW: u8 = 0b00000110;

/// Placement mask: beginning or end (`BOW | EOW`).
pub const BEW: u8 = 0b00000101;

/// Placement mask: middle or end (`MOW | EOW`).
pub const MEW: u8 = 0b00000011;

/// Placement mask: anywhere in a word (`BOW | MOW | EOW`).
pub const AIW: u8 = 0b00000111;

/// Number of entries in the consonant table.
pub const CONSONANT_COUNT: usize = 91;

/// Number of entries in the vowel table.
pub const VOWEL_COUNT: usize = 83;

/// The 52 base entries of the consonant table.
pub open spec fn con_base(i: int) -> (Seq<char>, u8) {
    if i == 0 {
        ("b"@, AIW)
    } else if i == 1 {
        ("c"@, AIW)
    } else if i == 2 {
        ("d"@, AIW)
    } else if i == 3 {
        ("f"@, AIW)
    } else if i == 4 {
        ("g"@, AIW)
    } else if i == 5 {
        ("h"@, AIW)
    } else if i == 6 {
        ("j"@, AIW)
    } else if i == 7 {
        ("k"@, AIW)
    } else if i == 8 {
        ("l"@, AIW)
    } else if i == 9 {
        ("m"@, AIW)
    } else if i == 10 {
        ("n"@, AIW)
    } else if i == 11 {
        ("p"@, AIW)
    } else if i == 12 {
        ("qu"@, BMW)
    } else if i == 13 {
        ("r"@, AIW)
    } else if i == 14 {
        ("s"@, AIW)
    } else if i == 15 {
        ("t"@, AIW)
    } else if i == 16 {
        ("v"@, AIW)
    } else if i == 17 {
        ("w"@, AIW)
    } else if i == 18 {
        ("x"@, AIW)
    } else if i == 19 {
        ("y"@, AIW)
    } else if i == 20 {
        ("z"@, AIW)
    } else if i == 21 {
        ("sc"@, AIW)
    } else if i == 22 {
        ("ch"@, AIW)
    } else if i == 23 {
        ("gh"@, AIW)
    } else if i == 24 {
        ("ph"@, AIW)
    } else if i == 25 {
        ("sh"@, AIW)
    } else if i == 26 {
        ("th"@, AIW)
    } else if i == 27 {
        ("wh"@, BMW)
    } else if i == 28 {
        ("ck"@, BEW)
    } else if i == 29 {
        ("nk"@, BEW)
    } else if i == 30 {
        ("rk"@, BEW)
    } else if i == 31 {
        ("sk"@, AIW)
    } else if i == 32 {
        ("wk"@, NIW)
    } else if i == 33 {
        ("cl"@, BMW)
    } else if i == 34 {
        ("fl"@, BMW)
    } else if i == 35 {
        ("gl"@, BMW)
    } else if i == 36 {
        ("kl"@, BMW)
    } else if i == 37 {
        ("ll"@, BMW)
    } else if i == 38 {
        ("pl"@, BMW)
    } else if i == 39 {
        ("sl"@, BMW)
    } else if i == 40 {
        ("br"@, BMW)
    } else if i == 41 {
        ("cr"@, BMW)
    } else if i == 42 {
        ("dr"@, BMW)
    } else if i == 43 {
        ("fr"@, BMW)
    } else if i == 44 {
        ("gr"@, BMW)
    } else if i == 45 {
        ("kr"@, BMW)
    } else if i == 46 {
        ("pr"@, BMW)
    } else if i == 47 {
        ("sr"@, BMW)
    } else if i == 48 {
        ("tr"@, BMW)
    } else if i == 49 {
        ("ss"@, BEW)
    } else if i == 50 {
        ("st"@, AIW)
    } else {
        ("str"@, BMW)
    }
}

/// Fetches base consonant entry `i`.
pub fn con_base_at(i: usize) -> (r: (&'static str, u8))
    requires
        i < 52,
    ensures
        (r.0@, r.1) == con_base(i as int),
{
    if i == 0 {
        ("b", AIW)
    } else if i == 1 {
        ("c", AIW)
    } else if i == 2 {
        ("d", AIW)
    } else if i == 3 {
        ("f", AIW)
    } else if i == 4 {
        ("g", AIW)
    } else if i == 5 {
        ("h", AIW)
    } else if i == 6 {
        ("j", AIW)
    } else if i == 7 {
        ("k", AIW)
    } else if i == 8 {
        ("l", AIW)
    } else if i == 9 {
        ("m", AIW)
    } else if i == 10 {
        ("n", AIW)
    } else if i == 11 {
        ("p", AIW)
    } else if i == 12 {
        ("qu", BMW)
    } else if i == 13 {
        ("r", AIW)
    } else if i == 14 {
        ("s", AIW)
    } else if i == 15 {
        ("t", AIW)
    } else if i == 16 {
        ("v", AIW)
    } else if i == 17 {
        ("w", AIW)
    } else if i == 18 {
        ("x", AIW)
    } else if i == 19 {
        ("y", AIW)
    } else if i == 20 {
        ("z", AIW)
    } else if i == 21 {
        ("sc", AIW)
    } else if i == 22 {
        ("ch", AIW)
    } else if i == 23 {
        ("gh", AIW)
    } else if i == 24 {
        ("ph", AIW)
    } else if i == 25 {
        ("sh", AIW)
    } else if i == 26 {
        ("th", AIW)
    } else if i == 27 {
        ("wh", BMW)
    } else if i == 28 {
        ("ck", BEW)
    } else if i == 29 {
        ("nk", BEW)
    } else if i == 30 {
        ("rk", BEW)
    } else if i == 31 {
        ("sk", AIW)
    } else if i == 32 {
        ("wk", NIW)
    } else if i == 33 {
        ("cl", BMW)
    } else if i == 34 {
        ("fl", BMW)
    } else if i == 35 {
        ("gl", BMW)
    } else if i == 36 {
        ("kl", BMW)
    } else if i == 37 {
        ("ll", BMW)
    } else if i == 38 {
        ("pl", BMW)
    } else if i == 39 {
        ("sl", BMW)
    } else if i == 40 {
        ("br", BMW)
    } else if i == 41 {
        ("cr", BMW)
    } else if i == 42 {
        ("dr", BMW)
    } else if i == 43 {
        ("fr", BMW)
    } else if i == 44 {
        ("gr", BMW)
    } else if i == 45 {
        ("kr", BMW)
    } else if i == 46 {
        ("pr", BMW)
    } else if i == 47 {
        ("sr", BMW)
    } else if i == 48 {
        ("tr", BMW)
    } else if i == 49 {
        ("ss", BEW)
    } else if i == 50 {
        ("st", AIW)
    } else {
        ("str", BMW)
    }
}

/// The 17 single consonants that the table repeats twice more for weight.
pub open spec fn con_single(k: int) -> Seq<char> {
    if k == 0 {
        "b"@
    } else if k == 1 {
        "c"@
    } else if k == 2 {
        "d"@
    } else if k == 3 {
        "f"@
    } else if k == 4 {
        "g"@
    } else if k == 5 {
        "h"@
    } else if k == 6 {
        "j"@
    } else if k == 7 {
        "k"@
    } else if k == 8 {
        "l"@
    } else if k == 9 {
        "m"@
    } else if k == 10 {
        "n"@
    } else if k == 11 {
        "p"@
    } else if k == 12 {
        "r"@
    } else if k == 13 {
        "s"@
    } else if k == 14 {
        "t"@
    } else if k == 15 {
        "v"@
    } else {
        "w"@
    }
}

/// Fetches repeated single consonant `k`.
pub fn con_single_at(k: usize) -> (r: &'static str)
    requires
        k < 17,
    ensures
        r@ == con_single(k as int),
{
    if k == 0 {
        "b"
    } else if k == 1 {
        "c"
    } else if k == 2 {
        "d"
    } else if k == 3 {
        "f"
    } else if k == 4 {
        "g"
    } else if k == 5 {
        "h"
    } else if k == 6 {
        "j"
    } else if k == 7 {
        "k"
    } else if k == 8 {
        "l"
    } else if k == 9 {
        "m"
    } else if k == 10 {
        "n"
    } else if k == 11 {
        "p"
    } else if k == 12 {
        "r"
    } else if k == 13 {
        "s"
    } else if k == 14 {
        "t"
    } else if k == 15 {
        "v"
    } else {
        "w"
    }
}

/// The five r-blends that the consonant table repeats once more for weight.
pub open spec fn con_blend_rep(k: int) -> Seq<char> {
    if k == 0 {
        "br"@
    } else if k == 1 {
        "dr"@
    } else if k == 2 {
        "fr"@
    } else if k == 3 {
        "gr"@
    } else {
        "kr"@
    }
}

/// Fetches repeated consonant blend `k`.
pub fn con_blend_rep_at(k: usize) -> (r: &'static str)
    requires
        k < 5,
    ensures
        r@ == con_blend_rep(k as int),
{
    if k == 0 {
        "br"
    } else if k == 1 {
        "dr"
    } else if k == 2 {
        "fr"
    } else if k == 3 {
        "gr"
    } else {
        "kr"
    }
}

/// Entry `i` of the consonant table.
pub open spec fn con_entry(i: int) -> (Seq<char>, u8) {
    if i < 52 {
        con_base(i)
    } else if i < 86 {
        (con_single((i - 52) % 17), AIW)
    } else {
        (con_blend_rep(i - 86), BMW)
    }
}

/// Fetches entry `i` of the consonant table.
pub fn consonant_at(i: usize) -> (r: (&'static str, u8))
    requires
        i < CONSONANT_COUNT,
    ensures
        (r.0@, r.1) == con_entry(i as int),
{
    if i < 52 {
        con_base_at(i)
    } else if i < 86 {
        (con_single_at((i - 52) % 17), AIW)
    } else {
        (con_blend_rep_at(i - 86), BMW)
    }
}

/// The five single vowels, in the order the head of the vowel table cycles
/// through them.
pub open spec fn vowel_single(k: int) -> Seq<char> {
    if k == 0 {
        "a"@
    } else if k == 1 {
        "e"@
    } else if k == 2 {
        "i"@
    } else if k == 3 {
        "o"@
    } else {
        "u"@
    }
}

/// Fetches the single vowel of cycle position `k`.
pub fn vowel_single_at(k: usize) -> (r: &'static str)
    requires
        k < 5,
    ensures
        r@ == vowel_single(k as int),
{
    if k == 0 {
        "a"
    } else if k == 1 {
        "e"
    } else if k == 2 {
        "i"
    } else if k == 3 {
        "o"
    } else {
        "u"
    }
}

/// The twenty two-letter vowel blends.
pub open spec fn vowel_blend(k: int) -> Seq<char> {
    if k == 0 {
        "aa"@
    } else if k == 1 {
        "ae"@
    } else if k == 2 {
        "ai"@
    } else if k == 3 {
        "ao"@
    } else if k == 4 {
        "au"@
    } else if k == 5 {
        "ea"@
    } else if k == 6 {
        "ee"@
    } else if k == 7 {
        "ei"@
    } else if k == 8 {
        "eo"@
    } else if k == 9 {
        "eu"@
    } else if k == 10 {
        "ia"@
    } else if k == 11 {
        "ie"@
    } else if k == 12 {
        "ii"@
    } else if k == 13 {
        "io"@
    } else if k == 14 {
        "iu"@
    } else if k == 15 {
        "oa"@
    } else if k == 16 {
        "oe"@
    } else if k == 17 {
        "oi"@
    } else if k == 18 {
        "oo"@
    } else {
        "ou"@
    }
}

/// Fetches vowel blend `k`.
pub fn vowel_blend_at(k: usize) -> (r: &'static str)
    requires
        k < 20,
    ensures
        r@ == vowel_blend(k as int),
{
    if k == 0 {
        "aa"
    } else if k == 1 {
        "ae"
    } else if k == 2 {
        "ai"
    } else if k == 3 {
        "ao"
    } else if k == 4 {
        "au"
    } else if k == 5 {
        "ea"
    } else if k == 6 {
        "ee"
    } else if k == 7 {
        "ei"
    } else if k == 8 {
        "eo"
    } else if k == 9 {
        "eu"
    } else if k == 10 {
        "ia"
    } else if k == 11 {
        "ie"
    } else if k == 12 {
        "ii"
    } else if k == 13 {
        "io"
    } else if k == 14 {
        "iu"
    } else if k == 15 {
        "oa"
    } else if k == 16 {
        "oe"
    } else if k == 17 {
        "oi"
    } else if k == 18 {
        "oo"
    } else {
        "ou"
    }
}

/// Entry `i` of the vowel table: twelve cycles of the five single vowels,
/// the twenty blends, then `eau`, the apostrophe and `y`.
pub open spec fn vow_entry(i: int) -> (Seq<char>, u8) {
    if i < 60 {
        (vowel_single(i % 5), AIW)
    } else if i < 80 {
        (vowel_blend(i - 60), AIW)
    } else if i == 80 {
        ("eau"@, AIW)
    } else if i == 81 {
        ("'"@, MEW)
    } else {
        ("y"@, AIW)
    }
}

/// Fetches entry `i` of the vowel table.
pub fn vowel_at(i: usize) -> (r: (&'static str, u8))
    requires
        i < VOWEL_COUNT,
    ensures
        (r.0@, r.1) == vow_entry(i as int),
{
    if i < 60 {
        (vowel_single_at(i % 5), AIW)
    } else if i < 80 {
        (vowel_blend_at(i - 60), AIW)
    } else if i == 80 {
        ("eau", AIW)
    } else if i == 81 {
        ("'", MEW)
    } else {
        ("y", AIW)
    }
}

/// The consonant table holds an entry with this text and mask.
pub open spec fn in_consonants(text: Seq<char>, mask: u8) -> bool {
    exists|j: int| 0 <= j < CONSONANT_COUNT && #[trigger] con_entry(j) == (text, mask)
}

/// The vowel table holds an entry with this text and mask.
pub open spec fn in_vowels(text: Seq<char>, mask: u8) -> bool {
    exists|j: int| 0 <= j < VOWEL_COUNT && #[trigger] vow_entry(j) == (text, mask)
}

/// Membership in the vowel table when `vowel` holds, else in the consonant
/// table.
pub open spec fn in_table(vowel: bool, text: Seq<char>, mask: u8) -> bool {
    if vowel {
        in_vowels(text, mask)
    } else {
        in_consonants(text, mask)
    }
}

/// An entry that may begin a word has a nonempty text starting with a
/// lowercase letter.
pub open spec fn begin_entry_wf(e: (Seq<char>, u8)) -> bool {
    e.1 & BOW == BOW ==> e.0.len() >= 1 && is_lower(e.0[0])
}

/// Every consonant entry's text is nonempty and starts with a lowercase
/// letter.
pub proof fn lemma_consonant_starts_lower(j: int)
    requires
        0 <= j < CONSONANT_COUNT,
    ensures
        con_entry(j).0.len() >= 1,
        is_lower(con_entry(j).0[0]),
        text_chars_lower(con_entry(j).0),
{
    reveal_strlit("b");
    reveal_strlit("c");
    reveal_strlit("d");
    reveal_strlit("f");
    reveal_strlit("g");
    reveal_strlit("h");
    reveal_strlit("j");
    reveal_strlit("k");
    reveal_strlit("l");
    reveal_strlit("m");
    reveal_strlit("n");
    reveal_strlit("p");
    reveal_strlit("qu");
    reveal_strlit("r");
    reveal_strlit("s");
    reveal_strlit("t");
    reveal_strlit("v");
    reveal_strlit("w");
    reveal_strlit("x");
    reveal_strlit("y");
    reveal_strlit("z");
    reveal_strlit("sc");
    reveal_strlit("ch");
    reveal_strlit("gh");
    reveal_strlit("ph");
    reveal_strlit("sh");
    reveal_strlit("th");
    reveal_strlit("wh");
    reveal_strlit("ck");
    reveal_strlit("nk");
    reveal_strlit("rk");
    reveal_strlit("sk");
    reveal_strlit("wk");
    reveal_strlit("cl");
    reveal_strlit("fl");
    reveal_strlit("gl");
    reveal_strlit("kl");
    reveal_strlit("ll");
    reveal_strlit("pl");
    reveal_strlit("sl");
    reveal_strlit("br");
    reveal_strlit("cr");
    reveal_strlit("dr");
    reveal_strlit("fr");
    reveal_strlit("gr");
    reveal_strlit("kr");
    reveal_strlit("pr");
    reveal_strlit("sr");
    reveal_strlit("tr");
    reveal_strlit("ss");
    reveal_strlit("st");
    reveal_strlit("str");
}

/// Every consonant entry may stand in a well-formed beginning: begin-legal
/// entries start with a lowercase letter.
pub proof fn lemma_consonant_begin_wf(j: int)
    requires
        0 <= j < CONSONANT_COUNT,
    ensures
        begin_entry_wf(con_entry(j)),
{
    lemma_consonant_starts_lower(j);
}

/// Every begin-legal vowel entry has a nonempty text starting with a
/// lowercase letter; the apostrophe is not begin-legal.
pub proof fn lemma_vowel_begin_wf(j: int)
    requires
        0 <= j < VOWEL_COUNT,
    ensures
        begin_entry_wf(vow_entry(j)),
        text_chars_lower(vow_entry(j).0),
{
    reveal_strlit("'");
    reveal_strlit("a");
    reveal_strlit("e");
    reveal_strlit("i");
    reveal_strlit("o");
    reveal_strlit("u");
    reveal_strlit("aa");
    reveal_strlit("ae");
    reveal_strlit("ai");
    reveal_strlit("ao");
    reveal_strlit("au");
    reveal_strlit("ea");
    reveal_strlit("ee");
    reveal_strlit("ei");
    reveal_strlit("eo");
    reveal_strlit("eu");
    reveal_strlit("ia");
    reveal_strlit("ie");
    reveal_strlit("ii");
    reveal_strlit("io");
    reveal_strlit("iu");
    reveal_strlit("oa");
    reveal_strlit("oe");
    reveal_strlit("oi");
    reveal_strlit("oo");
    reveal_strlit("ou");
    reveal_strlit("eau");
    reveal_strlit("y");
    assert((3u8 & 4u8) != 4u8) by (bit_vector);
}

} // verus!
