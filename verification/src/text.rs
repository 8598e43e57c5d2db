//! Turning a sequence of chosen fragments into the finished name.
//!
//! The fragments' texts are concatenated in order and the first character
//! of the result is uppercased (ASCII only). An empty concatenation is
//! returned unchanged: uppercasing is a no-op on the empty string.

use vstd::prelude::*;

verus! {

/// `c` is an ASCII lowercase letter.
pub open spec fn is_lower(c: char) -> bool {
    'a' <= c && c <= 'z'
}

/// Every character of `t` is a lowercase ASCII letter or the apostrophe.
pub open spec fn text_chars_lower(t: Seq<char>) -> bool {
    forall|i: int| 0 <= i < t.len() ==> is_lower(#[trigger] t[i]) || t[i] == '\''
}

/// `c` is an ASCII uppercase letter.
pub open spec fn is_upper(c: char) -> bool {
    'A' <= c && c <= 'Z'
}

/// ASCII uppercasing of one character: lowercase letters map to their
/// uppercase partner, everything else stays as it is.
pub open spec fn to_upper(c: char) -> char {
    if c == 'a' {
        'A'
    } else if c == 'b' {
        'B'
    } else if c == 'c' {
        'C'
    } else if c == 'd' {
        'D'
    } else if c == 'e' {
        'E'
    } else if c == 'f' {
        'F'
    } else if c == 'g' {
        'G'
    } else if c == 'h' {
        'H'
    } else if c == 'i' {
        'I'
    } else if c == 'j' {
        'J'
    } else if c == 'k' {
        'K'
    } else if c == 'l' {
        'L'
    } else if c == 'm' {
        'M'
    } else if c == 'n' {
        'N'
    } else if c == 'o' {
        'O'
    } else if c == 'p' {
        'P'
    } else if c == 'q' {
        'Q'
    } else if c == 'r' {
        'R'
    } else if c == 's' {
        'S'
    } else if c == 't' {
        'T'
    } else if c == 'u' {
        'U'
    } else if c == 'v' {
        'V'
    } else if c == 'w' {
        'W'
    } else if c == 'x' {
        'X'
    } else if c == 'y' {
        'Y'
    } else if c == 'z' {
        'Z'
    } else {
        c
    }
}

/// The one-character string for the uppercase partner of a lowercase
/// letter, or `None` when `c` is no lowercase letter.
fn upper_of(c: char) -> (r: Option<&'static str>)
    ensures
        match r {
            Some(u) => is_lower(c) && u@ =~= seq![to_upper(c)],
            None => !is_lower(c),
        },
{
    proof {
        reveal_strlit("A");
        reveal_strlit("B");
        reveal_strlit("C");
        reveal_strlit("D");
        reveal_strlit("E");
        reveal_strlit("F");
        reveal_strlit("G");
        reveal_strlit("H");
        reveal_strlit("I");
        reveal_strlit("J");
        reveal_strlit("K");
        reveal_strlit("L");
        reveal_strlit("M");
        reveal_strlit("N");
        reveal_strlit("O");
        reveal_strlit("P");
        reveal_strlit("Q");
        reveal_strlit("R");
        reveal_strlit("S");
        reveal_strlit("T");
        reveal_strlit("U");
        reveal_strlit("V");
        reveal_strlit("W");
        reveal_strlit("X");
        reveal_strlit("Y");
        reveal_strlit("Z");
    }
    if c == 'a' {
        Some("A")
    } else if c == 'b' {
        Some("B")
    } else if c == 'c' {
        Some("C")
    } else if c == 'd' {
        Some("D")
    } else if c == 'e' {
        Some("E")
    } else if c == 'f' {
        Some("F")
    } else if c == 'g' {
        Some("G")
    } else if c == 'h' {
        Some("H")
    } else if c == 'i' {
        Some("I")
    } else if c == 'j' {
        Some("J")
    } else if c == 'k' {
        Some("K")
    } else if c == 'l' {
        Some("L")
    } else if c == 'm' {
        Some("M")
    } else if c == 'n' {
        Some("N")
    } else if c == 'o' {
        Some("O")
    } else if c == 'p' {
        Some("P")
    } else if c == 'q' {
        Some("Q")
    } else if c == 'r' {
        Some("R")
    } else if c == 's' {
        Some("S")
    } else if c == 't' {
        Some("T")
    } else if c == 'u' {
        Some("U")
    } else if c == 'v' {
        Some("V")
    } else if c == 'w' {
        Some("W")
    } else if c == 'x' {
        Some("X")
    } else if c == 'y' {
        Some("Y")
    } else if c == 'z' {
        Some("Z")
    } else {
        None
    }
}

/// ASCII uppercasing of the first character of a character sequence; the
/// empty sequence stays empty and every later character keeps its case.
pub open spec fn spec_capitalize(s: Seq<char>) -> Seq<char> {
    if s.len() == 0 {
        s
    } else {
        s.update(0, to_upper(s[0]))
    }
}

/// Uppercases the first character of `s`, ASCII only; an empty `s` comes
/// back unchanged.
pub fn capitalize(s: String) -> (r: String)
    ensures
        r@ == spec_capitalize(s@),
{
    let n = s.as_str().unicode_len();
    if n == 0 {
        return s;
    }
    let c = s.as_str().get_char(0);
    match upper_of(c) {
        None => {
            proof {
                assert(s@.update(0, to_upper(s@[0])) =~= s@);
            }
            s
        },
        Some(u) => {
            let rest = s.as_str().substring_char(1, n);
            let mut r = String::from_str(u);
            r.append(rest);
            proof {
                assert(r@ =~= s@.update(0, to_upper(s@[0])));
            }
            r
        },
    }
}

/// The views of a sequence of fragment entries: each entry's text as a
/// character sequence, beside its mask.
pub open spec fn frag_views(s: Seq<(&'static str, u8)>) -> Seq<(Seq<char>, u8)> {
    s.map_values(|e: (&'static str, u8)| (e.0@, e.1))
}

/// The texts of the fragments, concatenated in order.
pub open spec fn concat_texts(frags: Seq<(Seq<char>, u8)>) -> Seq<char>
    decreases frags.len(),
{
    if frags.len() == 0 {
        Seq::empty()
    } else {
        frags[0].0 + concat_texts(frags.drop_first())
    }
}

/// Appending one fragment extends the concatenation by its text.
pub proof fn lemma_concat_push(frags: Seq<(Seq<char>, u8)>, e: (Seq<char>, u8))
    ensures
        concat_texts(frags.push(e)) == concat_texts(frags) + e.0,
    decreases frags.len(),
{
    if frags.len() == 0 {
        assert(frags.push(e).drop_first() =~= Seq::<(Seq<char>, u8)>::empty());
        assert(concat_texts(frags.push(e).drop_first()) == Seq::<char>::empty());
        assert(frags.push(e)[0] == e);
        assert(concat_texts(frags.push(e)) == e.0 + Seq::<char>::empty());
        assert(concat_texts(frags.push(e)) =~= concat_texts(frags) + e.0);
    } else {
        assert(frags.push(e).drop_first() =~= frags.drop_first().push(e));
        lemma_concat_push(frags.drop_first(), e);
        assert(concat_texts(frags.push(e).drop_first()) == concat_texts(frags.drop_first())
            + e.0);
        assert(frags.push(e)[0] == frags[0]);
        assert(concat_texts(frags.push(e)) == frags[0].0 + (concat_texts(frags.drop_first())
            + e.0));
        assert(concat_texts(frags.push(e)) =~= concat_texts(frags) + e.0);
    }
}

/// Every character of the concatenation is a character of one of the
/// fragments' texts.
pub proof fn lemma_concat_chars(frags: Seq<(Seq<char>, u8)>, i: int)
    requires
        0 <= i < concat_texts(frags).len(),
    ensures
        exists|k: int, m: int|
            0 <= k < frags.len() && 0 <= m < frags[k].0.len() && concat_texts(frags)[i] == (
            #[trigger] frags[k].0[m]),
    decreases frags.len(),
{
    assert(frags.len() > 0);
    if i < frags[0].0.len() {
        assert(0 <= 0 < frags.len() && 0 <= i < frags[0].0.len() && concat_texts(frags)[i]
            == frags[0].0[i]);
    } else {
        let rest = frags.drop_first();
        lemma_concat_chars(rest, i - frags[0].0.len());
        let (k, m) = choose|k: int, m: int|
            0 <= k < rest.len() && 0 <= m < rest[k].0.len() && concat_texts(rest)[i - frags[0].0.len()]
                == (#[trigger] rest[k].0[m]);
        assert(rest[k] == frags[k + 1]);
        assert(0 <= k + 1 < frags.len() && 0 <= m < frags[k + 1].0.len() && concat_texts(frags)[i]
            == frags[k + 1].0[m]);
    }
}

/// The finished name for a fragment sequence: the concatenated texts with
/// the first character uppercased.
pub open spec fn spec_render(frags: Seq<(Seq<char>, u8)>) -> Seq<char> {
    spec_capitalize(concat_texts(frags))
}

/// Concatenates the chosen fragments and uppercases the first character.
pub fn render(parts: &Vec<(&'static str, u8)>) -> (s: String)
    ensures
        s@ == spec_render(frag_views(parts@)),
{
    let ghost all = frag_views(parts@);
    let mut out = String::new();
    let mut k: usize = 0;
    while k < parts.len()
        invariant
            k <= parts@.len(),
            all == frag_views(parts@),
            out@ == concat_texts(all.take(k as int)),
        decreases parts@.len() - k,
    {
        proof {
            lemma_concat_push(all.take(k as int), all[k as int]);
            assert(all.take(k as int + 1) =~= all.take(k as int).push(all[k as int]));
        }
        out.append(parts[k].0);
        k += 1;
    }
    proof {
        assert(all.take(parts@.len() as int) =~= all);
    }
    capitalize(out)
}

} // verus!
