//! Base64 as clients send it: with stray characters, in either alphabet, with or without
//! padding.

use crate::outside;
use crate::text;
use vstd::prelude::*;

verus! {

/// Whether the character belongs to one of the two base64 alphabets or is padding.
pub open spec fn is_base64(c: char) -> bool {
    'A' <= c <= 'Z' || 'a' <= c <= 'z' || '0' <= c <= '9' || c == '+' || c == '/' || c == '-' || c
        == '_' || c == '='
}

/// The character of the standard alphabet for one of the URL-safe alphabet.
pub open spec fn standard(c: char) -> char {
    if c == '-' {
        '+'
    } else if c == '_' {
        '/'
    } else {
        c
    }
}

/// The characters of `s` that belong to base64, in the standard alphabet.
pub open spec fn kept(s: Seq<char>) -> Seq<char>
    decreases s.len(),
{
    if s.len() == 0 {
        Seq::empty()
    } else if is_base64(s.last()) {
        kept(s.drop_last()).push(standard(s.last()))
    } else {
        kept(s.drop_last())
    }
}

/// `s` made a multiple of four characters long: padded, or without its last character where
/// one is too many.
pub open spec fn padded(s: Seq<char>) -> Seq<char> {
    if s.len() % 4 == 2 {
        s + "=="@
    } else if s.len() % 4 == 3 {
        s + "="@
    } else if s.len() % 4 == 1 {
        s.drop_last()
    } else {
        s
    }
}

/// The character of the standard alphabet for six bits.
pub open spec fn base64_char(v: int) -> char {
    if v < 26 {
        (65 + v) as char
    } else if v < 52 {
        (71 + v) as char
    } else if v < 62 {
        (v - 4) as char
    } else if v == 62 {
        '+'
    } else {
        '/'
    }
}

/// The base64 text of bytes in the standard alphabet, without padding: four characters for three
/// bytes, and two or three for the one or two that are left at the end.
pub open spec fn base64_of(b: Seq<u8>) -> Seq<char>
    decreases b.len(),
{
    if b.len() == 0 {
        Seq::empty()
    } else if b.len() == 1 {
        seq![base64_char(b[0] as int / 4), base64_char(b[0] as int % 4 * 16)]
    } else if b.len() == 2 {
        seq![
            base64_char(b[0] as int / 4),
            base64_char(b[0] as int % 4 * 16 + b[1] as int / 16),
            base64_char(b[1] as int % 16 * 4),
        ]
    } else {
        seq![
            base64_char(b[0] as int / 4),
            base64_char(b[0] as int % 4 * 16 + b[1] as int / 16),
            base64_char(b[1] as int % 16 * 4 + b[2] as int / 64),
            base64_char(b[2] as int % 64),
        ] + base64_of(b.skip(3))
    }
}

/// Whether bytes come back where the text that was decoded is their base64 text with its padding.
pub open spec fn reads_back(s: Seq<char>, decoded: Option<Vec<u8>>) -> bool {
    forall|b: Seq<u8>|
        #![trigger base64_of(b)]
        s == padded(base64_of(b)) ==> (decoded matches Some(v) && v@ == b)
}

/// Whether a text is the base64 text of bytes, in either alphabet, with or without its padding,
/// and with any characters strewn in that do not belong to base64.
pub open spec fn stands_for(s: Seq<char>, b: Seq<u8>) -> bool {
    kept(s) == base64_of(b) || kept(s) == padded(base64_of(b))
}

/// A base64 text as it is handed to the decoder.
pub open spec fn cleaned(s: Seq<char>) -> Seq<char> {
    padded(kept(s))
}

/// The bytes that a decoder's result stands for: none where it failed.
pub open spec fn bytes_or_none(decoded: Option<Seq<u8>>) -> Seq<u8> {
    match decoded {
        Some(b) => b,
        None => Seq::empty(),
    }
}

/// The bytes that a base64 text stands for.
pub open spec fn loose(s: Seq<char>) -> Seq<u8> {
    if cleaned(s).len() == 0 {
        Seq::empty()
    } else {
        bytes_or_none(outside::base64_lenient(cleaned(s)))
    }
}

/// A base64 text as it is handed to the decoder.
pub fn clean_base64(input: &str) -> (r: String)
    ensures
        r@ == cleaned(input@),
{
    let a = text::chars_of(input);
    let mut out: Vec<char> = Vec::new();
    let mut i: usize = 0;
    assert(a@.take(0) =~= Seq::<char>::empty());
    while i < a.len()
        invariant
            i <= a@.len(),
            out@ == kept(a@.take(i as int)),
        decreases a@.len() - i,
    {
        assert(a@.take(i as int + 1).drop_last() =~= a@.take(i as int));
        let c = a[i];
        let keep = ('A' <= c && c <= 'Z') || ('a' <= c && c <= 'z') || ('0' <= c && c <= '9') || c
            == '+' || c == '/' || c == '-' || c == '_' || c == '=';
        if keep {
            let d = if c == '-' {
                '+'
            } else if c == '_' {
                '/'
            } else {
                c
            };
            out.push(d);
        }
        i += 1;
    }
    assert(a@.take(a@.len() as int) =~= a@);
    let rest: usize = out.len() % 4;
    if rest == 1 {
        assert(out@.subrange(0, out@.len() - 1) =~= out@.drop_last());
        text::slice_text(&out, 0, out.len() - 1)
    } else {
        let mut s = text::text_of(&out);
        if rest == 2 {
            s.push_str("==");
        } else if rest == 3 {
            s.push_str("=");
        }
        s
    }
}

proof fn base64_of_is_whole(b: Seq<u8>)
    ensures
        base64_of(b).len() % 4 != 1,
        base64_of(b).len() == 0 <==> b.len() == 0,
    decreases b.len(),
{
    if b.len() > 2 {
        base64_of_is_whole(b.skip(3));
    }
}

proof fn cleaned_is_padded(s: Seq<char>, b: Seq<u8>)
    requires
        stands_for(s, b),
    ensures
        cleaned(s) == padded(base64_of(b)),
        cleaned(s).len() == 0 <==> b.len() == 0,
{
    reveal_strlit("==");
    reveal_strlit("=");
    base64_of_is_whole(b);
    assert(padded(padded(base64_of(b))) == padded(base64_of(b)));
}

/// The bytes that a base64 text stands for, read as leniently as clients expect. Bytes that were
/// written in base64 come back.
pub fn decode_base64_loose(input: &str) -> (r: Vec<u8>)
    ensures
        r@ == loose(input@),
        forall|b: Seq<u8>| #![trigger base64_of(b)] stands_for(input@, b) ==> r@ == b,
{
    let s = clean_base64(input);
    if s.as_str().is_empty() {
        assert forall|b: Seq<u8>| #![trigger base64_of(b)] stands_for(input@, b) implies Seq::<
            u8,
        >::empty() == b by {
            cleaned_is_padded(input@, b);
            assert(b =~= Seq::empty());
        }
        return Vec::new();
    }
    let decoded = outside::decode_base64_lenient(&s);
    proof {
        assert forall|b: Seq<u8>| #![trigger base64_of(b)] stands_for(input@, b) implies loose(
            input@,
        ) == b by {
            cleaned_is_padded(input@, b);
        }
    }
    match decoded {
        Some(b) => b,
        None => Vec::new(),
    }
}

/// What the decoder is handed is a multiple of four characters of the standard alphabet and
/// padding.
pub proof fn cleaned_is_base64(s: Seq<char>)
    ensures
        cleaned(s).len() % 4 == 0,
        forall|i: int|
            0 <= i < cleaned(s).len() ==> is_base64(#[trigger] cleaned(s)[i]) && cleaned(s)[i]
                != '-' && cleaned(s)[i] != '_',
{
    kept_is_base64(s);
    reveal_strlit("==");
    reveal_strlit("=");
}

proof fn kept_is_base64(s: Seq<char>)
    ensures
        forall|i: int|
            0 <= i < kept(s).len() ==> is_base64(#[trigger] kept(s)[i]) && kept(s)[i] != '-'
                && kept(s)[i] != '_',
    decreases s.len(),
{
    if s.len() > 0 {
        let rest = kept(s.drop_last());
        kept_is_base64(s.drop_last());
        assert forall|i: int| 0 <= i < kept(s).len() implies is_base64(#[trigger] kept(s)[i])
            && kept(s)[i] != '-' && kept(s)[i] != '_' by {
            if i < rest.len() {
                assert(kept(s)[i] == rest[i]);
            }
        }
    }
}

} // verus!
