//! The URL slug an article's headline gives rise to: spaces become dashes,
//! ASCII letters are lowered, and everything outside letters, digits,
//! spaces and dashes is dropped.

use crate::strutil::push_char;
use crate::strutil::str_to_chars;
use vstd::prelude::*;

verus! {

/// ASCII-lowers one character.
pub open spec fn ascii_lower(c: char) -> char {
    if 'A' <= c && c <= 'Z' {
        ((c as u32) + 32) as char
    } else {
        c
    }
}

/// Whether the slug keeps this character.
pub open spec fn slug_keeps(c: char) -> bool {
    ('a' <= c && c <= 'z') || ('A' <= c && c <= 'Z') || ('0' <= c && c <= '9') || c == ' ' || c
        == '-'
}

/// What one headline character contributes to the slug.
pub open spec fn slug_char(c: char) -> Seq<char> {
    let dashed = if c == ' ' {
        '-'
    } else {
        c
    };
    let lowered = ascii_lower(dashed);
    if slug_keeps(lowered) {
        seq![lowered]
    } else {
        Seq::empty()
    }
}

/// The slug of a headline: each character dashed, lowered and filtered in
/// turn.
pub open spec fn slug_of(s: Seq<char>) -> Seq<char>
    decreases s,
{
    if s.len() == 0 {
        Seq::empty()
    } else {
        slug_char(s[0]) + slug_of(s.drop_first())
    }
}

/// ASCII-lowers one character.
fn ascii_lower_exec(c: char) -> (r: char)
    ensures
        r == ascii_lower(c),
{
    if 'A' <= c && c <= 'Z' {
        (((c as u8) + 32)) as char
    } else {
        c
    }
}

/// Whether the slug keeps this character.
fn slug_keeps_exec(c: char) -> (r: bool)
    ensures
        r == slug_keeps(c),
{
    ('a' <= c && c <= 'z') || ('A' <= c && c <= 'Z') || ('0' <= c && c <= '9') || c == ' ' || c
        == '-'
}

pub proof fn lemma_slug_of_push(s: Seq<char>, c: char)
    ensures
        slug_of(s.push(c)) == slug_of(s) + slug_char(c),
    decreases s,
{
    if s.len() == 0 {
        assert(s.push(c)[0] == c);
        assert(s.push(c).drop_first() =~= Seq::<char>::empty());
        reveal_with_fuel(slug_of, 2);
        assert(slug_of(s.push(c)) =~= slug_of(s) + slug_char(c));
    } else {
        assert(s.push(c)[0] == s[0]);
        assert(s.push(c).drop_first() =~= s.drop_first().push(c));
        lemma_slug_of_push(s.drop_first(), c);
        assert(slug_of(s.push(c)) =~= slug_of(s) + slug_char(c));
    }
}

/// The URL slug of a headline.
pub fn make_slug(headline: &str) -> (r: String)
    ensures
        r@ == slug_of(headline@),
{
    let v = str_to_chars(headline);
    let mut out = String::new();
    let len = v.len();
    let mut i: usize = 0;
    proof {
        assert(v@.take(0) =~= Seq::<char>::empty());
    }
    while i < len
        invariant
            i <= len == v@.len(),
            out@ == slug_of(v@.take(i as int)),
        decreases len - i,
    {
        let c0 = v[i];
        let dashed = if c0 == ' ' {
            '-'
        } else {
            c0
        };
        let lowered = ascii_lower_exec(dashed);
        if slug_keeps_exec(lowered) {
            push_char(&mut out, lowered);
        }
        proof {
            lemma_slug_of_push(v@.take(i as int), v@[i as int]);
            assert(v@.take(i + 1) =~= v@.take(i as int).push(v@[i as int]));
            assert(out@ =~= slug_of(v@.take(i + 1)));
        }
        i += 1;
    }
    proof {
        assert(v@.take(len as int) =~= v@);
    }
    out
}

} // verus!
