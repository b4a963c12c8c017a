//! Parser for CSS-like inline `style="..."` attribute values.
//!
//! The attribute text is split on `;`; each segment is split on its first
//! `:`; keys and values are trimmed of surrounding whitespace; segments
//! without a `:` are skipped; on duplicate keys the last occurrence wins.

use crate::strutil::chars_to_string;
use crate::strutil::str_eq;
use crate::strutil::str_to_chars;
use vstd::prelude::*;
use vstd::string::StringExecFns;

verus! {

/// Whitespace that trimming removes from around keys and values.
pub open spec fn is_space(c: char) -> bool {
    c == ' ' || c == '\t' || c == '\n' || c == '\r' || c == '\u{0b}' || c == '\u{0c}'
}

/// The first position in `[from, to)` holding `c`, or `to` if there is none.
pub open spec fn find_from(s: Seq<char>, c: char, from: int, to: int) -> int
    decreases to - from,
    when 0 <= from <= to <= s.len()
{
    if from >= to {
        to
    } else if s[from] == c {
        from
    } else {
        find_from(s, c, from + 1, to)
    }
}

/// The first position in `[from, to)` holding a non-space, or `to`.
pub open spec fn skip_ws(s: Seq<char>, from: int, to: int) -> int
    decreases to - from,
    when 0 <= from <= to <= s.len()
{
    if from >= to {
        to
    } else if is_space(s[from]) {
        skip_ws(s, from + 1, to)
    } else {
        from
    }
}

/// The end of `[from, to)` after dropping trailing spaces: the least
/// `e >= from` such that everything in `[e, to)` is space.
pub open spec fn rskip_ws(s: Seq<char>, from: int, to: int) -> int
    decreases to - from,
    when 0 <= from <= to <= s.len()
{
    if to <= from {
        from
    } else if is_space(s[to - 1]) {
        rskip_ws(s, from, to - 1)
    } else {
        to
    }
}

pub proof fn lemma_find_from_bounds(s: Seq<char>, c: char, from: int, to: int)
    requires
        0 <= from <= to <= s.len(),
    ensures
        from <= find_from(s, c, from, to) <= to,
    decreases to - from,
{
    if from < to && s[from] != c {
        lemma_find_from_bounds(s, c, from + 1, to);
    }
}

/// The characters of the window `[from, to)` with surrounding whitespace
/// trimmed away.
pub open spec fn trimmed(s: Seq<char>, from: int, to: int) -> Seq<char> {
    let lo = skip_ws(s, from, to);
    let hi = rskip_ws(s, lo, to);
    s.subrange(lo, hi)
}

/// The style entries found from position `pos` on, added to `acc`;
/// entries found later override earlier ones.
pub open spec fn style_map_loop(
    s: Seq<char>,
    pos: int,
    acc: Map<Seq<char>, Seq<char>>,
) -> Map<Seq<char>, Seq<char>>
    decreases s.len() + 1 - pos,
    when 0 <= pos
    via style_map_loop_decreases
{
    if pos >= s.len() {
        acc
    } else {
        let end = find_from(s, ';', pos, s.len() as int);
        let ci = find_from(s, ':', pos, end);
        let acc2 = if ci < end {
            acc.insert(trimmed(s, pos, ci), trimmed(s, ci + 1, end))
        } else {
            acc
        };
        style_map_loop(s, end + 1, acc2)
    }
}

#[via_fn]
proof fn style_map_loop_decreases(s: Seq<char>, pos: int, acc: Map<Seq<char>, Seq<char>>) {
    if 0 <= pos < s.len() {
        lemma_find_from_bounds(s, ';', pos, s.len() as int);
    }
}

/// The key-value mapping denoted by a whole style attribute value.
pub open spec fn style_map_of(s: Seq<char>) -> Map<Seq<char>, Seq<char>> {
    style_map_loop(s, 0, Map::empty())
}

/// The mapping built from an association list; later entries win.
pub open spec fn assoc_map(entries: Seq<(String, String)>) -> Map<Seq<char>, Seq<char>>
    decreases entries,
{
    if entries.len() == 0 {
        Map::empty()
    } else {
        assoc_map(entries.drop_last()).insert(entries.last().0@, entries.last().1@)
    }
}

/// A parsed style attribute: a mapping from property names to values.
pub struct StyleMap {
    entries: Vec<(String, String)>,
}

impl View for StyleMap {
    type V = Map<Seq<char>, Seq<char>>;

    closed spec fn view(&self) -> Map<Seq<char>, Seq<char>> {
        assoc_map(self.entries@)
    }
}

impl StyleMap {
    /// A mapping with no entries.
    pub fn empty() -> (r: StyleMap)
        ensures
            r@ == Map::<Seq<char>, Seq<char>>::empty(),
    {
        StyleMap { entries: Vec::new() }
    }

    fn push_entry(&mut self, k: String, v: String)
        ensures
            final(self)@ == old(self)@.insert(k@, v@),
    {
        let ghost olde = self.entries@;
        self.entries.push((k, v));
        proof {
            assert(self.entries@.drop_last() =~= olde);
        }
    }

    /// The value stored under `key`, or `default` when the key is absent.
    pub fn get_or(&self, key: &str, default: &str) -> (r: String)
        ensures
            r@ == if self@.contains_key(key@) {
                self@[key@]
            } else {
                default@
            },
    {
        proof {
            assert(self.entries@.take(self.entries@.len() as int) =~= self.entries@);
        }
        let mut j: usize = self.entries.len();
        while j > 0
            invariant
                j <= self.entries@.len(),
                self@.contains_key(key@) == assoc_map(self.entries@.take(j as int)).contains_key(
                    key@,
                ),
                self@.contains_key(key@) ==> self@[key@] == assoc_map(
                    self.entries@.take(j as int),
                )[key@],
            decreases j,
        {
            j -= 1;
            proof {
                assert(self.entries@.take(j + 1).drop_last() =~= self.entries@.take(j as int));
                assert(self.entries@.take(j + 1).last() == self.entries@[j as int]);
            }
            if str_eq(self.entries[j].0.as_str(), key) {
                return self.entries[j].1.clone();
            }
        }
        proof {
            assert(self.entries@.take(0) =~= Seq::<(String, String)>::empty());
        }
        default.to_owned()
    }
}

/// The first position in `[from, to)` of `v` holding `c`, or `to`.
pub fn find_char(v: &Vec<char>, c: char, from: usize, to: usize) -> (r: usize)
    requires
        from <= to <= v@.len(),
    ensures
        r == find_from(v@, c, from as int, to as int),
        from <= r <= to,
{
    let mut i: usize = from;
    while i < to && v[i] != c
        invariant
            from <= i <= to <= v@.len(),
            find_from(v@, c, from as int, to as int) == find_from(v@, c, i as int, to as int),
        decreases to - i,
    {
        i += 1;
    }
    i
}

/// The first position in `[from, to)` of `v` holding a non-space, or `to`.
pub fn skip_spaces(v: &Vec<char>, from: usize, to: usize) -> (r: usize)
    requires
        from <= to <= v@.len(),
    ensures
        r == skip_ws(v@, from as int, to as int),
        from <= r <= to,
        r < to ==> !is_space(v@[r as int]),
{
    let mut i: usize = from;
    while i < to && is_space_exec(v[i])
        invariant
            from <= i <= to <= v@.len(),
            skip_ws(v@, from as int, to as int) == skip_ws(v@, i as int, to as int),
        decreases to - i,
    {
        i += 1;
    }
    i
}

/// The end of `[from, to)` of `v` after dropping trailing spaces.
pub fn rskip_spaces(v: &Vec<char>, from: usize, to: usize) -> (r: usize)
    requires
        from <= to <= v@.len(),
    ensures
        r == rskip_ws(v@, from as int, to as int),
        from <= r <= to,
{
    let mut i: usize = to;
    while i > from && is_space_exec(v[i - 1])
        invariant
            from <= i <= to <= v@.len(),
            rskip_ws(v@, from as int, to as int) == rskip_ws(v@, from as int, i as int),
        decreases i,
    {
        i -= 1;
    }
    i
}

/// Whether `c` is whitespace in the sense of [`is_space`].
pub fn is_space_exec(c: char) -> (r: bool)
    ensures
        r == is_space(c),
{
    c == ' ' || c == '\t' || c == '\n' || c == '\r' || c == '\u{0b}' || c == '\u{0c}'
}

/// The trimmed text of the window `[from, to)` of `v`.
pub fn trimmed_string(v: &Vec<char>, from: usize, to: usize) -> (r: String)
    requires
        from <= to <= v@.len(),
    ensures
        r@ == trimmed(v@, from as int, to as int),
{
    let lo = skip_spaces(v, from, to);
    let hi = rskip_spaces(v, lo, to);
    chars_to_string(v.as_slice(), lo, hi)
}

/// Parses a style attribute value into its key-value mapping.
pub fn parse_style(s: &str) -> (r: StyleMap)
    ensures
        r@ == style_map_of(s@),
{
    let v = str_to_chars(s);
    parse_style_chars(&v)
}

/// Parses the characters of a style attribute value.
pub fn parse_style_chars(v: &Vec<char>) -> (r: StyleMap)
    ensures
        r@ == style_map_of(v@),
{
    let n = v.len();
    let mut m = StyleMap::empty();
    let mut pos: usize = 0;
    while pos < n
        invariant
            pos <= n,
            n == v@.len(),
            style_map_of(v@) == style_map_loop(v@, pos as int, m@),
        decreases n - pos,
    {
        let end = find_char(v, ';', pos, n);
        let ci = find_char(v, ':', pos, end);
        if ci < end {
            let key = trimmed_string(v, pos, ci);
            let val = trimmed_string(v, ci + 1, end);
            m.push_entry(key, val);
        }
        proof {
            assert(style_map_loop(v@, n + 1, m@) == m@);
        }
        pos = if end < n {
            end + 1
        } else {
            n
        };
    }
    m
}

} // verus!
