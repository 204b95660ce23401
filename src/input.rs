//! What the operator types at a prompt: the words that cancel or finish an
//! entry loop, and brick specifications `host:/path`.

use vstd::prelude::*;
use crate::text::{chars_of, contains, equals_ignore_case, eq_ignore_case, occurs_in, trim, trim_str};

verus! {

/// The word that cancels the operation at any prompt.
pub open spec fn is_cancel(s: Seq<char>) -> bool {
    eq_ignore_case(trim(s), "salir"@)
}

/// The word that ends a list of bricks.
pub open spec fn is_finish(s: Seq<char>) -> bool {
    eq_ignore_case(trim(s), "fin"@)
}

/// A brick specification names a host and a path: it holds a `:` and a `/`.
pub open spec fn is_brick_spec(s: Seq<char>) -> bool {
    occurs_in(s, ":"@) && occurs_in(s, "/"@)
}

/// The position of the first `c` in `s` at or after `i`, or `s.len()`.
pub open spec fn find_char(s: Seq<char>, c: char, i: int) -> int
    decreases s.len() - i,
{
    if i < 0 || i >= s.len() {
        s.len() as int
    } else if s[i] == c {
        i
    } else {
        find_char(s, c, i + 1)
    }
}

/// The host of a brick specification: what comes before its first `:`.
pub open spec fn host_of(s: Seq<char>) -> Seq<char> {
    s.subrange(0, find_char(s, ':', 0))
}

/// One line typed into a list of bricks.
#[derive(Clone, Copy, Debug, PartialEq, Eq, Structural)]
pub enum BrickEntry {
    Cancel,
    Finish,
    Brick,
    Malformed,
}

pub open spec fn brick_entry_of(s: Seq<char>) -> BrickEntry {
    if is_cancel(s) {
        BrickEntry::Cancel
    } else if is_finish(s) {
        BrickEntry::Finish
    } else if is_brick_spec(s) {
        BrickEntry::Brick
    } else {
        BrickEntry::Malformed
    }
}

/// Whether the operator typed the cancel word, in any ASCII case and with
/// any surrounding whitespace.
pub fn is_cancel_word(s: &str) -> (r: bool)
    ensures
        r == is_cancel(s@),
{
    let t = trim_str(s);
    equals_ignore_case(t.as_str(), "salir")
}

/// Whether `s` names a host and a path.
pub fn is_valid_brick_spec(s: &str) -> (r: bool)
    ensures
        r == is_brick_spec(s@),
{
    contains(s, ":") && contains(s, "/")
}

/// What one line typed into a list of bricks means.
pub fn classify_brick_entry(s: &str) -> (r: BrickEntry)
    ensures
        r == brick_entry_of(s@),
{
    if is_cancel_word(s) {
        BrickEntry::Cancel
    } else {
        let t = trim_str(s);
        if equals_ignore_case(t.as_str(), "fin") {
            BrickEntry::Finish
        } else if is_valid_brick_spec(s) {
            BrickEntry::Brick
        } else {
            BrickEntry::Malformed
        }
    }
}

/// The host part of a brick specification.
pub fn brick_host(s: &str) -> (r: String)
    ensures
        r@ == host_of(s@),
{
    let c = chars_of(s);
    let mut k: usize = 0;
    while k < c.len() && c[k] != ':'
        invariant
            c@ == s@,
            k <= c.len(),
            find_char(s@, ':', k as int) == find_char(s@, ':', 0),
        decreases c.len() - k,
    {
        k = k + 1;
    }
    crate::text::substring(s, 0, k)
}

pub open spec fn is_digit(c: char) -> bool {
    '0' <= c <= '9'
}

/// The number that a run of decimal digits denotes.
pub open spec fn digits_value(ds: Seq<char>) -> nat
    decreases ds.len(),
{
    if ds.len() == 0 {
        0
    } else {
        digits_value(ds.drop_last()) * 10 + ((ds.last() as u32) - ('0' as u32)) as nat
    }
}

/// The count that the operator typed: decimal digits, with whitespace
/// around them allowed, that denote a number that fits in a `u32`.
pub open spec fn count_of(s: Seq<char>) -> Option<u32> {
    let t = trim(s);
    if t.len() > 0 && (forall|k: int| 0 <= k < t.len() ==> is_digit(#[trigger] t[k]))
        && digits_value(t) <= u32::MAX {
        Some(digits_value(t) as u32)
    } else {
        None
    }
}

proof fn lemma_digits_value_of_prefix(s: Seq<char>, j: int)
    requires
        0 <= j <= s.len(),
    ensures
        digits_value(s.subrange(0, j)) <= digits_value(s),
    decreases s.len(),
{
    if j < s.len() {
        assert(s.drop_last().subrange(0, j) =~= s.subrange(0, j));
        lemma_digits_value_of_prefix(s.drop_last(), j);
    } else {
        assert(s.subrange(0, j) =~= s);
    }
}

/// The count typed in `s`, if `s` holds one.
pub fn parse_count(s: &str) -> (r: Option<u32>)
    ensures
        r == count_of(s@),
{
    let t = trim_str(s);
    let c = chars_of(t.as_str());
    if c.len() == 0 {
        return None;
    }
    let mut acc: u64 = 0;
    let mut i: usize = 0;
    assert(c@.subrange(0, 0) =~= seq![]);
    while i < c.len()
        invariant
            c@ == t@,
            t@ == trim(s@),
            c.len() > 0,
            i <= c.len(),
            forall|k: int| 0 <= k < i ==> is_digit(#[trigger] c@[k]),
            acc == digits_value(c@.subrange(0, i as int)),
            acc <= u32::MAX,
        decreases c.len() - i,
    {
        let ch = c[i];
        if !('0' <= ch && ch <= '9') {
            assert(!is_digit(t@[i as int]));
            return None;
        }
        let d = ((ch as u32) - ('0' as u32)) as u64;
        let next = acc * 10 + d;
        assert(c@.subrange(0, i + 1).drop_last() =~= c@.subrange(0, i as int));
        assert(next == digits_value(c@.subrange(0, i + 1)));
        if next > u32::MAX as u64 {
            proof {
                lemma_digits_value_of_prefix(c@, i + 1);
            }
            return None;
        }
        acc = next;
        i = i + 1;
    }
    assert(c@.subrange(0, c.len() as int) =~= c@);
    Some(acc as u32)
}

} // verus!
