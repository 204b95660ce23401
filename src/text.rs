//! Character-level views of command output: lines, whitespace fields,
//! trimming and prefixes, each with an executable counterpart.

use vstd::prelude::*;

verus! {

/// The character views of a sequence of strings.
pub open spec fn views(v: Seq<String>) -> Seq<Seq<char>> {
    v.map_values(|x: String| x@)
}

/// Unicode `White_Space`, the set that `char::is_whitespace` tests.
pub open spec fn is_ws(c: char) -> bool {
    ||| '\u{9}' <= c <= '\u{d}'
    ||| c == ' '
    ||| c == '\u{85}'
    ||| c == '\u{a0}'
    ||| c == '\u{1680}'
    ||| '\u{2000}' <= c <= '\u{200a}'
    ||| c == '\u{2028}'
    ||| c == '\u{2029}'
    ||| c == '\u{202f}'
    ||| c == '\u{205f}'
    ||| c == '\u{3000}'
}

/// A line as `str::lines` hands it out: a `'\r'` right before the line's
/// `'\n'` is part of the terminator.
pub open spec fn strip_cr(l: Seq<char>) -> Seq<char> {
    if l.len() > 0 && l.last() == '\r' {
        l.drop_last()
    } else {
        l
    }
}

/// The lines of `s` from position `i` on, where the current line began at
/// `start`.
pub open spec fn lines_scan(s: Seq<char>, start: int, i: int) -> Seq<Seq<char>>
    decreases s.len() - i,
{
    if i >= s.len() {
        if 0 <= start < s.len() {
            seq![s.subrange(start, s.len() as int)]
        } else {
            seq![]
        }
    } else if s[i] == '\n' {
        seq![strip_cr(s.subrange(start, i))] + lines_scan(s, i + 1, i + 1)
    } else {
        lines_scan(s, start, i + 1)
    }
}

/// The lines of `s`: split at each `'\n'`, with a `'\r'` before it dropped,
/// and no empty line after a final `'\n'`.
pub open spec fn lines_of(s: Seq<char>) -> Seq<Seq<char>> {
    lines_scan(s, 0, 0)
}

/// The whitespace-separated fields of `s` from position `i` on, where the
/// current field began at `start` (it is empty when `start == i`).
pub open spec fn fields_scan(s: Seq<char>, start: int, i: int) -> Seq<Seq<char>>
    decreases s.len() - i,
{
    let current = if start < i {
        seq![s.subrange(start, i)]
    } else {
        seq![]
    };
    if i >= s.len() || i < 0 {
        current
    } else if is_ws(s[i]) {
        current + fields_scan(s, i + 1, i + 1)
    } else {
        fields_scan(s, start, i + 1)
    }
}

/// The maximal runs of non-whitespace characters of `s`, in order.
pub open spec fn fields_of(s: Seq<char>) -> Seq<Seq<char>> {
    fields_scan(s, 0, 0)
}

/// The first position at or after `i` that holds no whitespace, or `s.len()`.
pub open spec fn skip_ws(s: Seq<char>, i: int) -> int
    decreases s.len() - i,
{
    if i < 0 || i >= s.len() {
        s.len() as int
    } else if is_ws(s[i]) {
        skip_ws(s, i + 1)
    } else {
        i
    }
}

/// The end of `s.subrange(0, j)` once trailing whitespace is cut off.
pub open spec fn skip_ws_back(s: Seq<char>, j: int) -> int
    decreases j,
{
    if j <= 0 || j > s.len() {
        0
    } else if is_ws(s[j - 1]) {
        skip_ws_back(s, j - 1)
    } else {
        j
    }
}

/// `s` without leading and trailing whitespace.
pub open spec fn trim(s: Seq<char>) -> Seq<char> {
    let a = skip_ws(s, 0);
    let b = skip_ws_back(s, s.len() as int);
    if a < b {
        s.subrange(a, b)
    } else {
        seq![]
    }
}

pub open spec fn has_prefix(s: Seq<char>, p: Seq<char>) -> bool {
    p.len() <= s.len() && s.subrange(0, p.len() as int) == p
}

pub open spec fn after_prefix(s: Seq<char>, p: Seq<char>) -> Seq<char> {
    s.subrange(p.len() as int, s.len() as int)
}

/// `needle` occurs in `s` as a contiguous run.
pub open spec fn occurs_in(s: Seq<char>, needle: Seq<char>) -> bool {
    exists|k: int|
        0 <= k && k + needle.len() <= s.len() && #[trigger] s.subrange(k, k + needle.len())
            == needle
}

pub open spec fn ascii_lower(c: char) -> char {
    if 'A' <= c <= 'Z' {
        ((c as u8) + 32) as char
    } else {
        c
    }
}

/// `a` and `b` are equal once ASCII letters are taken without case.
pub open spec fn eq_ignore_case(a: Seq<char>, b: Seq<char>) -> bool {
    a.len() == b.len() && forall|k: int| 0 <= k < a.len() ==> ascii_lower(#[trigger] a[k])
        == ascii_lower(b[k])
}

proof fn lemma_views_push(v: Seq<String>, x: String)
    ensures
        views(v.push(x)) == views(v).push(x@),
{
    assert(views(v.push(x)) =~= views(v).push(x@));
}

/// The characters of `s`, in order.
pub fn chars_of(s: &str) -> (r: Vec<char>)
    ensures
        r@ == s@,
{
    let mut r: Vec<char> = Vec::new();
    for c in it: s.chars()
        invariant
            r@ == it.seq().subrange(0, it.index() as int),
    {
        r.push(c);
    }
    r
}

pub fn is_whitespace(c: char) -> (r: bool)
    ensures
        r == is_ws(c),
{
    ('\u{9}' <= c && c <= '\u{d}') || c == ' ' || c == '\u{85}' || c == '\u{a0}' || c
        == '\u{1680}' || ('\u{2000}' <= c && c <= '\u{200a}') || c == '\u{2028}' || c
        == '\u{2029}' || c == '\u{202f}' || c == '\u{205f}' || c == '\u{3000}'
}

/// The characters `a..b` of `s`, as a new string.
pub fn substring(s: &str, a: usize, b: usize) -> (r: String)
    requires
        a <= b <= s@.len(),
    ensures
        r@ == s@.subrange(a as int, b as int),
{
    s.substring_char(a, b).to_owned()
}

/// The lines of `s`, as `str::lines` splits them.
pub fn lines(s: &str) -> (r: Vec<String>)
    ensures
        views(r@) == lines_of(s@),
{
    let c = chars_of(s);
    let n = c.len();
    let mut r: Vec<String> = Vec::new();
    let mut start: usize = 0;
    let mut i: usize = 0;
    while i < n
        invariant
            c@ == s@,
            n == c.len(),
            start <= i <= n,
            views(r@) + lines_scan(s@, start as int, i as int) == lines_of(s@),
        decreases n - i,
    {
        if c[i] == '\n' {
            let end = if i > start && c[i - 1] == '\r' {
                i - 1
            } else {
                i
            };
            let line = substring(s, start, end);
            proof {
                let raw = s@.subrange(start as int, i as int);
                if i > start && c@[i - 1] == '\r' {
                    assert(raw.drop_last() =~= s@.subrange(start as int, end as int));
                }
                assert(line@ == strip_cr(raw));
                lemma_views_push(r@, line);
                assert(views(r@) + lines_scan(s@, start as int, i as int) =~= views(r@).push(line@)
                    + lines_scan(s@, i + 1, i + 1));
            }
            r.push(line);
            start = i + 1;
        }
        i = i + 1;
    }
    if start < n {
        let line = substring(s, start, n);
        proof {
            lemma_views_push(r@, line);
        }
        r.push(line);
    }
    proof {
        assert(views(r@) =~= lines_of(s@));
    }
    r
}

/// The whitespace-separated fields of `s`, as `str::split_whitespace` yields them.
pub fn fields(s: &str) -> (r: Vec<String>)
    ensures
        views(r@) == fields_of(s@),
{
    let c = chars_of(s);
    let n = c.len();
    let mut r: Vec<String> = Vec::new();
    let mut start: usize = 0;
    let mut i: usize = 0;
    while i < n
        invariant
            c@ == s@,
            n == c.len(),
            start <= i <= n,
            views(r@) + fields_scan(s@, start as int, i as int) == fields_of(s@),
        decreases n - i,
    {
        if is_whitespace(c[i]) {
            if start < i {
                let f = substring(s, start, i);
                proof {
                    lemma_views_push(r@, f);
                    assert(views(r@) + fields_scan(s@, start as int, i as int) =~= views(r@).push(
                        f@,
                    ) + fields_scan(s@, i + 1, i + 1));
                }
                r.push(f);
            } else {
                assert(views(r@) + fields_scan(s@, start as int, i as int) =~= views(r@)
                    + fields_scan(s@, i + 1, i + 1));
            }
            start = i + 1;
        }
        i = i + 1;
    }
    if start < n {
        let f = substring(s, start, n);
        proof {
            lemma_views_push(r@, f);
        }
        r.push(f);
    }
    proof {
        assert(views(r@) =~= fields_of(s@));
    }
    r
}

/// `s` without leading and trailing whitespace, as `str::trim` gives it.
pub fn trim_str(s: &str) -> (r: String)
    ensures
        r@ == trim(s@),
{
    let c = chars_of(s);
    let n = c.len();
    let mut a: usize = 0;
    while a < n && is_whitespace(c[a])
        invariant
            c@ == s@,
            n == c.len(),
            a <= n,
            skip_ws(s@, a as int) == skip_ws(s@, 0),
        decreases n - a,
    {
        a = a + 1;
    }
    let mut b: usize = n;
    while b > 0 && is_whitespace(c[b - 1])
        invariant
            c@ == s@,
            n == c.len(),
            b <= n,
            skip_ws_back(s@, b as int) == skip_ws_back(s@, n as int),
        decreases b,
    {
        b = b - 1;
    }
    if a < b {
        substring(s, a, b)
    } else {
        String::new()
    }
}

/// Whether `c` begins with the characters of `p`.
pub fn starts_with(c: &Vec<char>, p: &str) -> (r: bool)
    ensures
        r == has_prefix(c@, p@),
{
    let pc = chars_of(p);
    if pc.len() > c.len() {
        return false;
    }
    let mut k: usize = 0;
    while k < pc.len()
        invariant
            pc@ == p@,
            pc.len() <= c.len(),
            k <= pc.len(),
            c@.subrange(0, k as int) == pc@.subrange(0, k as int),
        decreases pc.len() - k,
    {
        if c[k] != pc[k] {
            assert(c@.subrange(0, pc.len() as int)[k as int] != pc@[k as int]);
            return false;
        }
        assert(c@.subrange(0, k + 1) =~= c@.subrange(0, k as int).push(c@[k as int]));
        assert(pc@.subrange(0, k + 1) =~= pc@.subrange(0, k as int).push(pc@[k as int]));
        k = k + 1;
    }
    assert(pc@.subrange(0, k as int) =~= pc@);
    true
}

/// Whether `needle` occurs in `c` at position `k`.
fn occurs_at(c: &Vec<char>, needle: &Vec<char>, k: usize) -> (r: bool)
    requires
        k + needle.len() <= c.len(),
    ensures
        r == (c@.subrange(k as int, k + needle.len()) == needle@),
{
    let mut j: usize = 0;
    while j < needle.len()
        invariant
            k + needle.len() <= c.len(),
            j <= needle.len(),
            c@.subrange(k as int, k + j) == needle@.subrange(0, j as int),
        decreases needle.len() - j,
    {
        if c[k + j] != needle[j] {
            assert(c@.subrange(k as int, k + needle.len())[j as int] != needle@[j as int]);
            return false;
        }
        assert(c@.subrange(k as int, k + j + 1) =~= c@.subrange(k as int, k + j).push(
            c@[k + j],
        ));
        assert(needle@.subrange(0, j + 1) =~= needle@.subrange(0, j as int).push(
            needle@[j as int],
        ));
        j = j + 1;
    }
    assert(needle@.subrange(0, j as int) =~= needle@);
    true
}

/// Whether `needle` occurs anywhere in `s`.
pub fn contains(s: &str, needle: &str) -> (r: bool)
    ensures
        r == occurs_in(s@, needle@),
{
    let c = chars_of(s);
    let nc = chars_of(needle);
    if nc.len() > c.len() {
        return false;
    }
    let last = c.len() - nc.len();
    let mut k: usize = 0;
    while k <= last
        invariant
            c@ == s@,
            nc@ == needle@,
            last + nc.len() == c.len(),
            forall|m: int| 0 <= m < k ==> #[trigger] c@.subrange(m, m + nc.len()) != nc@,
        decreases last - k,
    {
        if occurs_at(&c, &nc, k) {
            return true;
        }
        if k == last {
            return false;
        }
        k = k + 1;
    }
    false
}

/// Whether `a` and `b` are equal up to the case of ASCII letters.
pub fn equals_ignore_case(a: &str, b: &str) -> (r: bool)
    ensures
        r == eq_ignore_case(a@, b@),
{
    let ac = chars_of(a);
    let bc = chars_of(b);
    if ac.len() != bc.len() {
        return false;
    }
    let mut k: usize = 0;
    while k < ac.len()
        invariant
            ac@ == a@,
            bc@ == b@,
            ac.len() == bc.len(),
            k <= ac.len(),
            forall|m: int| 0 <= m < k ==> ascii_lower(#[trigger] a@[m]) == ascii_lower(b@[m]),
        decreases ac.len() - k,
    {
        if to_ascii_lower(ac[k]) != to_ascii_lower(bc[k]) {
            return false;
        }
        k = k + 1;
    }
    true
}

fn to_ascii_lower(c: char) -> (r: char)
    ensures
        r == ascii_lower(c),
{
    if 'A' <= c && c <= 'Z' {
        ((c as u8) + 32) as char
    } else {
        c
    }
}

/// What follows `p` in `s`, when `s` begins with `p`.
pub fn strip_prefix(s: &str, p: &str) -> (r: Option<String>)
    ensures
        r is Some <==> has_prefix(s@, p@),
        r matches Some(v) ==> v@ == after_prefix(s@, p@),
{
    let c = chars_of(s);
    if starts_with(&c, p) {
        let plen = p.unicode_len();
        Some(substring(s, plen, c.len()))
    } else {
        None
    }
}

/// Whether `a` and `b` hold the same characters.
pub fn same_text(a: &str, b: &str) -> (r: bool)
    ensures
        r == (a@ == b@),
{
    let ac = chars_of(a);
    if ac.len() != b.unicode_len() {
        return false;
    }
    let r = starts_with(&ac, b);
    assert(a@.subrange(0, b@.len() as int) =~= a@);
    r
}

/// The text whose lines are `ls`: each line followed by `'\n'`.
pub open spec fn joined(ls: Seq<Seq<char>>) -> Seq<char>
    decreases ls.len(),
{
    if ls.len() == 0 {
        seq![]
    } else {
        ls[0] + seq!['\n'] + joined(ls.drop_first())
    }
}

/// A line that reads back as itself: no `'\n'` in it and no `'\r'` at its end.
pub open spec fn is_plain_line(l: Seq<char>) -> bool {
    &&& forall|k: int| 0 <= k < l.len() ==> #[trigger] l[k] != '\n'
    &&& !(l.len() > 0 && l.last() == '\r')
}

proof fn lemma_lines_scan_shift(a: Seq<char>, b: Seq<char>, st: int, i: int)
    requires
        0 <= st <= i <= b.len(),
    ensures
        lines_scan(a + b, a.len() + st, a.len() + i) == lines_scan(b, st, i),
    decreases b.len() - i,
{
    let s = a + b;
    if i >= b.len() {
        if st < b.len() {
            assert(s.subrange(a.len() + st, s.len() as int) =~= b.subrange(st, b.len() as int));
        }
    } else {
        assert(s[a.len() + i] == b[i]);
        if b[i] == '\n' {
            assert(s.subrange(a.len() + st, a.len() + i) =~= b.subrange(st, i));
            lemma_lines_scan_shift(a, b, i + 1, i + 1);
        } else {
            lemma_lines_scan_shift(a, b, st, i + 1);
        }
    }
}

proof fn lemma_lines_scan_skip(s: Seq<char>, start: int, i: int, j: int)
    requires
        0 <= i <= j <= s.len(),
        forall|k: int| i <= k < j ==> #[trigger] s[k] != '\n',
    ensures
        lines_scan(s, start, i) == lines_scan(s, start, j),
    decreases j - i,
{
    if i < j {
        lemma_lines_scan_skip(s, start, i + 1, j);
    }
}

/// Joining plain lines and splitting the text again gives the same lines.
pub proof fn lemma_lines_of_joined(ls: Seq<Seq<char>>)
    requires
        forall|j: int| 0 <= j < ls.len() ==> is_plain_line(#[trigger] ls[j]),
    ensures
        lines_of(joined(ls)) == ls,
    decreases ls.len(),
{
    if ls.len() > 0 {
        let l = ls[0];
        let rest = ls.drop_first();
        let a = l + seq!['\n'];
        let s = joined(ls);
        assert(s == a + joined(rest));
        assert(is_plain_line(l));
        assert forall|k: int| 0 <= k < l.len() implies #[trigger] s[k] != '\n' by {
            assert(s[k] == l[k]);
        }
        lemma_lines_scan_skip(s, 0, 0, l.len() as int);
        assert(s[l.len() as int] == '\n');
        assert(s.subrange(0, l.len() as int) =~= l);
        lemma_lines_scan_shift(a, joined(rest), 0, 0);
        assert forall|j: int| 0 <= j < rest.len() implies is_plain_line(#[trigger] rest[j]) by {
            assert(rest[j] == ls[j + 1]);
        }
        lemma_lines_of_joined(rest);
        assert(seq![l] + rest =~= ls);
    } else {
        assert(lines_of(joined(ls)) =~= ls);
    }
}

proof fn lemma_fields_scan_shift(a: Seq<char>, b: Seq<char>, st: int, i: int)
    requires
        0 <= st <= i <= b.len(),
    ensures
        fields_scan(a + b, a.len() + st, a.len() + i) == fields_scan(b, st, i),
    decreases b.len() - i,
{
    let s = a + b;
    if st < i {
        assert(s.subrange(a.len() + st, a.len() + i) =~= b.subrange(st, i));
    }
    if i < b.len() {
        assert(s[a.len() + i] == b[i]);
        if is_ws(b[i]) {
            lemma_fields_scan_shift(a, b, i + 1, i + 1);
        } else {
            lemma_fields_scan_shift(a, b, st, i + 1);
        }
    }
}

proof fn lemma_fields_scan_split(a: Seq<char>, b: Seq<char>, st: int, i: int)
    requires
        0 <= st <= i <= a.len(),
    ensures
        fields_scan(a + seq![' '] + b, st, i) == fields_scan(a, st, i) + fields_of(b),
    decreases a.len() - i,
{
    let s = a + seq![' '] + b;
    if st < i {
        assert(s.subrange(st, i) =~= a.subrange(st, i));
    }
    if i < a.len() {
        assert(s[i] == a[i]);
        if is_ws(a[i]) {
            lemma_fields_scan_split(a, b, i + 1, i + 1);
            assert(fields_scan(a, st, i) + fields_of(b) =~= (if st < i {
                seq![a.subrange(st, i)]
            } else {
                seq![]
            }) + (fields_scan(a, i + 1, i + 1) + fields_of(b)));
        } else {
            lemma_fields_scan_split(a, b, st, i + 1);
        }
    } else {
        assert(s[i] == ' ');
        assert(s == (a + seq![' ']) + b);
        lemma_fields_scan_shift(a + seq![' '], b, 0, 0);
    }
}

/// The fields of two texts joined by a space are the fields of each, in turn.
pub proof fn lemma_fields_of_spaced(a: Seq<char>, b: Seq<char>)
    ensures
        fields_of(a + seq![' '] + b) == fields_of(a) + fields_of(b),
{
    lemma_fields_scan_split(a, b, 0, 0);
}

} // verus!
