//! Reading the management tool's and the mount tool's text output into
//! typed values. Every function here is total: text in an unexpected shape
//! gives fewer values, never an error.

use vstd::prelude::*;
use crate::text::{
    after_prefix, chars_of, contains, fields, fields_of, has_prefix, is_plain_line, is_ws, joined, lemma_fields_of_spaced, lemma_lines_of_joined, lines, lines_of, occurs_in, strip_prefix, same_text, skip_ws, skip_ws_back, substring, trim, trim_str, views,
};

verus! {

/// The kinds of line that carry one value in the cluster tool's output.
#[derive(Clone, Copy, Debug, PartialEq, Eq, Structural)]
pub enum LineKind {
    /// `Hostname: <host>` in `peer status`.
    Peer,
    /// `Volume Name: <name>` in `volume info`.
    VolumeName,
    /// `Brick<N>: <host:path>` in `volume info`.
    Brick,
    /// A non-blank line of `volume list`.
    ListedVolume,
}

/// The first position at or after `i` that holds no ASCII digit, or `s.len()`.
pub open spec fn skip_digits(s: Seq<char>, i: int) -> int
    decreases s.len() - i,
{
    if i < 0 || i >= s.len() {
        s.len() as int
    } else if '0' <= s[i] <= '9' {
        skip_digits(s, i + 1)
    } else {
        i
    }
}

/// The `host:path` of a `Brick<N>: host:path` line; the label is `Brick`,
/// one or more digits and a colon, and the line may be indented.
pub open spec fn brick_of_line(l: Seq<char>) -> Option<Seq<char>> {
    let t = trim(l);
    let rest = after_prefix(t, "Brick"@);
    let d = skip_digits(rest, 0);
    if has_prefix(t, "Brick"@) && 0 < d < rest.len() && rest[d] == ':' {
        Some(trim(rest.subrange(d + 1, rest.len() as int)))
    } else {
        None
    }
}

/// The value that a line of the given kind carries, if it is such a line.
pub open spec fn line_value(kind: LineKind, l: Seq<char>) -> Option<Seq<char>> {
    match kind {
        LineKind::Peer => if has_prefix(trim(l), "Hostname: "@) {
            Some(after_prefix(trim(l), "Hostname: "@))
        } else {
            None
        },
        LineKind::VolumeName => if has_prefix(l, "Volume Name: "@) {
            Some(trim(after_prefix(l, "Volume Name: "@)))
        } else {
            None
        },
        LineKind::Brick => brick_of_line(l),
        LineKind::ListedVolume => if trim(l).len() > 0 {
            Some(trim(l))
        } else {
            None
        },
    }
}

/// The values of the lines of kind `kind` among `ls`, in the order of the lines.
pub open spec fn pick(ls: Seq<Seq<char>>, kind: LineKind) -> Seq<Seq<char>>
    decreases ls.len(),
{
    if ls.len() == 0 {
        seq![]
    } else {
        let before = pick(ls.drop_last(), kind);
        match line_value(kind, ls.last()) {
            Some(v) => before.push(v),
            None => before,
        }
    }
}

/// The hosts that `peer status` output names.
pub open spec fn peers_in(text: Seq<char>) -> Seq<Seq<char>> {
    pick(lines_of(text), LineKind::Peer)
}

/// The volume names that `volume info` output names.
pub open spec fn volume_names_in(text: Seq<char>) -> Seq<Seq<char>> {
    pick(lines_of(text), LineKind::VolumeName)
}

/// The bricks that `volume info` output lists, in the order listed.
pub open spec fn bricks_in(text: Seq<char>) -> Seq<Seq<char>> {
    pick(lines_of(text), LineKind::Brick)
}

/// The volume names that `volume list` output names.
pub open spec fn volume_list_in(text: Seq<char>) -> Seq<Seq<char>> {
    pick(lines_of(text), LineKind::ListedVolume)
}

fn after_digits(c: &Vec<char>, i: usize) -> (r: usize)
    requires
        i <= c.len(),
    ensures
        r == skip_digits(c@, i as int),
{
    let mut k = i;
    while k < c.len() && '0' <= c[k] && c[k] <= '9'
        invariant
            i <= k <= c.len(),
            skip_digits(c@, k as int) == skip_digits(c@, i as int),
        decreases c.len() - k,
    {
        k = k + 1;
    }
    k
}

fn brick_value(line: &str) -> (r: Option<String>)
    ensures
        r is Some <==> brick_of_line(line@) is Some,
        r matches Some(v) ==> v@ == brick_of_line(line@)->0,
{
    let t = trim_str(line);
    match strip_prefix(t.as_str(), "Brick") {
        Some(rest) => {
            let rc = chars_of(rest.as_str());
            let d = after_digits(&rc, 0);
            if 0 < d && d < rc.len() && rc[d] == ':' {
                let v = substring(rest.as_str(), d + 1, rc.len());
                Some(trim_str(v.as_str()))
            } else {
                None
            }
        },
        None => None,
    }
}

/// The value that `line` carries as a line of kind `kind`.
pub fn value_of_line(kind: LineKind, line: &str) -> (r: Option<String>)
    ensures
        r is Some <==> line_value(kind, line@) is Some,
        r matches Some(v) ==> v@ == line_value(kind, line@)->0,
{
    match kind {
        LineKind::Peer => {
            let t = trim_str(line);
            strip_prefix(t.as_str(), "Hostname: ")
        },
        LineKind::VolumeName => match strip_prefix(line, "Volume Name: ") {
            Some(v) => Some(trim_str(v.as_str())),
            None => None,
        },
        LineKind::Brick => brick_value(line),
        LineKind::ListedVolume => {
            let t = trim_str(line);
            if t.unicode_len() > 0 {
                Some(t)
            } else {
                None
            }
        },
    }
}

/// The values of the lines of `text` of kind `kind`, in order.
pub fn pick_lines(text: &str, kind: LineKind) -> (r: Vec<String>)
    ensures
        views(r@) == pick(lines_of(text@), kind),
{
    let ls = lines(text);
    let ghost all = lines_of(text@);
    let mut r: Vec<String> = Vec::new();
    for i in 0..ls.len()
        invariant
            views(ls@) == all,
            views(r@) == pick(all.subrange(0, i as int), kind),
    {
        assert(all.subrange(0, i + 1).drop_last() =~= all.subrange(0, i as int));
        assert(all[i as int] == ls@[i as int]@);
        match value_of_line(kind, &ls[i]) {
            Some(v) => {
                assert(views(r@.push(v)) =~= views(r@).push(v@));
                r.push(v);
            },
            None => {},
        }
    }
    assert(all.subrange(0, ls.len() as int) =~= all);
    r
}

/// The hosts named by `Hostname: <host>` lines of `peer status` output.
pub fn parse_peers(text: &str) -> (r: Vec<String>)
    ensures
        views(r@) == peers_in(text@),
{
    pick_lines(text, LineKind::Peer)
}

/// The names on `Volume Name: <name>` lines of `volume info` output.
pub fn parse_volume_names(text: &str) -> (r: Vec<String>)
    ensures
        views(r@) == volume_names_in(text@),
{
    pick_lines(text, LineKind::VolumeName)
}

/// The `host:path` bricks on `Brick<N>:` lines of `volume info` output, in
/// the order the tool lists them.
pub fn parse_bricks(text: &str) -> (r: Vec<String>)
    ensures
        views(r@) == bricks_in(text@),
{
    pick_lines(text, LineKind::Brick)
}

/// The names in `volume list` output: its non-blank lines, trimmed.
pub fn parse_volume_list(text: &str) -> (r: Vec<String>)
    ensures
        views(r@) == volume_list_in(text@),
{
    pick_lines(text, LineKind::ListedVolume)
}

/// One line of the mount table: the mounted source and the mount point.
pub struct MountEntry {
    pub source: String,
    pub target: String,
}

impl View for MountEntry {
    type V = (Seq<char>, Seq<char>);

    open spec fn view(&self) -> (Seq<char>, Seq<char>) {
        (self.source@, self.target@)
    }
}

/// A mount-table line `<source> on <target> ...`: its first and third
/// whitespace fields, whatever follows them; none for a line of fewer fields.
pub open spec fn mount_entry_of(l: Seq<char>) -> Option<(Seq<char>, Seq<char>)> {
    let f = fields_of(l);
    if f.len() >= 3 {
        Some((f[0], f[2]))
    } else {
        None
    }
}

/// The entries of the lines among `ls` that hold `needle`, in order.
pub open spec fn mounts_in_lines(ls: Seq<Seq<char>>, needle: Seq<char>) -> Seq<
    (Seq<char>, Seq<char>),
>
    decreases ls.len(),
{
    if ls.len() == 0 {
        seq![]
    } else {
        let before = mounts_in_lines(ls.drop_last(), needle);
        if occurs_in(ls.last(), needle) && mount_entry_of(ls.last()) is Some {
            before.push(mount_entry_of(ls.last())->0)
        } else {
            before
        }
    }
}

/// The entries of the mount table `text` whose lines hold `needle`.
pub open spec fn mounts_in(text: Seq<char>, needle: Seq<char>) -> Seq<(Seq<char>, Seq<char>)> {
    mounts_in_lines(lines_of(text), needle)
}

/// The entry that one mount-table line describes.
pub fn parse_mount_line(line: &str) -> (r: Option<MountEntry>)
    ensures
        r is Some <==> mount_entry_of(line@) is Some,
        r matches Some(e) ==> e@ == mount_entry_of(line@)->0,
{
    let f = fields(line);
    if f.len() >= 3 {
        assert(f@[0]@ == fields_of(line@)[0]);
        assert(f@[2]@ == fields_of(line@)[2]);
        Some(MountEntry { source: f[0].clone(), target: f[2].clone() })
    } else {
        None
    }
}

/// The entries of the mount table `text` (the output of `mount`) whose
/// lines hold `needle`; lines of fewer than three fields are left out.
pub fn parse_mount_table(text: &str, needle: &str) -> (r: Vec<MountEntry>)
    ensures
        r@.map_values(|e: MountEntry| e@) == mounts_in(text@, needle@),
{
    let ls = lines(text);
    let ghost all = lines_of(text@);
    let mut r: Vec<MountEntry> = Vec::new();
    for i in 0..ls.len()
        invariant
            views(ls@) == all,
            r@.map_values(|e: MountEntry| e@) == mounts_in_lines(
                all.subrange(0, i as int),
                needle@,
            ),
    {
        assert(all.subrange(0, i + 1).drop_last() =~= all.subrange(0, i as int));
        assert(all[i as int] == ls@[i as int]@);
        if contains(ls[i].as_str(), needle) {
            match parse_mount_line(ls[i].as_str()) {
                Some(e) => {
                    assert(r@.push(e).map_values(|e: MountEntry| e@) =~= r@.map_values(
                        |e: MountEntry| e@,
                    ).push(e@));
                    r.push(e);
                },
                None => {},
            }
        }
    }
    assert(all.subrange(0, ls.len() as int) =~= all);
    r
}

/// The value of `cluster.force-migration` on a line of `volume get`
/// output: the line's first field names the option, its second is `on`
/// or `off`.
pub open spec fn flag_of_line(l: Seq<char>) -> Option<bool> {
    let f = fields_of(l);
    if f.len() >= 2 && f[0] == "cluster.force-migration"@ {
        if f[1] == "on"@ {
            Some(true)
        } else if f[1] == "off"@ {
            Some(false)
        } else {
            None
        }
    } else {
        None
    }
}

/// The value given by the first line among `ls` that gives one.
pub open spec fn flag_in_lines(ls: Seq<Seq<char>>) -> Option<bool>
    decreases ls.len(),
{
    if ls.len() == 0 {
        None
    } else {
        match flag_of_line(ls[0]) {
            Some(b) => Some(b),
            None => flag_in_lines(ls.drop_first()),
        }
    }
}

/// The value of `cluster.force-migration` that `volume get` output reports.
pub open spec fn force_migration_in(text: Seq<char>) -> Option<bool> {
    flag_in_lines(lines_of(text))
}

fn flag_value(line: &str) -> (r: Option<bool>)
    ensures
        r == flag_of_line(line@),
{
    let f = fields(line);
    if f.len() >= 2 && same_text(f[0].as_str(), "cluster.force-migration") {
        if same_text(f[1].as_str(), "on") {
            Some(true)
        } else if same_text(f[1].as_str(), "off") {
            Some(false)
        } else {
            None
        }
    } else {
        None
    }
}

/// Whether `volume get <volume> cluster.force-migration` output reports
/// the option on (`Some(true)`), off (`Some(false)`), or neither (`None`).
pub fn check_force_migration(output: &str) -> (r: Option<bool>)
    ensures
        r == force_migration_in(output@),
{
    let ls = lines(output);
    let ghost all = lines_of(output@);
    assert(all.subrange(0, all.len() as int) =~= all);
    assert(ls.len() == all.len());
    let mut i: usize = 0;
    while i < ls.len()
        invariant
            all == lines_of(output@),
            views(ls@) == all,
            ls.len() == all.len(),
            i <= ls.len(),
            flag_in_lines(all.subrange(i as int, all.len() as int)) == flag_in_lines(all),
        decreases ls.len() - i,
    {
        let ghost rest = all.subrange(i as int, all.len() as int);
        assert(rest.drop_first() =~= all.subrange(i + 1, all.len() as int));
        assert(rest[0] == ls@[i as int]@);
        match flag_value(ls[i].as_str()) {
            Some(b) => {
                return Some(b);
            },
            None => {},
        }
        i = i + 1;
    }
    None
}

/// `Brick<label>: <value>`, as `volume info` prints a brick.
pub open spec fn brick_line(label: Seq<char>, value: Seq<char>) -> Seq<char> {
    "Brick"@ + label + ": "@ + value
}

/// A brick number: one or more ASCII digits.
pub open spec fn is_number(d: Seq<char>) -> bool {
    d.len() > 0 && forall|k: int| 0 <= k < d.len() ==> '0' <= #[trigger] d[k] <= '9'
}

/// A value that stands alone on a line: not empty, without a line break,
/// and without whitespace at either end.
pub open spec fn is_bare_value(v: Seq<char>) -> bool {
    &&& v.len() > 0
    &&& !is_ws(v[0])
    &&& !is_ws(v.last())
    &&& forall|k: int| 0 <= k < v.len() ==> #[trigger] v[k] != '\n'
}

proof fn lemma_skip_digits(rest: Seq<char>, d: Seq<char>, i: int)
    requires
        is_number(d),
        d.len() < rest.len(),
        rest.subrange(0, d.len() as int) == d,
        rest[d.len() as int] == ':',
        0 <= i <= d.len(),
    ensures
        skip_digits(rest, i) == d.len(),
    decreases d.len() - i,
{
    if i < d.len() {
        assert(rest[i] == d[i]);
        lemma_skip_digits(rest, d, i + 1);
    }
}

proof fn lemma_brick_of_brick_line(label: Seq<char>, value: Seq<char>)
    requires
        is_number(label),
        is_bare_value(value),
    ensures
        brick_of_line(brick_line(label, value)) == Some(value),
{
    reveal_strlit("Brick");
    reveal_strlit(": ");
    let l = brick_line(label, value);
    let n = l.len() as int;
    assert(l[0] == 'B');
    assert(skip_ws(l, 0) == 0);
    assert(l[n - 1] == value.last());
    assert(skip_ws_back(l, n) == n);
    assert(trim(l) =~= l);
    assert(has_prefix(l, "Brick"@)) by {
        assert(l.subrange(0, 5) =~= "Brick"@);
    }
    let rest = after_prefix(l, "Brick"@);
    assert(rest =~= label + ": "@ + value);
    assert(rest.subrange(0, label.len() as int) =~= label);
    lemma_skip_digits(rest, label, 0);
    let tail = rest.subrange(label.len() as int + 1, rest.len() as int);
    assert(tail =~= seq![' '] + value);
    assert(skip_ws(tail, 1) == 1);
    assert(skip_ws(tail, 0) == 1);
    assert(skip_ws_back(tail, tail.len() as int) == tail.len());
    assert(trim(tail) =~= value);
}

proof fn lemma_pick_bricks(
    ls: Seq<Seq<char>>,
    pos: Seq<int>,
    labels: Seq<Seq<char>>,
    values: Seq<Seq<char>>,
)
    requires
        pos.len() == labels.len() == values.len(),
        forall|k: int| 0 <= k < pos.len() ==> 0 <= #[trigger] pos[k] < ls.len(),
        forall|k1: int, k2: int| 0 <= k1 < k2 < pos.len() ==> pos[k1] < pos[k2],
        forall|k: int|
            0 <= k < pos.len() ==> is_number(#[trigger] labels[k]) && is_bare_value(values[k])
                && ls[pos[k]] == brick_line(labels[k], values[k]),
        forall|j: int|
            0 <= j < ls.len() && !pos.contains(j) ==> brick_of_line(#[trigger] ls[j]) is None,
    ensures
        pick(ls, LineKind::Brick) == values,
    decreases ls.len(),
{
    if ls.len() == 0 {
        if pos.len() > 0 {
            assert(0 <= pos[0] < ls.len());
        }
        assert(values =~= seq![]);
    } else {
        let n = ls.len() - 1;
        let front = ls.drop_last();
        if pos.len() > 0 && pos.last() == n {
            let m = pos.len() - 1;
            lemma_brick_of_brick_line(labels[m], values[m]);
            assert forall|k: int| 0 <= k < m implies #[trigger] pos[k] < n by {
                assert(pos[k] < pos[m]);
            }
            assert forall|j: int|
                0 <= j < front.len() && !pos.drop_last().contains(j) implies brick_of_line(
                #[trigger] front[j],
            ) is None by {
                if pos.contains(j) {
                    let k = choose|k: int| 0 <= k < pos.len() && pos[k] == j;
                    assert(k != m);
                    assert(pos.drop_last()[k] == j);
                }
            }
            lemma_pick_bricks(front, pos.drop_last(), labels.drop_last(), values.drop_last());
            assert(values.drop_last().push(values[m]) =~= values);
        } else {
            assert forall|k: int| 0 <= k < pos.len() implies #[trigger] pos[k] < n by {
                let m = pos.len() - 1;
                if k < m {
                    assert(pos[k] < pos[m]);
                }
                assert(pos[m] != n);
            }
            assert(!pos.contains(n));
            assert forall|j: int|
                0 <= j < front.len() && !pos.contains(j) implies brick_of_line(
                #[trigger] front[j],
            ) is None by {
                assert(front[j] == ls[j]);
            }
            lemma_pick_bricks(front, pos, labels, values);
        }
    }
}

/// In a `volume info` text whose lines are `ls`, where the brick lines
/// `Brick<labels[k]>: <values[k]>` stand at the increasing positions `pos`
/// among other lines that are no brick lines, the bricks read are exactly
/// `values`, in the order of the text.
pub proof fn lemma_bricks_of_block(
    ls: Seq<Seq<char>>,
    pos: Seq<int>,
    labels: Seq<Seq<char>>,
    values: Seq<Seq<char>>,
)
    requires
        forall|j: int| 0 <= j < ls.len() ==> is_plain_line(#[trigger] ls[j]),
        pos.len() == labels.len() == values.len(),
        forall|k: int| 0 <= k < pos.len() ==> 0 <= #[trigger] pos[k] < ls.len(),
        forall|k1: int, k2: int| 0 <= k1 < k2 < pos.len() ==> pos[k1] < pos[k2],
        forall|k: int|
            0 <= k < pos.len() ==> is_number(#[trigger] labels[k]) && is_bare_value(values[k])
                && ls[pos[k]] == brick_line(labels[k], values[k]),
        forall|j: int|
            0 <= j < ls.len() && !pos.contains(j) ==> brick_of_line(#[trigger] ls[j]) is None,
    ensures
        bricks_in(joined(ls)) == values,
        bricks_in(joined(ls)).len() == pos.len(),
{
    lemma_lines_of_joined(ls);
    lemma_pick_bricks(ls, pos, labels, values);
}

/// A mount-table line reads as its first and third fields, so what is
/// appended after a space (further fields, options) leaves the entry as it is.
pub proof fn lemma_mount_entry_ignores_trailing_fields(line: Seq<char>, extra: Seq<char>)
    requires
        fields_of(line).len() >= 3,
    ensures
        mount_entry_of(line) == Some((fields_of(line)[0], fields_of(line)[2])),
        mount_entry_of(line + seq![' '] + extra) == mount_entry_of(line),
{
    lemma_fields_of_spaced(line, extra);
}

/// Reading the same captured text twice gives the same values: each parser
/// depends on the text alone.
pub proof fn lemma_parsing_depends_on_text_alone(a: Seq<char>, b: Seq<char>, needle: Seq<char>)
    requires
        a == b,
    ensures
        peers_in(a) == peers_in(b),
        volume_names_in(a) == volume_names_in(b),
        bricks_in(a) == bricks_in(b),
        volume_list_in(a) == volume_list_in(b),
        mounts_in(a, needle) == mounts_in(b, needle),
        force_migration_in(a) == force_migration_in(b),
{
}

} // verus!
