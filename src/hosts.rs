//! Editing the entries of `/etc/hosts`, each line `<address> <names>`:
//! adding one that is not there yet, replacing one, removing one, and
//! writing the table back as text.

use vstd::prelude::*;
use crate::text::{fields, fields_of, joined, same_text, trim, trim_str, views};

verus! {

/// `<address> <name>`, both trimmed.
pub open spec fn entry_of(address: Seq<char>, name: Seq<char>) -> Seq<char> {
    trim(address) + " "@ + trim(name)
}

/// `fs` joined by single spaces.
pub open spec fn spaced(fs: Seq<Seq<char>>) -> Seq<char>
    decreases fs.len(),
{
    if fs.len() == 0 {
        seq![]
    } else if fs.len() == 1 {
        fs[0]
    } else {
        spaced(fs.drop_last()) + " "@ + fs.last()
    }
}

/// The names of a line: its fields after the first, joined by spaces.
pub open spec fn names_of(line: Seq<char>) -> Seq<char> {
    let f = fields_of(line);
    if f.len() < 2 {
        seq![]
    } else {
        spaced(f.subrange(1, f.len() as int))
    }
}

/// What `add` did.
#[derive(Clone, Copy, Debug, PartialEq, Eq, Structural)]
pub enum AddOutcome {
    Added,
    /// A line equal to the new entry, up to surrounding whitespace, was
    /// there already: nothing changed.
    AlreadyPresent,
}

/// The line for an address and a host name.
pub fn hosts_entry(address: &str, name: &str) -> (r: String)
    ensures
        r@ == entry_of(address@, name@),
{
    let mut r = trim_str(address);
    r.append(" ");
    let n = trim_str(name);
    r.append(n.as_str());
    r
}

/// The address of a line: its first field, or nothing.
pub fn entry_address(line: &str) -> (r: String)
    ensures
        r@ == if fields_of(line@).len() > 0 {
            fields_of(line@)[0]
        } else {
            Seq::<char>::empty()
        },
{
    let f = fields(line);
    if f.len() > 0 {
        assert(f@[0]@ == fields_of(line@)[0]);
        f[0].clone()
    } else {
        String::new()
    }
}

/// The names of a line: its fields after the first, joined by spaces.
pub fn entry_names(line: &str) -> (r: String)
    ensures
        r@ == names_of(line@),
{
    let f = fields(line);
    let ghost fs = fields_of(line@);
    let mut r = String::new();
    if f.len() < 2 {
        return r;
    }
    r.append(f[1].as_str());
    let mut i: usize = 2;
    assert(fs.subrange(1, 2) =~= seq![fs[1]]);
    while i < f.len()
        invariant
            views(f@) == fs,
            2 <= i <= f.len(),
            r@ == spaced(fs.subrange(1, i as int)),
        decreases f.len() - i,
    {
        r.append(" ");
        r.append(f[i].as_str());
        assert(fs.subrange(1, i + 1).drop_last() =~= fs.subrange(1, i as int));
        i = i + 1;
    }
    r
}

/// The lines of a hosts file.
pub struct HostsTable {
    pub entries: Vec<String>,
}

impl View for HostsTable {
    type V = Seq<Seq<char>>;

    open spec fn view(&self) -> Seq<Seq<char>> {
        views(self.entries@)
    }
}

impl HostsTable {
    /// The table of the given lines.
    pub fn new(entries: Vec<String>) -> (r: HostsTable)
        ensures
            r@ == views(entries@),
    {
        HostsTable { entries }
    }

    /// Adds `<address> <name>` unless a line equal to it, up to surrounding
    /// whitespace, is there already.
    pub fn add(&mut self, address: &str, name: &str) -> (r: AddOutcome)
        ensures
            (r == AddOutcome::AlreadyPresent) == exists|k: int|
                0 <= k < old(self)@.len() && trim(#[trigger] old(self)@[k]) == entry_of(
                    address@,
                    name@,
                ),
            final(self)@ == if r == AddOutcome::Added {
                old(self)@.push(entry_of(address@, name@))
            } else {
                old(self)@
            },
    {
        let e = hosts_entry(address, name);
        for i in 0..self.entries.len()
            invariant
                e@ == entry_of(address@, name@),
                forall|k: int| 0 <= k < i ==> trim(#[trigger] self@[k]) != e@,
        {
            let t = trim_str(self.entries[i].as_str());
            if same_text(t.as_str(), e.as_str()) {
                assert(trim(self@[i as int]) == e@);
                return AddOutcome::AlreadyPresent;
            }
        }
        proof {
            assert(views(self.entries@.push(e)) =~= views(self.entries@).push(e@));
        }
        self.entries.push(e);
        AddOutcome::Added
    }

    /// Replaces line `index` by `<address> <name>`.
    pub fn replace(&mut self, index: usize, address: &str, name: &str)
        requires
            index < old(self)@.len(),
        ensures
            final(self)@ == old(self)@.update(index as int, entry_of(address@, name@)),
    {
        let e = hosts_entry(address, name);
        self.entries.set(index, e);
        assert(final(self)@ =~= old(self)@.update(index as int, entry_of(address@, name@)));
    }

    /// Removes line `index`.
    pub fn remove(&mut self, index: usize)
        requires
            index < old(self)@.len(),
        ensures
            final(self)@ == old(self)@.remove(index as int),
    {
        self.entries.remove(index);
        assert(final(self)@ =~= old(self)@.remove(index as int));
    }

    /// The file's text: each line followed by a line break.
    pub fn render(&self) -> (r: String)
        ensures
            r@ == joined(self@),
    {
        let mut r = String::new();
        let n = self.entries.len();
        let mut i: usize = n;
        assert(self@.subrange(n as int, n as int) =~= seq![]);
        while i > 0
            invariant
                i <= n == self.entries.len(),
                r@ == joined(self@.subrange(i as int, n as int)),
            decreases i,
        {
            let mut line = self.entries[i - 1].clone();
            line.append("\n");
            let ghost tail = self@.subrange(i as int, n as int);
            let ghost longer = self@.subrange(i - 1, n as int);
            assert(longer.drop_first() =~= tail);
            assert(longer[0] == self@[i - 1]);
            line.append(r.as_str());
            proof {
                reveal_strlit("\n");
                assert("\n"@ =~= seq!['\n']);
            }
            r = line;
            i = i - 1;
        }
        assert(self@.subrange(0, n as int) =~= self@);
        r
    }
}

} // verus!
