//! Command lines for the cluster's management tool (`gluster`) and the
//! operating system's mount and ownership tools.

use vstd::prelude::*;
use crate::text::views;

verus! {

/// A program to run with its arguments; `privileged` ones run through `sudo`.
pub struct Invocation {
    pub privileged: bool,
    pub program: String,
    pub args: Vec<String>,
}

/// The mathematical value of an [`Invocation`].
pub ghost struct InvocationView {
    pub privileged: bool,
    pub program: Seq<char>,
    pub args: Seq<Seq<char>>,
}

impl View for Invocation {
    type V = InvocationView;

    open spec fn view(&self) -> InvocationView {
        InvocationView { privileged: self.privileged, program: self.program@, args: views(self.args@) }
    }
}

/// The two phases of brick removal: `start` migrates data off the brick,
/// `commit` removes it for good once the migration is over.
#[derive(Clone, Copy, Debug, PartialEq, Eq, Structural)]
pub enum RemovalPhase {
    Start,
    Commit,
}

pub open spec fn gluster_view(privileged: bool, args: Seq<Seq<char>>) -> InvocationView {
    InvocationView { privileged, program: "gluster"@, args }
}

pub open spec fn digit_char(d: nat) -> char {
    seq!['0', '1', '2', '3', '4', '5', '6', '7', '8', '9'][d as int]
}

/// The decimal numeral of `n`, without leading zeros.
pub open spec fn decimal(n: nat) -> Seq<char>
    decreases n,
{
    if n < 10 {
        seq![digit_char(n)]
    } else {
        decimal(n / 10).push(digit_char(n % 10))
    }
}

/// `volume create <name> [replica <n>] <brick>... force`.
pub open spec fn create_volume_args(
    name: Seq<char>,
    replica: Option<u32>,
    bricks: Seq<Seq<char>>,
) -> Seq<Seq<char>> {
    let head = seq!["volume"@, "create"@, name];
    let rep = match replica {
        Some(n) => seq!["replica"@, decimal(n as nat)],
        None => seq![],
    };
    head + rep + bricks + seq!["force"@]
}

/// `volume add-brick <volume> <brick>... force`.
pub open spec fn add_brick_args(volume: Seq<char>, bricks: Seq<Seq<char>>) -> Seq<Seq<char>> {
    seq!["volume"@, "add-brick"@, volume] + bricks + seq!["force"@]
}

pub open spec fn phase_word(phase: RemovalPhase) -> Seq<char> {
    match phase {
        RemovalPhase::Start => "start"@,
        RemovalPhase::Commit => "commit"@,
    }
}

fn no_args() -> (r: Vec<String>)
    ensures
        views(r@) == Seq::<Seq<char>>::empty(),
{
    let r: Vec<String> = Vec::new();
    assert(views(r@) =~= Seq::<Seq<char>>::empty());
    r
}

fn push_word(args: &mut Vec<String>, w: &str)
    ensures
        views(final(args)@) == views(old(args)@).push(w@),
{
    let s = w.to_owned();
    proof {
        assert(views(args@.push(s)) =~= views(args@).push(w@));
    }
    args.push(s);
}

fn push_all(args: &mut Vec<String>, ws: &Vec<String>)
    ensures
        views(final(args)@) == views(old(args)@) + views(ws@),
{
    let ghost start = views(args@);
    for i in 0..ws.len()
        invariant
            views(args@) == start + views(ws@.subrange(0, i as int)),
    {
        let w = ws[i].clone();
        proof {
            assert(views(args@.push(w)) =~= views(args@).push(w@));
            assert(views(ws@.subrange(0, i + 1)) =~= views(ws@.subrange(0, i as int)).push(w@));
        }
        args.push(w);
    }
    assert(ws@.subrange(0, ws.len() as int) =~= ws@);
}

fn gluster(privileged: bool, args: Vec<String>) -> (r: Invocation)
    ensures
        r@ == gluster_view(privileged, views(args@)),
{
    Invocation { privileged, program: "gluster".to_owned(), args }
}

fn digit_str(d: u32) -> (r: &'static str)
    requires
        d < 10,
    ensures
        r@ == seq![digit_char(d as nat)],
{
    proof {
        reveal_strlit("0");
        reveal_strlit("1");
        reveal_strlit("2");
        reveal_strlit("3");
        reveal_strlit("4");
        reveal_strlit("5");
        reveal_strlit("6");
        reveal_strlit("7");
        reveal_strlit("8");
        reveal_strlit("9");
    }
    let r = match d {
        0 => "0",
        1 => "1",
        2 => "2",
        3 => "3",
        4 => "4",
        5 => "5",
        6 => "6",
        7 => "7",
        8 => "8",
        _ => "9",
    };
    assert(r@ =~= seq![digit_char(d as nat)]);
    r
}

/// The decimal numeral of `n`.
pub fn decimal_string(n: u32) -> (r: String)
    ensures
        r@ == decimal(n as nat),
    decreases n,
{
    if n < 10 {
        digit_str(n).to_owned()
    } else {
        let mut s = decimal_string(n / 10);
        s.append(digit_str(n % 10));
        s
    }
}

/// `gluster peer probe <host>`, run privileged.
pub fn peer_probe(host: &str) -> (r: Invocation)
    ensures
        r@ == gluster_view(true, seq!["peer"@, "probe"@, host@]),
{
    let mut a = no_args();
    push_word(&mut a, "peer");
    push_word(&mut a, "probe");
    push_word(&mut a, host);
    assert(views(a@) =~= seq!["peer"@, "probe"@, host@]);
    gluster(true, a)
}

/// `gluster peer status`.
pub fn peer_status() -> (r: Invocation)
    ensures
        r@ == gluster_view(false, seq!["peer"@, "status"@]),
{
    let mut a = no_args();
    push_word(&mut a, "peer");
    push_word(&mut a, "status");
    assert(views(a@) =~= seq!["peer"@, "status"@]);
    gluster(false, a)
}

/// `gluster volume info`, of one volume or of all.
pub fn volume_info(volume: Option<&str>) -> (r: Invocation)
    ensures
        r@ == gluster_view(
            false,
            match volume {
                Some(v) => seq!["volume"@, "info"@, v@],
                None => seq!["volume"@, "info"@],
            },
        ),
{
    let mut a = no_args();
    push_word(&mut a, "volume");
    push_word(&mut a, "info");
    match volume {
        Some(v) => push_word(&mut a, v),
        None => {},
    }
    assert(views(a@) =~= match volume {
        Some(v) => seq!["volume"@, "info"@, v@],
        None => seq!["volume"@, "info"@],
    });
    gluster(false, a)
}

/// `gluster volume list`.
pub fn volume_list() -> (r: Invocation)
    ensures
        r@ == gluster_view(false, seq!["volume"@, "list"@]),
{
    let mut a = no_args();
    push_word(&mut a, "volume");
    push_word(&mut a, "list");
    assert(views(a@) =~= seq!["volume"@, "list"@]);
    gluster(false, a)
}

/// `gluster volume status`.
pub fn volume_status() -> (r: Invocation)
    ensures
        r@ == gluster_view(false, seq!["volume"@, "status"@]),
{
    let mut a = no_args();
    push_word(&mut a, "volume");
    push_word(&mut a, "status");
    assert(views(a@) =~= seq!["volume"@, "status"@]);
    gluster(false, a)
}

/// `gluster volume create ...`, run privileged; the brick checks belong to
/// the caller.
pub fn volume_create(name: &str, replica: Option<u32>, bricks: &Vec<String>) -> (r: Invocation)
    ensures
        r@ == gluster_view(true, create_volume_args(name@, replica, views(bricks@))),
{
    let mut a = no_args();
    push_word(&mut a, "volume");
    push_word(&mut a, "create");
    push_word(&mut a, name);
    match replica {
        Some(n) => {
            push_word(&mut a, "replica");
            let num = decimal_string(n);
            push_word(&mut a, num.as_str());
        },
        None => {},
    }
    push_all(&mut a, bricks);
    push_word(&mut a, "force");
    let r = gluster(true, a);
    assert(r@.args =~= create_volume_args(name@, replica, views(bricks@)));
    r
}

/// `gluster volume start <volume>`, run privileged.
pub fn volume_start(volume: &str) -> (r: Invocation)
    ensures
        r@ == gluster_view(true, seq!["volume"@, "start"@, volume@]),
{
    let mut a = no_args();
    push_word(&mut a, "volume");
    push_word(&mut a, "start");
    push_word(&mut a, volume);
    assert(views(a@) =~= seq!["volume"@, "start"@, volume@]);
    gluster(true, a)
}

/// `gluster volume stop <volume> force`, run privileged.
pub fn volume_stop(volume: &str) -> (r: Invocation)
    ensures
        r@ == gluster_view(true, seq!["volume"@, "stop"@, volume@, "force"@]),
{
    let mut a = no_args();
    push_word(&mut a, "volume");
    push_word(&mut a, "stop");
    push_word(&mut a, volume);
    push_word(&mut a, "force");
    assert(views(a@) =~= seq!["volume"@, "stop"@, volume@, "force"@]);
    gluster(true, a)
}

/// `gluster volume delete <volume>`, run privileged.
pub fn volume_delete(volume: &str) -> (r: Invocation)
    ensures
        r@ == gluster_view(true, seq!["volume"@, "delete"@, volume@]),
{
    let mut a = no_args();
    push_word(&mut a, "volume");
    push_word(&mut a, "delete");
    push_word(&mut a, volume);
    assert(views(a@) =~= seq!["volume"@, "delete"@, volume@]);
    gluster(true, a)
}

/// `gluster volume add-brick <volume> <brick>... force`, run privileged.
pub fn volume_add_brick(volume: &str, bricks: &Vec<String>) -> (r: Invocation)
    ensures
        r@ == gluster_view(true, add_brick_args(volume@, views(bricks@))),
{
    let mut a = no_args();
    push_word(&mut a, "volume");
    push_word(&mut a, "add-brick");
    push_word(&mut a, volume);
    push_all(&mut a, bricks);
    push_word(&mut a, "force");
    let r = gluster(true, a);
    assert(r@.args =~= add_brick_args(volume@, views(bricks@)));
    r
}

/// `gluster volume remove-brick <volume> <brick> start|commit`, run privileged.
pub fn volume_remove_brick(volume: &str, brick: &str, phase: RemovalPhase) -> (r: Invocation)
    ensures
        r@ == gluster_view(true, seq!["volume"@, "remove-brick"@, volume@, brick@, phase_word(phase)]),
{
    let mut a = no_args();
    push_word(&mut a, "volume");
    push_word(&mut a, "remove-brick");
    push_word(&mut a, volume);
    push_word(&mut a, brick);
    match phase {
        RemovalPhase::Start => push_word(&mut a, "start"),
        RemovalPhase::Commit => push_word(&mut a, "commit"),
    }
    assert(views(a@) =~= seq!["volume"@, "remove-brick"@, volume@, brick@, phase_word(phase)]);
    gluster(true, a)
}

/// `gluster volume get <volume> cluster.force-migration`.
pub fn volume_get_force_migration(volume: &str) -> (r: Invocation)
    ensures
        r@ == gluster_view(false, seq!["volume"@, "get"@, volume@, "cluster.force-migration"@]),
{
    let mut a = no_args();
    push_word(&mut a, "volume");
    push_word(&mut a, "get");
    push_word(&mut a, volume);
    push_word(&mut a, "cluster.force-migration");
    assert(views(a@) =~= seq!["volume"@, "get"@, volume@, "cluster.force-migration"@]);
    gluster(false, a)
}

/// `mount -t glusterfs <source> <target>`, run privileged.
pub fn mount_glusterfs(source: &str, target: &str) -> (r: Invocation)
    ensures
        r@ == (InvocationView {
            privileged: true,
            program: "mount"@,
            args: seq!["-t"@, "glusterfs"@, source@, target@],
        }),
{
    let mut a = no_args();
    push_word(&mut a, "-t");
    push_word(&mut a, "glusterfs");
    push_word(&mut a, source);
    push_word(&mut a, target);
    assert(views(a@) =~= seq!["-t"@, "glusterfs"@, source@, target@]);
    Invocation { privileged: true, program: "mount".to_owned(), args: a }
}

/// `umount <target>`, run privileged.
pub fn unmount(target: &str) -> (r: Invocation)
    ensures
        r@ == (InvocationView { privileged: true, program: "umount"@, args: seq![target@] }),
{
    let mut a = no_args();
    push_word(&mut a, target);
    assert(views(a@) =~= seq![target@]);
    Invocation { privileged: true, program: "umount".to_owned(), args: a }
}

/// `mount` with no arguments: it prints the table of active mounts.
pub fn mount_table() -> (r: Invocation)
    ensures
        r@ == (InvocationView { privileged: false, program: "mount"@, args: seq![] }),
{
    let a = no_args();
    Invocation { privileged: false, program: "mount".to_owned(), args: a }
}

/// `chown <user>:<user> <path>`, run privileged: the user and the group of
/// the same name become the owners.
pub fn chown_to_user(user: &str, path: &str) -> (r: Invocation)
    ensures
        r@ == (InvocationView {
            privileged: true,
            program: "chown"@,
            args: seq![user@ + ":"@ + user@, path@],
        }),
{
    let mut owner = user.to_owned();
    owner.append(":");
    owner.append(user);
    let mut a = no_args();
    push_word(&mut a, owner.as_str());
    push_word(&mut a, path);
    assert(views(a@) =~= seq![user@ + ":"@ + user@, path@]);
    Invocation { privileged: true, program: "chown".to_owned(), args: a }
}

/// `chmod <mode> <path>`, run privileged.
pub fn chmod(mode: &str, path: &str) -> (r: Invocation)
    ensures
        r@ == (InvocationView { privileged: true, program: "chmod"@, args: seq![mode@, path@] }),
{
    let mut a = no_args();
    push_word(&mut a, mode);
    push_word(&mut a, path);
    assert(views(a@) =~= seq![mode@, path@]);
    Invocation { privileged: true, program: "chmod".to_owned(), args: a }
}

} // verus!
