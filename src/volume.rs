//! The volume flows: creating a volume, collecting bricks to create or
//! extend one, starting, stopping and deleting volumes.

use vstd::prelude::*;
use crate::command::{
    create_volume_args, gluster_view, volume_create, volume_delete, volume_start, volume_stop,
    Invocation,
};
use crate::input::{
    brick_entry_of, brick_host, classify_brick_entry, host_of, is_brick_spec, BrickEntry,
};
use crate::text::{same_text, trim, trim_str, views};

verus! {

/// Why a volume cannot be created as asked.
#[derive(Clone, Copy, Debug, PartialEq, Eq, Structural)]
pub enum CreateVolumeError {
    /// The volume name is blank.
    EmptyName,
    /// No brick was given.
    NoBricks,
    /// A brick does not read `host:/path`.
    MalformedBrickSpec,
    /// A replica count below two.
    InvalidReplicaCount,
    /// Fewer bricks than the replica count.
    InsufficientBricks,
    /// The brick count is no multiple of the replica count, where the
    /// policy asks for one.
    BrickCountNotMultiple,
}

/// How the number of bricks must relate to the replica count.
#[derive(Clone, Copy, Debug, PartialEq, Eq, Structural)]
pub enum BrickCountPolicy {
    /// At least as many bricks as replicas.
    AtLeastReplica,
    /// At least as many bricks as replicas, and whole replica sets.
    WholeReplicaSets,
}

/// The first rule, in the order listed, that a creation request breaks.
pub open spec fn create_volume_error(
    name: Seq<char>,
    replica: Option<u32>,
    bricks: Seq<Seq<char>>,
    policy: BrickCountPolicy,
) -> Option<CreateVolumeError> {
    if trim(name).len() == 0 {
        Some(CreateVolumeError::EmptyName)
    } else if bricks.len() == 0 {
        Some(CreateVolumeError::NoBricks)
    } else if exists|i: int| 0 <= i < bricks.len() && !is_brick_spec(#[trigger] bricks[i]) {
        Some(CreateVolumeError::MalformedBrickSpec)
    } else {
        match replica {
            None => None,
            Some(n) => if n < 2 {
                Some(CreateVolumeError::InvalidReplicaCount)
            } else if bricks.len() < n {
                Some(CreateVolumeError::InsufficientBricks)
            } else if policy == BrickCountPolicy::WholeReplicaSets && bricks.len() % (n as nat) != 0 {
                Some(CreateVolumeError::BrickCountNotMultiple)
            } else {
                None
            },
        }
    }
}

/// The `volume create` command for a volume of `bricks`, replicated
/// `replica` times if given; or the first rule the request breaks, in which
/// case no command is built.
pub fn plan_create_volume(
    name: &str,
    replica: Option<u32>,
    bricks: &Vec<String>,
    policy: BrickCountPolicy,
) -> (r: Result<Invocation, CreateVolumeError>)
    ensures
        match create_volume_error(name@, replica, views(bricks@), policy) {
            Some(e) => r == Err::<Invocation, CreateVolumeError>(e),
            None => r matches Ok(inv) && inv@ == gluster_view(
                true,
                create_volume_args(name@, replica, views(bricks@)),
            ),
        },
{
    let t = trim_str(name);
    if t.unicode_len() == 0 {
        return Err(CreateVolumeError::EmptyName);
    }
    if bricks.len() == 0 {
        return Err(CreateVolumeError::NoBricks);
    }
    for i in 0..bricks.len()
        invariant
            trim(name@).len() > 0,
            bricks.len() > 0,
            forall|k: int| 0 <= k < i ==> is_brick_spec(#[trigger] views(bricks@)[k]),
    {
        if !crate::input::is_valid_brick_spec(bricks[i].as_str()) {
            assert(!is_brick_spec(views(bricks@)[i as int]));
            return Err(CreateVolumeError::MalformedBrickSpec);
        }
    }
    match replica {
        Some(n) => {
            if n < 2 {
                return Err(CreateVolumeError::InvalidReplicaCount);
            }
            if bricks.len() < n as usize {
                return Err(CreateVolumeError::InsufficientBricks);
            }
            match policy {
                BrickCountPolicy::WholeReplicaSets => {
                    if bricks.len() % (n as usize) != 0 {
                        return Err(CreateVolumeError::BrickCountNotMultiple);
                    }
                },
                BrickCountPolicy::AtLeastReplica => {},
            }
        },
        None => {},
    }
    Ok(volume_create(name, replica, bricks))
}

/// How a creation ended: `start` is issued only after `create` succeeded.
#[derive(Clone, Copy, Debug, PartialEq, Eq, Structural)]
pub enum CreateOutcome {
    /// `create` failed: there is no volume.
    Failed,
    /// The volume exists but did not start.
    CreatedNotStarted,
    /// The volume exists and runs.
    Started,
}

/// The outcome of a creation from whether `create` and the `start` after it
/// succeeded (`start_succeeded` does not count when `create` failed).
pub fn create_outcome(create_succeeded: bool, start_succeeded: bool) -> (r: CreateOutcome)
    ensures
        !create_succeeded ==> r == CreateOutcome::Failed,
        create_succeeded && start_succeeded ==> r == CreateOutcome::Started,
        create_succeeded && !start_succeeded ==> r == CreateOutcome::CreatedNotStarted,
{
    if !create_succeeded {
        CreateOutcome::Failed
    } else if start_succeeded {
        CreateOutcome::Started
    } else {
        CreateOutcome::CreatedNotStarted
    }
}

/// What one typed line did to a list of bricks.
#[derive(Clone, Copy, Debug, PartialEq, Eq, Structural)]
pub enum EntryOutcome {
    /// The brick joined the list.
    Queued,
    /// The line is no brick specification; the operator is asked again.
    Malformed,
    /// The brick's host is not a peer of the cluster; it is left out.
    UnknownPeer,
    /// The list is complete.
    Finished,
    /// The operation is cancelled.
    Cancelled,
    /// The operator asked to cancel with bricks already listed; this must be
    /// confirmed first.
    ConfirmCancel,
}

/// The bricks typed by the operator for a new volume or for an existing one.
/// For an existing volume, `peers` holds the cluster's peers, and every
/// listed brick lies on one of them.
pub struct BrickCollector {
    pub peers: Option<Vec<String>>,
    pub bricks: Vec<String>,
}

impl BrickCollector {
    pub open spec fn peer_views(&self) -> Option<Seq<Seq<char>>> {
        match self.peers {
            Some(p) => Some(views(p@)),
            None => None,
        }
    }

    /// The bricks listed so far.
    pub open spec fn queued(&self) -> Seq<Seq<char>> {
        views(self.bricks@)
    }

    /// Every listed brick reads `host:/path`, and for an existing volume its
    /// host is one of the peers.
    pub open spec fn wf(&self) -> bool {
        forall|k: int|
            0 <= k < self.queued().len() ==> is_brick_spec(#[trigger] self.queued()[k]) && (
            self.peer_views() matches Some(ps) ==> ps.contains(host_of(self.queued()[k])))
    }

    /// What typing `line` does.
    pub open spec fn outcome_of(&self, line: Seq<char>) -> EntryOutcome {
        match brick_entry_of(line) {
            BrickEntry::Cancel => if self.peers is Some && self.bricks@.len() > 0 {
                EntryOutcome::ConfirmCancel
            } else {
                EntryOutcome::Cancelled
            },
            BrickEntry::Finish => EntryOutcome::Finished,
            BrickEntry::Malformed => EntryOutcome::Malformed,
            BrickEntry::Brick => match self.peer_views() {
                None => EntryOutcome::Queued,
                Some(ps) => if ps.contains(host_of(line)) {
                    EntryOutcome::Queued
                } else {
                    EntryOutcome::UnknownPeer
                },
            },
        }
    }

    /// A list of bricks for a new volume: no peer check.
    pub fn for_new_volume() -> (r: BrickCollector)
        ensures
            r.peers is None,
            r.queued() == Seq::<Seq<char>>::empty(),
            r.wf(),
    {
        let r = BrickCollector { peers: None, bricks: Vec::new() };
        assert(r.queued() =~= Seq::<Seq<char>>::empty());
        r
    }

    /// A list of bricks to add to a volume of a cluster whose peers are `peers`.
    pub fn for_existing_volume(peers: Vec<String>) -> (r: BrickCollector)
        ensures
            r.peer_views() == Some(views(peers@)),
            r.queued() == Seq::<Seq<char>>::empty(),
            r.wf(),
    {
        let r = BrickCollector { peers: Some(peers), bricks: Vec::new() };
        assert(r.queued() =~= Seq::<Seq<char>>::empty());
        r
    }

    /// Takes one line typed by the operator. A brick that is queued is kept
    /// as typed; any other line leaves the list as it was.
    pub fn enter(&mut self, line: &str) -> (r: EntryOutcome)
        ensures
            r == old(self).outcome_of(line@),
            old(self).wf() ==> final(self).wf(),
            final(self).peer_views() == old(self).peer_views(),
            final(self).queued() == if r == EntryOutcome::Queued {
                old(self).queued().push(line@)
            } else {
                old(self).queued()
            },
    {
        let r = match classify_brick_entry(line) {
            BrickEntry::Cancel => {
                if self.peers.is_some() && self.bricks.len() > 0 {
                    EntryOutcome::ConfirmCancel
                } else {
                    EntryOutcome::Cancelled
                }
            },
            BrickEntry::Finish => EntryOutcome::Finished,
            BrickEntry::Malformed => EntryOutcome::Malformed,
            BrickEntry::Brick => match &self.peers {
                None => EntryOutcome::Queued,
                Some(ps) => {
                    let host = brick_host(line);
                    if is_peer(ps, host.as_str()) {
                        EntryOutcome::Queued
                    } else {
                        EntryOutcome::UnknownPeer
                    }
                },
            },
        };
        if r == EntryOutcome::Queued {
            let b = line.to_owned();
            proof {
                assert(views(self.bricks@.push(b)) =~= views(self.bricks@).push(line@));
            }
            self.bricks.push(b);
            proof {
                let q = self.queued();
                assert(q == old(self).queued().push(line@));
                if old(self).wf() {
                    assert forall|k: int| 0 <= k < q.len() implies is_brick_spec(#[trigger] q[k])
                        && (self.peer_views() matches Some(ps) ==> ps.contains(
                        host_of(q[k]),
                    )) by {
                        if k < q.len() - 1 {
                            assert(q[k] == old(self).queued()[k]);
                        }
                    }
                }
            }
        }
        r
    }

    /// The bricks listed so far, in the order typed.
    pub fn bricks(&self) -> (r: &Vec<String>)
        ensures
            views(r@) == self.queued(),
    {
        &self.bricks
    }
}

/// Whether `host` is one of `peers`.
pub fn is_peer(peers: &Vec<String>, host: &str) -> (r: bool)
    ensures
        r == views(peers@).contains(host@),
{
    for i in 0..peers.len()
        invariant
            forall|k: int| 0 <= k < i ==> views(peers@)[k] != host@,
    {
        if same_text(peers[i].as_str(), host) {
            assert(views(peers@)[i as int] == host@);
            return true;
        }
    }
    false
}

/// The direct operations on a volume.
#[derive(Clone, Copy, Debug, PartialEq, Eq, Structural)]
pub enum VolumeOp {
    Start,
    Stop,
    Delete,
}

/// Stopping and deleting destroy service or data: they need the operator's
/// confirmation. Starting does not.
pub fn needs_confirmation(op: VolumeOp) -> (r: bool)
    ensures
        r == (op != VolumeOp::Start),
{
    match op {
        VolumeOp::Start => false,
        _ => true,
    }
}

/// The command that performs `op` on `volume`.
pub fn volume_op_invocation(op: VolumeOp, volume: &str) -> (r: Invocation)
    ensures
        r@ == gluster_view(
            true,
            match op {
                VolumeOp::Start => seq!["volume"@, "start"@, volume@],
                VolumeOp::Stop => seq!["volume"@, "stop"@, volume@, "force"@],
                VolumeOp::Delete => seq!["volume"@, "delete"@, volume@],
            },
        ),
{
    match op {
        VolumeOp::Start => volume_start(volume),
        VolumeOp::Stop => volume_stop(volume),
        VolumeOp::Delete => volume_delete(volume),
    }
}

} // verus!
