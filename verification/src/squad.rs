//! Squad model: members, duos, leader assignment.
use vstd::prelude::*;

use crate::text::{str_concat, str_equal};

verus! {

/// Unique identifier for a squad member (their Matrix user ID).
pub type MemberId = String;

/// A duo is a pair of members who always hear each other (open mic).
#[derive(Debug, Clone)]
pub struct Duo {
    pub members: [MemberId; 2],
}

/// Role of a member within the squad.
#[derive(Debug, Clone, Copy, PartialEq, Eq, Structural)]
pub enum Role {
    /// Regular player — access to duo channel only.
    Member,
    /// Squad leader — access to duo channel + leader net (PTT).
    Leader,
}

/// A single squad member.
#[derive(Debug, Clone)]
pub struct Member {
    pub id: MemberId,
    pub role: Role,
}

/// The full squad state.
#[derive(Debug, Clone)]
pub struct Squad {
    pub members: Vec<Member>,
    pub duos: Vec<Duo>,
}

/// Whether duo `d` holds the member `id`.
pub open spec fn duo_has(d: Duo, id: Seq<char>) -> bool {
    d.members[0]@ == id || d.members[1]@ == id
}

/// The member of duo `d` that pairs with `id`: the second one when `id` is
/// the first, else the first.
pub open spec fn duo_other(d: Duo, id: Seq<char>) -> Seq<char> {
    if d.members[0]@ == id {
        d.members[1]@
    } else {
        d.members[0]@
    }
}

/// The role a member ends with after leadership passes from `from` to `to`.
pub open spec fn role_after_transfer(id: Seq<char>, role: Role, from: Seq<char>, to: Seq<char>) -> Role {
    if id == to {
        Role::Leader
    } else if id == from {
        Role::Member
    } else {
        role
    }
}

impl Squad {
    /// Whether some member with id `id` has the leader role.
    pub open spec fn leader_spec(&self, id: Seq<char>) -> bool {
        exists|i: int|
            0 <= i < self.members@.len() && #[trigger] self.members@[i].id@ == id
                && self.members@[i].role == Role::Leader
    }

    /// Returns true if the given member is a leader.
    pub fn is_leader(&self, id: &str) -> (r: bool)
        ensures
            r == self.leader_spec(id@),
    {
        let mut i: usize = 0;
        while i < self.members.len()
            invariant
                0 <= i <= self.members@.len(),
                forall|k: int|
                    0 <= k < i ==> !(#[trigger] self.members@[k].id@ == id@
                        && self.members@[k].role == Role::Leader),
            decreases self.members@.len() - i,
        {
            if str_equal(self.members[i].id.as_str(), id) && self.members[i].role == Role::Leader {
                return true;
            }
            i = i + 1;
        }
        false
    }

    /// Returns the duo partner of a member, if any: the other member of the
    /// first duo that holds `id`.
    pub fn duo_partner<'a>(&'a self, id: &str) -> (r: Option<&'a MemberId>)
        ensures
            match r {
                None => forall|k: int| 0 <= k < self.duos@.len() ==> !duo_has(#[trigger] self.duos@[k], id@),
                Some(p) => exists|k: int|
                    0 <= k < self.duos@.len() && duo_has(#[trigger] self.duos@[k], id@) && (forall|j: int|
                        0 <= j < k ==> !duo_has(#[trigger] self.duos@[j], id@)) && p@ == duo_other(
                        self.duos@[k],
                        id@,
                    ),
            },
    {
        let mut i: usize = 0;
        while i < self.duos.len()
            invariant
                0 <= i <= self.duos@.len(),
                forall|j: int| 0 <= j < i ==> !duo_has(#[trigger] self.duos@[j], id@),
            decreases self.duos@.len() - i,
        {
            let duo = &self.duos[i];
            if str_equal(duo.members[0].as_str(), id) {
                return Some(&duo.members[1]);
            }
            if str_equal(duo.members[1].as_str(), id) {
                return Some(&duo.members[0]);
            }
            i = i + 1;
        }
        None
    }

    /// Transfer leadership from one member to another.
    /// Returns false, and changes nothing, if `from` is not currently a leader.
    /// Otherwise every member with id `from` becomes a plain member and every
    /// member with id `to` becomes a leader (`to` wins when both are equal).
    pub fn transfer_leadership(&mut self, from: &str, to: &str) -> (r: bool)
        ensures
            r == old(self).leader_spec(from@),
            !r ==> *final(self) == *old(self),
            final(self).duos == old(self).duos,
            final(self).members@.len() == old(self).members@.len(),
            forall|i: int|
                0 <= i < old(self).members@.len() ==> (#[trigger] final(self).members@[i]).id
                    == old(self).members@[i].id,
            r ==> forall|i: int|
                0 <= i < old(self).members@.len() ==> (#[trigger] final(self).members@[i]).role
                    == role_after_transfer(
                    old(self).members@[i].id@,
                    old(self).members@[i].role,
                    from@,
                    to@,
                ),
    {
        let is_leader = self.is_leader(from);
        if !is_leader {
            return false;
        }
        let ghost before = self.members@;
        let mut i: usize = 0;
        while i < self.members.len()
            invariant
                0 <= i <= self.members@.len(),
                self.members@.len() == before.len(),
                self.duos == old(self).duos,
                forall|k: int| 0 <= k < before.len() ==> (#[trigger] self.members@[k]).id == before[k].id,
                forall|k: int|
                    0 <= k < i ==> (#[trigger] self.members@[k]).role == role_after_transfer(
                        before[k].id@,
                        before[k].role,
                        from@,
                        to@,
                    ),
                forall|k: int| i <= k < before.len() ==> (#[trigger] self.members@[k]).role == before[k].role,
            decreases self.members@.len() - i,
        {
            let id = self.members[i].id.clone();
            let mut role = self.members[i].role;
            if str_equal(id.as_str(), from) {
                role = Role::Member;
            }
            if str_equal(id.as_str(), to) {
                role = Role::Leader;
            }
            self.members.set(i, Member { id, role });
            i = i + 1;
        }
        true
    }
}

/// Top-level error type shared across all Squelch crates.
#[derive(Debug)]
pub enum SquelchError {
    Audio(String),
    Signaling(String),
    WebRtc(String),
    Squad(String),
}

impl SquelchError {
    /// The human-readable message of this error, e.g. `audio error: <detail>`.
    pub fn message(&self) -> (r: String)
        ensures
            r@ == match self {
                SquelchError::Audio(d) => "audio error: "@ + d@,
                SquelchError::Signaling(d) => "signaling error: "@ + d@,
                SquelchError::WebRtc(d) => "webrtc error: "@ + d@,
                SquelchError::Squad(d) => "squad error: "@ + d@,
            },
    {
        match self {
            SquelchError::Audio(d) => str_concat("audio error: ", d.as_str()),
            SquelchError::Signaling(d) => str_concat("signaling error: ", d.as_str()),
            SquelchError::WebRtc(d) => str_concat("webrtc error: ", d.as_str()),
            SquelchError::Squad(d) => str_concat("squad error: ", d.as_str()),
        }
    }
}

} // verus!
