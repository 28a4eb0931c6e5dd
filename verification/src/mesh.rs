//! Full peer mesh for a squad — manages all peer connections for one local player.
use vstd::prelude::*;

use tokio::sync::mpsc::Receiver;

use crate::peer::{PeerConnection, PeerRole, WebRtcError};
use crate::text::str_equal;

verus! {

/// Manages all WebRTC peer connections for a single local player, at most
/// one per remote user ID.
///
/// The connections are kept in a `Vec` with no remote user ID twice (`wf`),
/// not in a `HashMap` keyed by the ID: vstd states what a `HashMap` does
/// only for keys that obey its key model (integers, `bool` and the like),
/// and a `String` key would have to be assumed to, so nothing about lookups
/// by user ID could be proved over a map.
pub struct PeerMesh {
    peers: Vec<PeerConnection>,
}

impl PeerMesh {
    /// The connections, in the order their remote users were first added.
    pub closed spec fn conns(&self) -> Seq<PeerConnection> {
        self.peers@
    }

    /// The remote user IDs of the connections, in the order they were added.
    pub open spec fn ids(&self) -> Seq<Seq<char>> {
        self.conns().map_values(|p: PeerConnection| p.remote_spec())
    }

    /// The position of the connection to `id`, if there is one.
    pub open spec fn index_of(&self, id: Seq<char>) -> Option<int> {
        if exists|i: int| 0 <= i < self.conns().len() && (#[trigger] self.conns()[i]).remote_spec() == id {
            Some(choose|i: int| 0 <= i < self.conns().len() && (#[trigger] self.conns()[i]).remote_spec() == id)
        } else {
            None
        }
    }

    /// The connection to `id`, if there is one.
    pub open spec fn conn_of(&self, id: Seq<char>) -> Option<PeerConnection> {
        match self.index_of(id) {
            Some(i) => Some(self.conns()[i]),
            None => None,
        }
    }

    /// The role of the connection to `id`, if there is one.
    pub open spec fn role_of(&self, id: Seq<char>) -> Option<PeerRole> {
        match self.conn_of(id) {
            Some(c) => Some(c.role_spec()),
            None => None,
        }
    }

    /// In a well-formed mesh the connection to a user is the one at any
    /// position that holds that user.
    pub proof fn lemma_index_of(&self, i: int)
        requires
            self.wf(),
            0 <= i < self.conns().len(),
        ensures
            self.index_of(self.conns()[i].remote_spec()) == Some(i),
    {
        let id = self.conns()[i].remote_spec();
        assert(self.ids()[i] == id);
        let j = choose|j: int| 0 <= j < self.conns().len() && (#[trigger] self.conns()[j]).remote_spec() == id;
        assert(self.ids()[j] == id);
    }

    /// No remote user has two connections.
    pub open spec fn wf(&self) -> bool {
        self.ids().no_duplicates()
    }

    /// Create an empty mesh.
    pub fn new() -> (r: Self)
        ensures
            r.ids().len() == 0,
            r.wf(),
    {
        PeerMesh { peers: Vec::new() }
    }

    fn find(&self, remote_id: &str) -> (r: Option<usize>)
        ensures
            match r {
                Some(i) => i < self.peers@.len() && self.ids()[i as int] == remote_id@,
                None => !self.ids().contains(remote_id@),
            },
    {
        let mut i: usize = 0;
        while i < self.peers.len()
            invariant
                0 <= i <= self.peers@.len(),
                forall|j: int| 0 <= j < i ==> self.ids()[j] != remote_id@,
            decreases self.peers@.len() - i,
        {
            if str_equal(self.peers[i].remote_id().as_str(), remote_id) {
                return Some(i);
            }
            i = i + 1;
        }
        None
    }

    /// Add a peer connection to the mesh, replacing any connection to the
    /// same remote user. The connection is bound to `local_ip:local_port`.
    /// Returns the channel that yields the remote peer's encoded audio.
    pub fn add_peer(&mut self, remote_id: String, role: PeerRole, local_ip: [u8; 4], local_port: u16) -> (r:
        Result<Receiver<Vec<u8>>, WebRtcError>)
        requires
            old(self).wf(),
        ensures
            r is Ok,
            final(self).wf(),
            final(self).ids().to_set() == old(self).ids().to_set().insert(remote_id@),
            final(self).ids().len() == old(self).ids().len() + if old(self).ids().contains(remote_id@) {
                0int
            } else {
                1int
            },
            final(self).role_of(remote_id@) == Some(role),
            final(self).conn_of(remote_id@) matches Some(c) && {
                &&& c.remote_spec() == remote_id@
                &&& c.role_spec() == role
                &&& c.local_ip_spec() == local_ip
                &&& c.local_port_spec() == local_port
                &&& !c.has_pending_offer()
                &&& c.mid_spec() is None
                &&& c.has_audio_in()
                &&& c.out_sender() == c.out_channel().0
                &&& c.in_sender() == c.in_channel().0
                &&& c.in_receiver() == Some(c.in_channel().1)
                &&& (r matches Ok(rx) ==> rx == c.out_channel().1)
            },
            forall|x: Seq<char>| x != remote_id@ ==> #[trigger] final(self).conn_of(x) == old(self).conn_of(x),
    {
        let ghost old_mesh = *self;
        let ghost id = remote_id@;
        let ghost before = self.ids();
        let found = self.find(remote_id.as_str());
        let (conn, audio_rx) = PeerConnection::new(remote_id, role, local_ip, local_port);
        let ghost c = conn;
        let ghost at: int;
        match found {
            Some(i) => {
                self.peers.set(i, conn);
                proof {
                    at = i as int;
                    assert(self.ids() =~= before.update(i as int, id));
                    assert(self.ids().to_set() =~= before.to_set().insert(id)) by {
                        assert forall|x: Seq<char>| #[trigger] self.ids().contains(x) <==> (before.contains(x) || x == id) by {
                            if before.contains(x) && x != id {
                                let k = choose|k: int| 0 <= k < before.len() && before[k] == x;
                                assert(k != i);
                                assert(self.ids()[k] == x);
                            }
                            if self.ids().contains(x) && x != id {
                                let k = choose|k: int| 0 <= k < self.ids().len() && self.ids()[k] == x;
                                assert(before[k] == x);
                            }
                            if x == id {
                                assert(self.ids()[i as int] == id);
                            }
                        }
                    }
                    assert(before.contains(id)) by {
                        assert(before[i as int] == id);
                    }
                }
            },
            None => {
                self.peers.push(conn);
                proof {
                    at = before.len() as int;
                    assert(self.ids() =~= before.push(id));
                    assert(self.ids().to_set() =~= before.to_set().insert(id)) by {
                        assert forall|x: Seq<char>| #[trigger] self.ids().contains(x) <==> (before.contains(x) || x == id) by {
                            if before.contains(x) {
                                let k = choose|k: int| 0 <= k < before.len() && before[k] == x;
                                assert(self.ids()[k] == x);
                            }
                            if self.ids().contains(x) && x != id {
                                let k = choose|k: int| 0 <= k < self.ids().len() && self.ids()[k] == x;
                                assert(k < before.len());
                                assert(before[k] == x);
                            }
                            if x == id {
                                assert(self.ids()[before.len() as int] == id);
                            }
                        }
                    }
                }
            },
        }
        proof {
            assert(self.peers@[at] == c);
            assert(self.peers@[at].remote_spec() == id);
            assert forall|i: int, j: int|
                0 <= i < self.ids().len() && 0 <= j < self.ids().len() && i != j implies self.ids()[i] != self.ids()[j] by {
                if i != at && j != at {
                    assert(self.ids()[i] == before[i]);
                    assert(self.ids()[j] == before[j]);
                } else if i == at {
                    if found is Some {
                        assert(before[j] == self.ids()[j]);
                        assert(before[at] == id);
                    } else {
                        assert(self.ids()[j] == before[j]);
                    }
                } else {
                    if found is Some {
                        assert(before[i] == self.ids()[i]);
                        assert(before[at] == id);
                    } else {
                        assert(self.ids()[i] == before[i]);
                    }
                }
            }
            self.lemma_index_of(at);
            assert forall|x: Seq<char>| x != id implies #[trigger] self.conn_of(x) == old_mesh.conn_of(x) by {
                if old_mesh.index_of(x) is Some {
                    let i = old_mesh.index_of(x).unwrap();
                    old_mesh.lemma_index_of(i);
                    assert(i != at);
                    assert(self.conns()[i] == old_mesh.conns()[i]);
                    self.lemma_index_of(i);
                } else {
                    if self.index_of(x) is Some {
                        let i = self.index_of(x).unwrap();
                        assert(i != at);
                        assert(self.conns()[i] == old_mesh.conns()[i]);
                        assert(old_mesh.conns()[i].remote_spec() == x);
                    }
                }
            }
        }
        Ok(audio_rx)
    }

    /// Returns a reference to a peer connection by remote user ID.
    pub fn get(&self, remote_id: &str) -> (r: Option<&PeerConnection>)
        ensures
            (r is Some) == self.ids().contains(remote_id@),
            r matches Some(c) ==> c.remote_spec() == remote_id@,
            r matches Some(c) ==> (self.wf() ==> Some(*c) == self.conn_of(remote_id@)),
    {
        match self.find(remote_id) {
            Some(i) => {
                proof {
                    if self.wf() {
                        self.lemma_index_of(i as int);
                    }
                }
                Some(&self.peers[i])
            },
            None => None,
        }
    }

    /// Returns a mutable reference to a peer connection by remote user ID.
    /// What is written through it becomes that connection, and the mesh is
    /// otherwise unchanged.
    pub fn get_mut(&mut self, remote_id: &str) -> (r: Option<&mut PeerConnection>)
        ensures
            (r is Some) == old(self).ids().contains(remote_id@),
            r matches Some(c) ==> c.remote_spec() == remote_id@,
            old(self).wf() ==> (r matches Some(c) ==> {
                &&& Some(*c) == old(self).conn_of(remote_id@)
                &&& final(self).conns() == old(self).conns().update(old(self).index_of(remote_id@).unwrap(), *final(c))
                &&& final(c).remote_spec() == remote_id@ ==> final(self).wf()
            }),
            r is None ==> *final(self) == *old(self),
    {
        match self.find(remote_id) {
            Some(i) => {
                let ghost before = *self;
                proof {
                    if self.wf() {
                        self.lemma_index_of(i as int);
                    }
                }
                proof {
                    assert forall|c: PeerConnection| c.remote_spec() == remote_id@ implies
                        (#[trigger] before.conns().update(i as int, c)).map_values(|p: PeerConnection| p.remote_spec())
                            == before.ids() by {
                        assert(before.conns().update(i as int, c).map_values(|p: PeerConnection| p.remote_spec())
                            =~= before.ids());
                    }
                }
                Some(&mut self.peers[i])
            },
            None => None,
        }
    }

    /// Returns the number of active peer connections.
    pub fn len(&self) -> (r: usize)
        ensures
            r == self.ids().len(),
    {
        self.peers.len()
    }

    /// Returns true if there are no active peer connections.
    pub fn is_empty(&self) -> (r: bool)
        ensures
            r == (self.ids().len() == 0),
    {
        self.peers.len() == 0
    }
}

impl Default for PeerMesh {
    fn default() -> (r: Self)
        ensures
            r.ids().len() == 0,
    {
        Self::new()
    }
}

} // verus!
