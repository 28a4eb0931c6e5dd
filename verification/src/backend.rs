//! Backend session state machine: what each UI command does to the status
//! the UI shows and to the Matrix session, and which outside work (login,
//! room creation, joining, leaving, logout) it asks for.
//!
//! The driver performs the requested work and reports its outcome back
//! through the `finish_*` methods.
use vstd::prelude::*;

use crate::room::{without, without_name};
use crate::signaling::{disband_json, disband_message, SignalingEvent, ToDeviceMessage, DISBAND};
use crate::text::{names, str_concat, opt_name, str_equal};

verus! {

/// Commands the UI sends to the backend.
#[derive(Debug)]
pub enum BackendCmd {
    /// Log in to Matrix and start the audio pipeline.
    Login { homeserver: String, username: String, password: String },
    /// Create a new squad room and become its leader.
    CreateRoom { name: String },
    /// Join an existing squad room by ID.
    JoinRoom { room_id: String },
    /// Leave the current session (room stays).
    LeaveSession,
    /// Disband the squad (leader only — sends disband to all members, leaves room).
    DisbandSquad,
    /// Log out and stop everything.
    Logout,
}

/// Current backend status — read by the UI on every frame.
#[derive(Debug, Clone)]
pub struct BackendState {
    /// Human-readable status line shown in the UI.
    pub status: String,
    /// Non-empty when the last action produced an error.
    pub error: Option<String>,
    /// Matrix user ID after login (e.g. `@alice:matrix.org`).
    pub user_id: Option<String>,
    /// Active room ID (set after create/join).
    pub room_id: Option<String>,
    /// Whether the audio pipeline is active.
    pub audio_active: bool,
    /// Whether we are currently logged in to Matrix.
    pub logged_in: bool,
    /// Other users present in the room.
    pub peers: Vec<String>,
}

impl Default for BackendState {
    fn default() -> (r: Self)
        ensures
            r.status@ == Seq::<char>::empty(),
            r.error is None,
            r.user_id is None,
            r.room_id is None,
            !r.audio_active,
            !r.logged_in,
            r.peers@.len() == 0,
    {
        BackendState {
            status: String::new(),
            error: None,
            user_id: None,
            room_id: None,
            audio_active: false,
            logged_in: false,
            peers: Vec::new(),
        }
    }
}

/// Outside work a command asks the driver to do.
#[derive(Debug)]
pub enum BackendAction {
    /// Nothing to do.
    Nothing,
    /// Log in with these credentials, then report through `finish_login`.
    Login { homeserver: String, username: String, password: String },
    /// Create a room with this name, then report through `finish_create`.
    CreateRoom { name: String },
    /// Parse and join this room ID, then report through `finish_join`.
    JoinRoom { room_id: String },
    /// Leave this room, then call `finish_leave`.
    LeaveRoom { room_id: String },
    /// Fetch the members of this room, then hand them to
    /// `disband_with_members`.
    FetchMembersForDisband { room_id: String },
    /// Send each notice to its member, then leave this room and call
    /// `finish_disband`.
    DisbandRoom { room_id: String, notices: Vec<DisbandNotice> },
    /// Log the Matrix client out.
    LogoutClient,
}

/// A disband message addressed to one room member.
#[derive(Debug)]
pub struct DisbandNotice {
    /// The member's Matrix user ID.
    pub to: String,
    /// The `io.squelch.disband` to-device message.
    pub message: ToDeviceMessage,
}

/// The members a disband is sent to: every member but the local user.
pub open spec fn disband_targets(members: Seq<Seq<char>>, own: Option<Seq<char>>) -> Seq<Seq<char>> {
    match own {
        Some(u) => without(members, u),
        None => members,
    }
}

/// The notices are one disband message for room `room` per target, in order.
pub open spec fn notices_for(notices: Seq<DisbandNotice>, targets: Seq<Seq<char>>, room: Seq<char>) -> bool {
    &&& notices.len() == targets.len()
    &&& forall|i: int|
        0 <= i < notices.len() ==> {
            &&& (#[trigger] notices[i]).to@ == targets[i]
            &&& notices[i].message.event_type@ == DISBAND@
            &&& notices[i].message.content@ == disband_json(room)
        }
}

/// The session is consistent: a room is only shown to a logged-in user with
/// a user ID.
pub open spec fn session_ok(s: BackendState) -> bool {
    s.room_id is Some ==> s.logged_in && s.user_id is Some
}

/// One step from `a` to `b` keeps the backend consistent.
pub open spec fn keeps_session(a: BackendCore, b: BackendCore) -> bool {
    a.wf() ==> b.wf()
}

/// The backend as it is once a signaling event has been handled on its state.
pub open spec fn with_state(core: BackendCore, state: BackendState) -> BackendCore {
    BackendCore { state, ..core }
}

/// Over a whole run, a room is only ever shown to a logged-in user with a
/// user ID. A run starts from `BackendCore::new` and goes on by steps that
/// each keep the backend consistent: that is what `start_command`,
/// `finish_login`, `finish_leave`, `finish_disband` state of every call,
/// `finish_create` and `finish_join` of every call with a client (the only
/// calls the driver makes, after `start_command` asked for that work), and
/// `law_signal_keeps_session` of handling a signaling event on the state.
pub proof fn law_session_over_runs(run: Seq<BackendCore>)
    requires
        run.len() > 0,
        run[0].wf(),
        forall|i: int| 0 <= i < run.len() - 1 ==> keeps_session(#[trigger] run[i], run[i + 1]),
    ensures
        forall|i: int| 0 <= i < run.len() ==> (#[trigger] run[i]).wf() && session_ok(run[i].state),
    decreases run.len(),
{
    if run.len() > 1 {
        let p = run.drop_last();
        assert forall|i: int| 0 <= i < p.len() - 1 implies keeps_session(#[trigger] p[i], p[i + 1]) by {
            assert(p[i] == run[i]);
            assert(p[i + 1] == run[i + 1]);
            assert(keeps_session(run[i], run[i + 1]));
        }
        law_session_over_runs(p);
        assert forall|i: int| 0 <= i < run.len() implies (#[trigger] run[i]).wf() && session_ok(run[i].state) by {
            if i < p.len() {
                assert(p[i] == run[i]);
            } else {
                assert(p[i - 1] == run[i - 1]);
                assert(run[i - 1].wf());
                assert(keeps_session(run[i - 1], run[i]));
            }
        }
    }
}

/// Handling a signaling event on the backend's state, as `handle_signaling_event`
/// states it, is a step that keeps the backend consistent.
pub proof fn law_signal_keeps_session(core: BackendCore, state: BackendState)
    requires
        session_ok(core.state) ==> session_ok(state),
        state.logged_in == core.state.logged_in,
        state.user_id == core.state.user_id,
    ensures
        keeps_session(core, with_state(core, state)),
{
}

/// How joining a room ended.
#[derive(Debug)]
pub enum JoinOutcome {
    /// The text is not a valid Matrix room ID.
    InvalidRoomId,
    /// The homeserver refused; the message says why.
    Failed(String),
    /// Joined the room with this ID.
    Joined(String),
}

/// The backend: the state the UI reads and the Matrix session it drives.
#[derive(Debug)]
pub struct BackendCore {
    pub state: BackendState,
    /// Whether a logged-in Matrix client exists.
    pub has_client: bool,
    /// The room the session is in.
    pub room: Option<String>,
}

/// Every field of the UI state but the status and the error is as before.
pub open spec fn same_but_status(a: BackendState, b: BackendState) -> bool {
    &&& a.user_id == b.user_id
    &&& a.room_id == b.room_id
    &&& a.audio_active == b.audio_active
    &&& a.logged_in == b.logged_in
    &&& a.peers == b.peers
}

impl BackendCore {
    /// The backend is consistent: the shown session is consistent, and a
    /// Matrix client exists only for a logged-in user with a user ID.
    pub open spec fn wf(&self) -> bool {
        &&& session_ok(self.state)
        &&& self.has_client ==> self.state.logged_in && self.state.user_id is Some
    }

    /// A backend that is not connected yet.
    pub fn new() -> (r: Self)
        ensures
            r.state.status@ == "Not connected"@,
            r.state.error is None,
            r.state.user_id is None,
            r.state.room_id is None,
            !r.state.audio_active,
            !r.state.logged_in,
            r.state.peers@.len() == 0,
            !r.has_client,
            r.room is None,
            r.wf(),
    {
        let mut state = BackendState::default();
        state.status = String::from_str("Not connected");
        BackendCore { state, has_client: false, room: None }
    }

    fn set_error(&mut self, msg: String)
        ensures
            final(self).state.error == Some(msg),
            final(self).state.status@ == "Error"@,
            same_but_status(final(self).state, old(self).state),
            final(self).has_client == old(self).has_client,
            final(self).room == old(self).room,
    {
        self.state.error = Some(msg);
        self.state.status = String::from_str("Error");
    }

    /// Start handling a command: the previous error is cleared, the status
    /// tells what is under way, and the outside work to do is returned.
    /// Create and join need a logged-in client; leaving and disbanding need a
    /// client and a room; disbanding first asks for the room's members, so
    /// that each can be told; logout resets the session to the logged-out
    /// state, while the audio pipeline keeps running.
    pub fn start_command(&mut self, cmd: BackendCmd) -> (r: BackendAction)
        ensures
            keeps_session(*old(self), *final(self)),
            match cmd {
                BackendCmd::Login { homeserver, username, password } => {
                    &&& r == BackendAction::Login { homeserver, username, password }
                    &&& final(self).state.status@ == "Logging in to Matrix…"@
                    &&& final(self).state.error is None
                    &&& same_but_status(final(self).state, old(self).state)
                    &&& final(self).has_client == old(self).has_client
                    &&& final(self).room == old(self).room
                },
                BackendCmd::CreateRoom { name } => if old(self).has_client {
                    &&& r == BackendAction::CreateRoom { name }
                    &&& final(self).state.status@ == "Creating squad room…"@
                    &&& final(self).state.error is None
                    &&& same_but_status(final(self).state, old(self).state)
                    &&& final(self).has_client == old(self).has_client
                    &&& final(self).room == old(self).room
                } else {
                    &&& r == BackendAction::Nothing
                    &&& opt_name(final(self).state.error) == Some("Not logged in."@)
                    &&& final(self).state.status@ == "Error"@
                    &&& same_but_status(final(self).state, old(self).state)
                    &&& final(self).has_client == old(self).has_client
                    &&& final(self).room == old(self).room
                },
                BackendCmd::JoinRoom { room_id } => if old(self).has_client {
                    &&& r == BackendAction::JoinRoom { room_id }
                    &&& final(self).state.status@ == "Joining squad room…"@
                    &&& final(self).state.error is None
                    &&& same_but_status(final(self).state, old(self).state)
                    &&& final(self).has_client == old(self).has_client
                    &&& final(self).room == old(self).room
                } else {
                    &&& r == BackendAction::Nothing
                    &&& opt_name(final(self).state.error) == Some("Not logged in."@)
                    &&& final(self).state.status@ == "Error"@
                    &&& same_but_status(final(self).state, old(self).state)
                    &&& final(self).has_client == old(self).has_client
                    &&& final(self).room == old(self).room
                },
                BackendCmd::LeaveSession => if old(self).has_client && old(self).room is Some {
                    &&& r == BackendAction::LeaveRoom { room_id: old(self).room.unwrap() }
                    &&& final(self).state.status@ == "Leaving session…"@
                    &&& final(self).state.error is None
                    &&& same_but_status(final(self).state, old(self).state)
                    &&& final(self).has_client == old(self).has_client
                    &&& final(self).room == old(self).room
                } else {
                    &&& r == BackendAction::Nothing
                    &&& final(self).state.error is None
                    &&& final(self).state.status == old(self).state.status
                    &&& same_but_status(final(self).state, old(self).state)
                    &&& final(self).has_client == old(self).has_client
                    &&& final(self).room == old(self).room
                },
                BackendCmd::DisbandSquad => if old(self).has_client && old(self).room is Some {
                    &&& r == BackendAction::FetchMembersForDisband { room_id: old(self).room.unwrap() }
                    &&& final(self).state.status@ == "Disbanding squad…"@
                    &&& final(self).state.error is None
                    &&& same_but_status(final(self).state, old(self).state)
                    &&& final(self).has_client == old(self).has_client
                    &&& final(self).room == old(self).room
                } else {
                    &&& r == BackendAction::Nothing
                    &&& opt_name(final(self).state.error) == Some("Not in a squad room."@)
                    &&& final(self).state.status@ == "Error"@
                    &&& same_but_status(final(self).state, old(self).state)
                    &&& final(self).has_client == old(self).has_client
                    &&& final(self).room == old(self).room
                },
                BackendCmd::Logout => {
                    &&& (if old(self).has_client {
                        r == BackendAction::LogoutClient
                    } else {
                        r == BackendAction::Nothing
                    })
                    &&& final(self).state.status@ == "Logged out."@
                    &&& final(self).state.error is None
                    &&& final(self).state.user_id is None
                    &&& final(self).state.room_id is None
                    &&& final(self).state.audio_active == old(self).state.audio_active
                    &&& !final(self).state.logged_in
                    &&& final(self).state.peers@.len() == 0
                    &&& !final(self).has_client
                    &&& final(self).room is None
                },
            },
    {
        self.state.error = None;
        match cmd {
            BackendCmd::Login { homeserver, username, password } => {
                self.state.status = String::from_str("Logging in to Matrix…");
                BackendAction::Login { homeserver, username, password }
            },
            BackendCmd::CreateRoom { name } => {
                if !self.has_client {
                    self.set_error(String::from_str("Not logged in."));
                    return BackendAction::Nothing;
                }
                self.state.status = String::from_str("Creating squad room…");
                BackendAction::CreateRoom { name }
            },
            BackendCmd::JoinRoom { room_id } => {
                if !self.has_client {
                    self.set_error(String::from_str("Not logged in."));
                    return BackendAction::Nothing;
                }
                self.state.status = String::from_str("Joining squad room…");
                BackendAction::JoinRoom { room_id }
            },
            BackendCmd::LeaveSession => {
                if !self.has_client {
                    return BackendAction::Nothing;
                }
                match &self.room {
                    Some(room_id) => {
                        let room_id = room_id.clone();
                        self.state.status = String::from_str("Leaving session…");
                        BackendAction::LeaveRoom { room_id }
                    },
                    None => BackendAction::Nothing,
                }
            },
            BackendCmd::DisbandSquad => {
                if !self.has_client {
                    self.set_error(String::from_str("Not in a squad room."));
                    return BackendAction::Nothing;
                }
                match &self.room {
                    Some(room_id) => {
                        let room_id = room_id.clone();
                        self.state.status = String::from_str("Disbanding squad…");
                        BackendAction::FetchMembersForDisband { room_id }
                    },
                    None => {
                        self.set_error(String::from_str("Not in a squad room."));
                        BackendAction::Nothing
                    },
                }
            },
            BackendCmd::Logout => {
                let had_client = self.has_client;
                self.has_client = false;
                self.room = None;
                let mut fresh = BackendState::default();
                fresh.status = String::from_str("Logged out.");
                fresh.audio_active = self.state.audio_active;
                self.state = fresh;
                if had_client {
                    BackendAction::LogoutClient
                } else {
                    BackendAction::Nothing
                }
            },
        }
    }

    /// Record how a login ended: on success the client is kept and the user
    /// shown as logged in; on failure the error says why.
    pub fn finish_login(&mut self, result: Result<String, String>)
        ensures
            keeps_session(*old(self), *final(self)),
            match result {
                Ok(uid) => {
                    &&& final(self).state.status@ == "Logged in as "@ + uid@
                    &&& final(self).state.error is None
                    &&& final(self).state.logged_in
                    &&& opt_name(final(self).state.user_id) == Some(uid@)
                    &&& final(self).state.room_id == old(self).state.room_id
                    &&& final(self).state.audio_active == old(self).state.audio_active
                    &&& final(self).state.peers == old(self).state.peers
                    &&& final(self).has_client
                    &&& final(self).room == old(self).room
                },
                Err(e) => {
                    &&& opt_name(final(self).state.error) == Some("Login failed: "@ + e@)
                    &&& final(self).state.status@ == "Error"@
                    &&& same_but_status(final(self).state, old(self).state)
                    &&& final(self).has_client == old(self).has_client
                    &&& final(self).room == old(self).room
                },
            },
    {
        match result {
            Ok(uid) => {
                self.has_client = true;
                self.state.status = str_concat("Logged in as ", uid.as_str());
                self.state.logged_in = true;
                self.state.user_id = Some(uid);
                self.state.error = None;
            },
            Err(e) => {
                self.set_error(str_concat("Login failed: ", e.as_str()));
            },
        }
    }

    /// Record how creating a room ended: on success the room is entered and
    /// its ID shown to share.
    ///
    /// The driver asks for a room only of a backend with a client, and then
    /// the backend stays consistent.
    pub fn finish_create(&mut self, result: Result<String, String>)
        ensures
            old(self).has_client ==> keeps_session(*old(self), *final(self)),
            match result {
                Ok(id) => {
                    &&& final(self).state.status@ == "Room ready — share ID: "@ + id@
                    &&& final(self).state.error == old(self).state.error
                    &&& opt_name(final(self).state.room_id) == Some(id@)
                    &&& opt_name(final(self).room) == Some(id@)
                    &&& final(self).state.user_id == old(self).state.user_id
                    &&& final(self).state.audio_active == old(self).state.audio_active
                    &&& final(self).state.logged_in == old(self).state.logged_in
                    &&& final(self).state.peers == old(self).state.peers
                    &&& final(self).has_client == old(self).has_client
                },
                Err(e) => {
                    &&& opt_name(final(self).state.error) == Some("Could not create room: "@ + e@)
                    &&& final(self).state.status@ == "Error"@
                    &&& same_but_status(final(self).state, old(self).state)
                    &&& final(self).has_client == old(self).has_client
                    &&& final(self).room == old(self).room
                },
            },
    {
        match result {
            Ok(id) => {
                let shown = id.clone();
                self.state.status = str_concat("Room ready — share ID: ", id.as_str());
                self.room = Some(id);
                self.state.room_id = Some(shown);
            },
            Err(e) => {
                self.set_error(str_concat("Could not create room: ", e.as_str()));
            },
        }
    }

    /// Record how joining a room ended.
    ///
    /// The driver joins a room only with a client, and then the backend
    /// stays consistent.
    pub fn finish_join(&mut self, outcome: JoinOutcome)
        ensures
            old(self).has_client ==> keeps_session(*old(self), *final(self)),
            match outcome {
                JoinOutcome::InvalidRoomId => {
                    &&& opt_name(final(self).state.error) == Some("Invalid room ID format."@)
                    &&& final(self).state.status@ == "Error"@
                    &&& same_but_status(final(self).state, old(self).state)
                    &&& final(self).has_client == old(self).has_client
                    &&& final(self).room == old(self).room
                },
                JoinOutcome::Failed(e) => {
                    &&& opt_name(final(self).state.error) == Some("Could not join room: "@ + e@)
                    &&& final(self).state.status@ == "Error"@
                    &&& same_but_status(final(self).state, old(self).state)
                    &&& final(self).has_client == old(self).has_client
                    &&& final(self).room == old(self).room
                },
                JoinOutcome::Joined(id) => {
                    &&& final(self).state.status@ == "Joined squad room."@
                    &&& final(self).state.error == old(self).state.error
                    &&& opt_name(final(self).state.room_id) == Some(id@)
                    &&& opt_name(final(self).room) == Some(id@)
                    &&& final(self).state.user_id == old(self).state.user_id
                    &&& final(self).state.audio_active == old(self).state.audio_active
                    &&& final(self).state.logged_in == old(self).state.logged_in
                    &&& final(self).state.peers == old(self).state.peers
                    &&& final(self).has_client == old(self).has_client
                },
            },
    {
        match outcome {
            JoinOutcome::InvalidRoomId => {
                self.set_error(String::from_str("Invalid room ID format."));
            },
            JoinOutcome::Failed(e) => {
                self.set_error(str_concat("Could not join room: ", e.as_str()));
            },
            JoinOutcome::Joined(id) => {
                let shown = id.clone();
                self.room = Some(id);
                self.state.room_id = Some(shown);
                self.state.status = String::from_str("Joined squad room.");
            },
        }
    }

    /// Record that leaving the session is done, whether or not the
    /// homeserver confirmed it: the room is forgotten, and stays on the server.
    pub fn finish_leave(&mut self)
        ensures
            keeps_session(*old(self), *final(self)),
            final(self).room is None,
            final(self).state.room_id is None,
            final(self).state.status@ == "Left session. Room still exists."@,
            final(self).state.error == old(self).state.error,
            final(self).state.user_id == old(self).state.user_id,
            final(self).state.audio_active == old(self).state.audio_active,
            final(self).state.logged_in == old(self).state.logged_in,
            final(self).state.peers == old(self).state.peers,
            final(self).has_client == old(self).has_client,
    {
        self.room = None;
        self.state.room_id = None;
        self.state.status = String::from_str("Left session. Room still exists.");
    }

    /// Record that the disband is done: the room is forgotten.
    pub fn finish_disband(&mut self)
        ensures
            keeps_session(*old(self), *final(self)),
            final(self).room is None,
            final(self).state.room_id is None,
            final(self).state.status@ == "Squad disbanded."@,
            final(self).state.error == old(self).state.error,
            final(self).state.user_id == old(self).state.user_id,
            final(self).state.audio_active == old(self).state.audio_active,
            final(self).state.logged_in == old(self).state.logged_in,
            final(self).state.peers == old(self).state.peers,
            final(self).has_client == old(self).has_client,
    {
        self.room = None;
        self.state.room_id = None;
        self.state.status = String::from_str("Squad disbanded.");
    }

    /// Continue a disband once the room's members are known: each member but
    /// the local user gets an `io.squelch.disband` message for the room, and
    /// the room is then left. Without a client or a room there is nothing to do.
    pub fn disband_with_members(&self, members: &Vec<String>) -> (r: BackendAction)
        ensures
            (self.has_client && self.room is Some) ==> match r {
                BackendAction::DisbandRoom { room_id, notices } => {
                    &&& room_id@ == self.room.unwrap()@
                    &&& notices_for(notices@, disband_targets(names(members@), opt_name(self.state.user_id)), room_id@)
                },
                _ => false,
            },
            !(self.has_client && self.room is Some) ==> r == BackendAction::Nothing,
    {
        if !self.has_client {
            return BackendAction::Nothing;
        }
        let room_id = match &self.room {
            Some(room) => room.clone(),
            None => { return BackendAction::Nothing; },
        };
        let targets = match &self.state.user_id {
            Some(u) => without_name(members, u.as_str()),
            None => members.clone(),
        };
        proof {
            if self.state.user_id is None {
                assert(names(targets@) =~= names(members@));
            }
        }
        let ghost want = disband_targets(names(members@), opt_name(self.state.user_id));
        let mut notices: Vec<DisbandNotice> = Vec::new();
        let mut i: usize = 0;
        while i < targets.len()
            invariant
                0 <= i <= targets@.len(),
                names(targets@) == want,
                notices_for(notices@, want.take(i as int), room_id@),
            decreases targets@.len() - i,
        {
            let n = DisbandNotice { to: targets[i].clone(), message: disband_message(room_id.as_str()) };
            let ghost before = notices@;
            notices.push(n);
            proof {
                assert(want.take(i + 1)[i as int] == want[i as int]);
                assert forall|j: int| 0 <= j < notices@.len() implies
                    (#[trigger] notices@[j]).to@ == want.take(i + 1)[j] by {
                    if j < i {
                        assert(notices@[j] == before[j]);
                        assert(want.take(i as int)[j] == want.take(i + 1)[j]);
                    }
                }
            }
            i = i + 1;
        }
        proof {
            assert(want.take(want.len() as int) =~= want);
        }
        BackendAction::DisbandRoom { room_id, notices }
    }
}

/// Handle an incoming signaling event: a disband from the current squad
/// leader clears the room shown to the UI; a disband from anyone else, and
/// offers, answers and candidates, change nothing here.
pub fn handle_signaling_event(event: &SignalingEvent, leader: &Option<String>, state: &mut BackendState)
    ensures
        match event {
            SignalingEvent::Disband { from, .. } => if opt_name(*leader) == Some(from@) {
                &&& final(state).room_id is None
                &&& final(state).status@ == "Squad disbanded by leader."@
                &&& final(state).error == old(state).error
                &&& final(state).user_id == old(state).user_id
                &&& final(state).audio_active == old(state).audio_active
                &&& final(state).logged_in == old(state).logged_in
                &&& final(state).peers == old(state).peers
            } else {
                *final(state) == *old(state)
            },
            _ => *final(state) == *old(state),
        },
        session_ok(*old(state)) ==> session_ok(*final(state)),
        final(state).logged_in == old(state).logged_in,
        final(state).user_id == old(state).user_id,
{
    match event {
        SignalingEvent::Disband { from, .. } => {
            let from_leader = match leader {
                Some(l) => str_equal(l.as_str(), from.as_str()),
                None => false,
            };
            if from_leader {
                state.room_id = None;
                state.status = String::from_str("Squad disbanded by leader.");
            }
        },
        _ => {},
    }
}

} // verus!
