//! The application's screens and what the user's input does to them
//! (lobby-first UX): login, room setup, and the live room view with its
//! lobby and squads. Drawing is left to the UI toolkit; every decision the
//! screens make is here.
use vstd::prelude::*;

use crate::backend::{BackendCmd, BackendState};
use crate::config::{AppConfig, DEFAULT_PTT_KEY};
use crate::room::{
    all_members, assign_spec, assign_to_squad, can_create_spec, can_create_squad, collect_members,
    create_spec, create_squad, disband_spec, disband_squad, in_any_squad, join_spec, join_squad,
    leads_squad, leave_spec, leave_squad, lobby_members, my_squad_index, remove_from_squad,
    remove_spec, roster, set_leader, set_leader_spec, unassigned, SquadDraft, SquadView,
    roster_wf, names_ok,
};
use crate::text::{str_concat, contains_text, is_blank, names, opt_name, str_contains, str_equal, trim, trimmed};

verus! {

/// The screen shown.
#[derive(Debug, Clone, Copy, PartialEq, Eq, Structural)]
pub enum Screen {
    Login,
    /// Room ID input and PTT key.
    SquadSetup,
    /// Live lobby and squads.
    RoomView,
}

/// The state of the application's screens.
#[derive(Debug)]
pub struct SquelchApp {
    pub screen: Screen,
    pub cfg: AppConfig,
    pub homeserver_input: String,
    pub username_input: String,
    pub password_input: String,
    pub room_id_input: String,
    pub ptt_key_input: String,
    pub squads: Vec<SquadDraft>,
    pub new_squad_name: String,
    /// Which squad the local player is in (`None` = lobby).
    pub my_squad: Option<usize>,
}

/// What the login screen shows.
#[derive(Debug)]
pub struct LoginPanel {
    /// The backend's error, shown in red.
    pub error: Option<String>,
    /// The backend's status, shown when there is no error and it says more
    /// than "Not connected".
    pub status: Option<String>,
    /// Whether the "Sign in" button can be clicked.
    pub sign_in_enabled: bool,
}

/// What the room setup screen shows.
#[derive(Debug)]
pub struct SetupPanel {
    /// The backend's error, shown in red.
    pub error: Option<String>,
    /// The backend's status, shown when there is no error and it is not empty.
    pub status: Option<String>,
    /// "Create Room" when no room ID is typed, else "Join Room".
    pub start_label: String,
}

/// What the room view shows and which buttons it offers.
#[derive(Debug)]
pub struct RoomOverview {
    /// The local user ID, or the empty text when not logged in.
    pub my_uid: String,
    /// Everyone in the room: the local user, then the peers, each once.
    pub all_members: Vec<String>,
    /// Those of `all_members` in no squad.
    pub lobby: Vec<String>,
    /// The first squad holding the local user.
    pub my_squad_idx: Option<usize>,
    /// Whether the local user leads that squad.
    pub i_am_leader: bool,
    /// Whether "+ Create Squad" can be clicked.
    pub can_create: bool,
}

/// The clicks gathered while drawing one frame of the room view, applied
/// together afterwards in the order of the fields.
#[derive(Debug)]
pub struct RoomActions {
    /// "+ Create Squad" was clicked with this name typed; the squad is made
    /// under the trimmed name, and only if the name can be used.
    pub create_squad: Option<String>,
    pub join_squad: Option<usize>,
    pub leave_squad: bool,
    pub assign_to_squad: Option<(String, usize)>,
    pub remove_from_squad: Option<(usize, String)>,
    pub set_leader: Option<(usize, String)>,
    pub disband_squad: Option<usize>,
    pub leave_session: bool,
    pub disband_room: bool,
}

/// The local user ID as the room view uses it: the empty text when there is none.
pub open spec fn uid_or_empty(st: BackendState) -> Seq<char> {
    match opt_name(st.user_id) {
        Some(u) => u,
        None => Seq::empty(),
    }
}

/// The roster after the squad changes of one frame of clicks, for local user `me`.
pub open spec fn roster_after(r: Seq<SquadView>, me: Seq<char>, a: RoomActions) -> Seq<SquadView> {
    let r1 = match a.create_squad {
        Some(n) => if can_create_spec(r, n@) {
            create_spec(r, trimmed(n@), me)
        } else {
            r
        },
        None => r,
    };
    let r2 = match a.join_squad {
        Some(i) => join_spec(r1, me, i as int),
        None => r1,
    };
    let r3 = if a.leave_squad {
        leave_spec(r2, me)
    } else {
        r2
    };
    let r4 = match a.assign_to_squad {
        Some((m, i)) => assign_spec(r3, m@, i as int),
        None => r3,
    };
    let r5 = match a.remove_from_squad {
        Some((i, m)) => remove_spec(r4, i as int, m@),
        None => r4,
    };
    let r6 = match a.set_leader {
        Some((i, m)) => set_leader_spec(r5, i as int, m@),
        None => r5,
    };
    match a.disband_squad {
        Some(i) => disband_spec(r6, i as int),
        None => r6,
    }
}

/// The clicks of one frame keep the room's roster well formed (nobody twice
/// in a squad, nobody in two squads) and its squad names usable (non-empty,
/// without surrounding white space, pairwise distinct).
pub proof fn law_room_actions_keep_roster(r: Seq<SquadView>, me: Seq<char>, a: RoomActions)
    requires
        roster_wf(r),
        names_ok(r),
    ensures
        roster_wf(roster_after(r, me, a)),
        names_ok(roster_after(r, me, a)),
{
    let r1 = match a.create_squad {
        Some(n) => if can_create_spec(r, n@) {
            create_spec(r, trimmed(n@), me)
        } else {
            r
        },
        None => r,
    };
    if let Some(n) = a.create_squad {
        if can_create_spec(r, n@) {
            crate::room::law_create_keeps_wf(r, trimmed(n@), me);
            crate::room::lemma_create_names(r, n@, me);
        }
    }
    let r2 = match a.join_squad {
        Some(i) => join_spec(r1, me, i as int),
        None => r1,
    };
    if let Some(i) = a.join_squad {
        crate::room::lemma_join_wf(r1, me, i as int);
        crate::room::lemma_names_kept(r1, r2);
    }
    let r3 = if a.leave_squad {
        leave_spec(r2, me)
    } else {
        r2
    };
    if a.leave_squad {
        crate::room::law_leave_returns_to_lobby(r2, me);
        crate::room::lemma_names_kept(r2, r3);
    }
    let r4 = match a.assign_to_squad {
        Some((m, i)) => assign_spec(r3, m@, i as int),
        None => r3,
    };
    if let Some((m, i)) = a.assign_to_squad {
        crate::room::lemma_assign_wf(r3, m@, i as int);
        crate::room::lemma_names_kept(r3, r4);
    }
    let r5 = match a.remove_from_squad {
        Some((i, m)) => remove_spec(r4, i as int, m@),
        None => r4,
    };
    if let Some((i, m)) = a.remove_from_squad {
        crate::room::lemma_remove_wf(r4, i as int, m@);
        crate::room::lemma_names_kept(r4, r5);
    }
    let r6 = match a.set_leader {
        Some((i, m)) => set_leader_spec(r5, i as int, m@),
        None => r5,
    };
    if let Some((i, m)) = a.set_leader {
        crate::room::law_set_leader_keeps_members(r5, i as int, m@);
        crate::room::lemma_names_kept(r5, r6);
    }
    if let Some(i) = a.disband_squad {
        crate::room::lemma_disband_wf(r6, i as int);
        crate::room::lemma_disband_names(r6, i as int);
    }
}

/// Whether the frame leaves the room view: the user left or disbanded the
/// room, or the room is gone (a remote disband).
pub open spec fn leaves_room(screen: Screen, st: BackendState, a: RoomActions) -> bool {
    a.leave_session || a.disband_room || (st.room_id is None && screen == Screen::RoomView)
}

fn opt_clone(o: &Option<String>) -> (r: Option<String>)
    ensures
        opt_name(r) == opt_name(*o),
{
    match o {
        Some(s) => Some(s.clone()),
        None => None,
    }
}

impl SquelchApp {
    /// The application at start: the login screen, with the saved homeserver,
    /// username and PTT key (CapsLock when none is saved) filled in.
    pub fn new(cfg: AppConfig) -> (r: Self)
        ensures
            r.screen == Screen::Login,
            r.homeserver_input@ == cfg.homeserver@,
            r.username_input@ == cfg.username@,
            r.ptt_key_input@ == match opt_name(cfg.ptt_key) {
                Some(k) => k,
                None => DEFAULT_PTT_KEY@,
            },
            r.password_input@.len() == 0,
            r.room_id_input@.len() == 0,
            r.new_squad_name@.len() == 0,
            r.squads@.len() == 0,
            r.my_squad is None,
            r.cfg == cfg,
    {
        let homeserver_input = cfg.homeserver.clone();
        let username_input = cfg.username.clone();
        let ptt_key_input = match &cfg.ptt_key {
            Some(k) => k.clone(),
            None => String::from_str(DEFAULT_PTT_KEY),
        };
        SquelchApp {
            screen: Screen::Login,
            cfg,
            homeserver_input,
            username_input,
            password_input: String::new(),
            room_id_input: String::new(),
            ptt_key_input,
            squads: Vec::new(),
            new_squad_name: String::new(),
            my_squad: None,
        }
    }

    /// One frame of the login screen: what it shows, and the move to room
    /// setup once logged in. Signing in is disabled while a login is under
    /// way (not logged in and the status mentions "Logging").
    pub fn login_panel(&mut self, st: &BackendState) -> (r: LoginPanel)
        ensures
            opt_name(r.error) == opt_name(st.error),
            opt_name(r.status) == if st.error is None && st.status@ != "Not connected"@ {
                Some(st.status@)
            } else {
                None
            },
            r.sign_in_enabled == !(!st.logged_in && contains_text(st.status@, "Logging"@)),
            final(self).screen == if st.logged_in && old(self).screen == Screen::Login {
                Screen::SquadSetup
            } else {
                old(self).screen
            },
            final(self).cfg == old(self).cfg,
            final(self).homeserver_input == old(self).homeserver_input,
            final(self).username_input == old(self).username_input,
            final(self).password_input == old(self).password_input,
            final(self).room_id_input == old(self).room_id_input,
            final(self).ptt_key_input == old(self).ptt_key_input,
            final(self).squads == old(self).squads,
            final(self).new_squad_name == old(self).new_squad_name,
            final(self).my_squad == old(self).my_squad,
    {
        let error = opt_clone(&st.error);
        let status = if st.error.is_none() && !str_equal(st.status.as_str(), "Not connected") {
            Some(st.status.clone())
        } else {
            None
        };
        if st.logged_in && self.screen == Screen::Login {
            self.screen = Screen::SquadSetup;
        }
        let logging_in = !st.logged_in && str_contains(st.status.as_str(), "Logging");
        LoginPanel { error, status, sign_in_enabled: !logging_in }
    }

    /// "Sign in" clicked: with a homeserver, a username (both non-blank) and
    /// a password, the trimmed homeserver and username are kept in the
    /// configuration (for the caller to save) and a login is asked for.
    pub fn do_login(&mut self) -> (r: Option<BackendCmd>)
        ensures
            if trimmed(old(self).homeserver_input@).len() == 0 || trimmed(old(self).username_input@).len() == 0
                || old(self).password_input@.len() == 0 {
                &&& r is None
                &&& final(self).cfg == old(self).cfg
            } else {
                &&& r matches Some(BackendCmd::Login { homeserver, username, password }) && homeserver@
                    == trimmed(old(self).homeserver_input@) && username@ == trimmed(
                    old(self).username_input@,
                ) && password@ == old(self).password_input@
                &&& final(self).cfg.homeserver@ == trimmed(old(self).homeserver_input@)
                &&& final(self).cfg.username@ == trimmed(old(self).username_input@)
                &&& final(self).cfg.ptt_key == old(self).cfg.ptt_key
            },
            final(self).screen == old(self).screen,
            final(self).homeserver_input == old(self).homeserver_input,
            final(self).username_input == old(self).username_input,
            final(self).password_input == old(self).password_input,
            final(self).room_id_input == old(self).room_id_input,
            final(self).ptt_key_input == old(self).ptt_key_input,
            final(self).squads == old(self).squads,
            final(self).new_squad_name == old(self).new_squad_name,
            final(self).my_squad == old(self).my_squad,
    {
        if is_blank(self.homeserver_input.as_str()) || is_blank(self.username_input.as_str())
            || self.password_input.as_str().unicode_len() == 0 {
            return None;
        }
        self.cfg.homeserver = trim(self.homeserver_input.as_str());
        self.cfg.username = trim(self.username_input.as_str());
        Some(
            BackendCmd::Login {
                homeserver: self.cfg.homeserver.clone(),
                username: self.cfg.username.clone(),
                password: self.password_input.clone(),
            },
        )
    }

    /// One frame of the room setup screen: what it shows, and the move to the
    /// room view (with no squads) once a room is active.
    pub fn setup_panel(&mut self, st: &BackendState) -> (r: SetupPanel)
        ensures
            opt_name(r.error) == opt_name(st.error),
            opt_name(r.status) == if st.error is None && st.status@.len() > 0 {
                Some(st.status@)
            } else {
                None
            },
            r.start_label@ == if trimmed(old(self).room_id_input@).len() == 0 {
                "Create Room"@
            } else {
                "Join Room"@
            },
            if st.room_id is Some && old(self).screen == Screen::SquadSetup {
                &&& final(self).screen == Screen::RoomView
                &&& final(self).squads@.len() == 0
                &&& final(self).my_squad is None
            } else {
                &&& final(self).screen == old(self).screen
                &&& final(self).squads == old(self).squads
                &&& final(self).my_squad == old(self).my_squad
            },
            final(self).cfg == old(self).cfg,
            final(self).homeserver_input == old(self).homeserver_input,
            final(self).username_input == old(self).username_input,
            final(self).password_input == old(self).password_input,
            final(self).room_id_input == old(self).room_id_input,
            final(self).ptt_key_input == old(self).ptt_key_input,
            final(self).new_squad_name == old(self).new_squad_name,
    {
        let error = opt_clone(&st.error);
        let status = if st.error.is_none() && st.status.as_str().unicode_len() > 0 {
            Some(st.status.clone())
        } else {
            None
        };
        if st.room_id.is_some() && self.screen == Screen::SquadSetup {
            self.squads = Vec::new();
            self.my_squad = None;
            self.screen = Screen::RoomView;
        }
        let start_label = if is_blank(self.room_id_input.as_str()) {
            String::from_str("Create Room")
        } else {
            String::from_str("Join Room")
        };
        SetupPanel { error, status, start_label }
    }

    /// "Sign out" clicked on the setup screen: back to login with the
    /// password cleared, and a logout asked for.
    pub fn sign_out(&mut self) -> (r: BackendCmd)
        ensures
            r == BackendCmd::Logout,
            final(self).screen == Screen::Login,
            final(self).password_input@.len() == 0,
            final(self).cfg == old(self).cfg,
            final(self).homeserver_input == old(self).homeserver_input,
            final(self).username_input == old(self).username_input,
            final(self).room_id_input == old(self).room_id_input,
            final(self).ptt_key_input == old(self).ptt_key_input,
            final(self).squads == old(self).squads,
            final(self).new_squad_name == old(self).new_squad_name,
            final(self).my_squad == old(self).my_squad,
    {
        self.screen = Screen::Login;
        self.password_input = String::new();
        BackendCmd::Logout
    }

    /// "Create Room" / "Join Room" clicked: with a non-blank PTT key, the
    /// trimmed key is kept in the configuration (for the caller to save);
    /// with no room ID typed a room named "Squelch — <username>" is created,
    /// else the trimmed room ID is joined.
    pub fn do_start_squad(&mut self) -> (r: Option<BackendCmd>)
        ensures
            if trimmed(old(self).ptt_key_input@).len() == 0 {
                &&& r is None
                &&& final(self).cfg == old(self).cfg
            } else {
                &&& opt_name(final(self).cfg.ptt_key) == Some(trimmed(old(self).ptt_key_input@))
                &&& final(self).cfg.homeserver == old(self).cfg.homeserver
                &&& final(self).cfg.username == old(self).cfg.username
                &&& if trimmed(old(self).room_id_input@).len() == 0 {
                    r matches Some(BackendCmd::CreateRoom { name }) && name@ == "Squelch — "@
                        + old(self).cfg.username@
                } else {
                    r matches Some(BackendCmd::JoinRoom { room_id }) && room_id@ == trimmed(
                        old(self).room_id_input@,
                    )
                }
            },
            final(self).screen == old(self).screen,
            final(self).homeserver_input == old(self).homeserver_input,
            final(self).username_input == old(self).username_input,
            final(self).password_input == old(self).password_input,
            final(self).room_id_input == old(self).room_id_input,
            final(self).ptt_key_input == old(self).ptt_key_input,
            final(self).squads == old(self).squads,
            final(self).new_squad_name == old(self).new_squad_name,
            final(self).my_squad == old(self).my_squad,
    {
        if is_blank(self.ptt_key_input.as_str()) {
            return None;
        }
        self.cfg.ptt_key = Some(trim(self.ptt_key_input.as_str()));
        if is_blank(self.room_id_input.as_str()) {
            Some(BackendCmd::CreateRoom { name: str_concat("Squelch — ", self.cfg.username.as_str()) })
        } else {
            Some(BackendCmd::JoinRoom { room_id: trim(self.room_id_input.as_str()) })
        }
    }

    /// What the room view shows for the backend state `st`.
    pub fn room_overview(&self, st: &BackendState) -> (r: RoomOverview)
        ensures
            r.my_uid@ == uid_or_empty(*st),
            names(r.all_members@) == collect_members(
                match opt_name(st.user_id) {
                    Some(u) => seq![u],
                    None => Seq::empty(),
                },
                names(st.peers@),
            ),
            names(r.lobby@) == unassigned(names(r.all_members@), roster(self.squads@)),
            match r.my_squad_idx {
                None => !in_any_squad(roster(self.squads@), uid_or_empty(*st)),
                Some(k) => k < self.squads@.len() && roster(self.squads@)[k as int].members.contains(
                    uid_or_empty(*st),
                ) && forall|j: int|
                    0 <= j < k ==> !(#[trigger] roster(self.squads@)[j]).members.contains(
                        uid_or_empty(*st),
                    ),
            },
            r.i_am_leader == match r.my_squad_idx {
                Some(k) => roster(self.squads@)[k as int].leader == Some(uid_or_empty(*st)),
                None => false,
            },
            r.can_create == can_create_spec(roster(self.squads@), self.new_squad_name@),
    {
        let my_uid = match &st.user_id {
            Some(u) => u.clone(),
            None => String::new(),
        };
        let all = all_members(&st.user_id, &st.peers);
        let lobby = lobby_members(&all, &self.squads);
        let my_squad_idx = my_squad_index(&self.squads, my_uid.as_str());
        let i_am_leader = leads_squad(&self.squads, my_squad_idx, my_uid.as_str());
        let can_create = can_create_squad(&self.squads, self.new_squad_name.as_str());
        RoomOverview { my_uid, all_members: all, lobby, my_squad_idx, i_am_leader, can_create }
    }

    /// Apply the clicks of one frame of the room view, in this order: create,
    /// join, return to lobby, assign, remove, make leader, disband squad;
    /// then leaving or disbanding the room (or the room being gone) clears
    /// the squads and goes back to room setup. Returns the commands for the
    /// backend: leave the session, then disband, as clicked.
    pub fn apply_room_actions(&mut self, st: &BackendState, actions: RoomActions) -> (r: Vec<BackendCmd>)
        ensures
            roster(final(self).squads@) == if leaves_room(old(self).screen, *st, actions) {
                Seq::empty()
            } else {
                roster_after(roster(old(self).squads@), uid_or_empty(*st), actions)
            },
            final(self).screen == if leaves_room(old(self).screen, *st, actions) {
                Screen::SquadSetup
            } else {
                old(self).screen
            },
            leaves_room(old(self).screen, *st, actions) ==> final(self).my_squad is None,
            !leaves_room(old(self).screen, *st, actions) ==> final(self).my_squad == old(self).my_squad,
            (actions.leave_session || actions.disband_room) ==> final(self).room_id_input@.len() == 0,
            !(actions.leave_session || actions.disband_room) ==> final(self).room_id_input == old(self).room_id_input,
            (actions.create_squad matches Some(n) && can_create_spec(roster(old(self).squads@), n@))
                ==> final(self).new_squad_name@.len() == 0,
            !(actions.create_squad matches Some(n) && can_create_spec(roster(old(self).squads@), n@))
                ==> final(self).new_squad_name == old(self).new_squad_name,
            r@ == if actions.leave_session && actions.disband_room {
                seq![BackendCmd::LeaveSession, BackendCmd::DisbandSquad]
            } else if actions.leave_session {
                seq![BackendCmd::LeaveSession]
            } else if actions.disband_room {
                seq![BackendCmd::DisbandSquad]
            } else {
                Seq::empty()
            },
            final(self).cfg == old(self).cfg,
            final(self).homeserver_input == old(self).homeserver_input,
            final(self).username_input == old(self).username_input,
            final(self).password_input == old(self).password_input,
            final(self).ptt_key_input == old(self).ptt_key_input,
    {
        let me = match &st.user_id {
            Some(u) => u.clone(),
            None => String::new(),
        };
        let ghost r0 = roster(self.squads@);
        let ghost a = actions;
        let RoomActions {
            create_squad: create,
            join_squad: join,
            leave_squad: leave,
            assign_to_squad: assign,
            remove_from_squad: remove,
            set_leader: leader,
            disband_squad: disband,
            leave_session,
            disband_room,
        } = actions;
        match create {
            Some(name) => {
                if can_create_squad(&self.squads, name.as_str()) {
                    create_squad(&mut self.squads, trim(name.as_str()), me.as_str());
                    self.new_squad_name = String::new();
                }
            },
            None => {},
        }
        match join {
            Some(idx) => join_squad(&mut self.squads, me.as_str(), idx),
            None => {},
        }
        if leave {
            leave_squad(&mut self.squads, me.as_str());
        }
        match assign {
            Some((member, idx)) => assign_to_squad(&mut self.squads, member.as_str(), idx),
            None => {},
        }
        match remove {
            Some((idx, member)) => remove_from_squad(&mut self.squads, idx, member.as_str()),
            None => {},
        }
        match leader {
            Some((idx, member)) => set_leader(&mut self.squads, idx, member.as_str()),
            None => {},
        }
        match disband {
            Some(idx) => disband_squad(&mut self.squads, idx),
            None => {},
        }
        proof {
            assert(roster(self.squads@) == roster_after(r0, uid_or_empty(*st), a));
        }
        let mut cmds: Vec<BackendCmd> = Vec::new();
        if leave_session {
            cmds.push(BackendCmd::LeaveSession);
            self.squads = Vec::new();
            self.my_squad = None;
            self.room_id_input = String::new();
            self.screen = Screen::SquadSetup;
        }
        if disband_room {
            cmds.push(BackendCmd::DisbandSquad);
            self.squads = Vec::new();
            self.my_squad = None;
            self.room_id_input = String::new();
            self.screen = Screen::SquadSetup;
        }
        if st.room_id.is_none() && self.screen == Screen::RoomView {
            self.squads = Vec::new();
            self.my_squad = None;
            self.screen = Screen::SquadSetup;
        }
        proof {
            if leaves_room(old(self).screen, *st, a) {
                assert(roster(self.squads@) =~= Seq::<SquadView>::empty());
            }
            assert(cmds@ =~= if a.leave_session && a.disband_room {
                seq![BackendCmd::LeaveSession, BackendCmd::DisbandSquad]
            } else if a.leave_session {
                seq![BackendCmd::LeaveSession]
            } else if a.disband_room {
                seq![BackendCmd::DisbandSquad]
            } else {
                Seq::empty()
            });
        }
        cmds
    }
}

// ── Which buttons the room view offers ─────────────────────────────────────

/// Whether a lobby row for `member` offers the local leader to pull `member`
/// into the leader's squad: only for others, and only to a squad leader.
pub fn offers_assign(view: &RoomOverview, member: &str) -> (r: bool)
    ensures
        r == (member@ != view.my_uid@ && view.i_am_leader && view.my_squad_idx is Some),
{
    !str_equal(member, view.my_uid.as_str()) && view.i_am_leader && view.my_squad_idx.is_some()
}

/// Whether the squad card offers "Disband": only to the squad's leader (a
/// leaderless squad counts as led by the empty ID).
pub fn offers_disband(squad: &SquadDraft, view: &RoomOverview) -> (r: bool)
    ensures
        r == (match opt_name(squad.leader) {
            Some(l) => l,
            None => Seq::empty(),
        } == view.my_uid@),
{
    match &squad.leader {
        Some(l) => str_equal(l.as_str(), view.my_uid.as_str()),
        None => {
            proof {
                assert(view.my_uid@.len() == 0 ==> view.my_uid@ =~= Seq::<char>::empty());
            }
            view.my_uid.as_str().unicode_len() == 0
        },
    }
}

/// Whether a member row of squad `squad_idx` offers "Make Leader": only the
/// leader of that squad, and only on members other than the leader.
pub fn offers_make_leader(view: &RoomOverview, squad_idx: usize, squad: &SquadDraft, member: &str) -> (r: bool)
    ensures
        r == (view.i_am_leader && view.my_squad_idx == Some(squad_idx) && opt_name(squad.leader) != Some(member@)),
{
    let is_leader = match &squad.leader {
        Some(l) => str_equal(l.as_str(), member),
        None => false,
    };
    view.i_am_leader && view.my_squad_idx == Some(squad_idx) && !is_leader
}

/// Whether a member row of squad `squad_idx` offers "Remove": the squad's
/// leader may remove anyone from it, anyone may remove themselves.
pub fn offers_remove(view: &RoomOverview, squad_idx: usize, member: &str) -> (r: bool)
    ensures
        r == ((view.i_am_leader && view.my_squad_idx == Some(squad_idx)) || member@ == view.my_uid@),
{
    (view.i_am_leader && view.my_squad_idx == Some(squad_idx)) || str_equal(member, view.my_uid.as_str())
}

/// Whether a squad card offers "Join": only to a player in the lobby.
pub fn offers_join(view: &RoomOverview, squad: &SquadDraft) -> (r: bool)
    ensures
        r == (view.my_squad_idx is None && !names(squad.members@).contains(view.my_uid@)),
{
    view.my_squad_idx.is_none() && !crate::room::holds_name(&squad.members, view.my_uid.as_str())
}

} // verus!
