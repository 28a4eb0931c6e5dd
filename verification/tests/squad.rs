use squelch::squad::{Duo, Member, Role, Squad, SquelchError};

fn make_squad() -> Squad {
    Squad {
        members: vec![
            Member { id: "alice".into(), role: Role::Leader },
            Member { id: "bob".into(), role: Role::Member },
            Member { id: "carol".into(), role: Role::Leader },
            Member { id: "dave".into(), role: Role::Member },
        ],
        duos: vec![
            Duo { members: ["alice".into(), "bob".into()] },
            Duo { members: ["carol".into(), "dave".into()] },
        ],
    }
}

#[test]
fn leader_detection() {
    let s = make_squad();
    assert!(s.is_leader("alice"));
    assert!(s.is_leader("carol"));
    assert!(!s.is_leader("bob"));
    assert!(!s.is_leader("dave"));
}

#[test]
fn duo_partner() {
    let s = make_squad();
    assert_eq!(s.duo_partner("alice"), Some(&"bob".to_owned()));
    assert_eq!(s.duo_partner("bob"), Some(&"alice".to_owned()));
    assert_eq!(s.duo_partner("carol"), Some(&"dave".to_owned()));
}

#[test]
fn transfer_leadership() {
    let mut s = make_squad();
    assert!(s.transfer_leadership("alice", "bob"));
    assert!(!s.is_leader("alice"));
    assert!(s.is_leader("bob"));
}

#[test]
fn transfer_leadership_not_leader_fails() {
    let mut s = make_squad();
    assert!(!s.transfer_leadership("dave", "bob")); // dave is not a leader
}

#[test]
fn unknown_member_is_no_leader_and_has_no_partner() {
    let s = make_squad();
    assert!(!s.is_leader("eve"));
    assert_eq!(s.duo_partner("eve"), None);
}

#[test]
fn failed_transfer_changes_nothing() {
    let mut s = make_squad();
    assert!(!s.transfer_leadership("bob", "dave"));
    assert!(s.is_leader("alice"));
    assert!(s.is_leader("carol"));
    assert!(!s.is_leader("dave"));
    assert_eq!(s.members.len(), 4);
}

#[test]
fn transfer_to_self_keeps_leadership() {
    let mut s = make_squad();
    assert!(s.transfer_leadership("carol", "carol"));
    assert!(s.is_leader("carol"));
    assert!(s.is_leader("alice"));
}

#[test]
fn transfer_keeps_other_leaders() {
    let mut s = make_squad();
    assert!(s.transfer_leadership("alice", "dave"));
    assert!(s.is_leader("carol"));
    assert!(s.is_leader("dave"));
    assert!(!s.is_leader("alice"));
    assert_eq!(s.members[0].role, Role::Member);
}

#[test]
fn first_duo_wins_for_partner() {
    let s = Squad {
        members: vec![],
        duos: vec![
            Duo { members: ["x".into(), "y".into()] },
            Duo { members: ["z".into(), "x".into()] },
        ],
    };
    assert_eq!(s.duo_partner("x"), Some(&"y".to_owned()));
    assert_eq!(s.duo_partner("z"), Some(&"x".to_owned()));
}

#[test]
fn squelch_error_messages() {
    assert_eq!(SquelchError::Audio("mic".into()).message(), "audio error: mic");
    assert_eq!(SquelchError::Signaling("x".into()).message(), "signaling error: x");
    assert_eq!(SquelchError::WebRtc("y".into()).message(), "webrtc error: y");
    assert_eq!(SquelchError::Squad("z".into()).message(), "squad error: z");
}
