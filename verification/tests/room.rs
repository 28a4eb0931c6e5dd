use squelch::room::{
    all_members, assign_to_squad, can_create_squad, create_squad, disband_squad, is_assigned, join_squad,
    leads_squad, leave_squad, lobby_members, my_squad_index, remove_from_squad, set_leader, SquadDraft,
};

fn s(x: &str) -> String {
    x.to_string()
}

fn draft(name: &str, members: &[&str], leader: Option<&str>) -> SquadDraft {
    SquadDraft { name: s(name), members: members.iter().map(|m| s(m)).collect(), leader: leader.map(s) }
}

#[test]
fn join_moves_me_and_takes_lead_of_leaderless_squad() {
    let mut squads = vec![draft("Alpha", &["@me", "@dave"], Some("@dave")), draft("Bravo", &[], None)];
    join_squad(&mut squads, "@me", 1);
    assert_eq!(squads[0].members, vec![s("@dave")]);
    assert_eq!(squads[1].members, vec![s("@me")]);
    assert_eq!(squads[1].leader, Some(s("@me")));
    assert_eq!(my_squad_index(&squads, "@me"), Some(1));
    assert!(leads_squad(&squads, Some(1), "@me"));
}

#[test]
fn join_keeps_existing_leader() {
    let mut squads = vec![draft("Alpha", &["@eve"], Some("@eve"))];
    join_squad(&mut squads, "@me", 0);
    assert_eq!(squads[0].members, vec![s("@eve"), s("@me")]);
    assert_eq!(squads[0].leader, Some(s("@eve")));
}

#[test]
fn join_out_of_range_only_leaves() {
    let mut squads = vec![draft("Alpha", &["@me"], Some("@me"))];
    join_squad(&mut squads, "@me", 5);
    assert!(squads[0].members.is_empty());
    // leaving through a join hands the leadership on; nobody is left
    assert_eq!(squads[0].leader, None);
}

#[test]
fn leave_hands_leadership_to_next_member() {
    let mut squads = vec![
        draft("Alpha", &["@me", "@frank", "@grace"], Some("@me")),
        draft("Solo", &["@x"], Some("@x")),
    ];
    leave_squad(&mut squads, "@me");
    assert_eq!(squads[0].members, vec![s("@frank"), s("@grace")]);
    assert_eq!(squads[0].leader, Some(s("@frank")));
    assert_eq!(my_squad_index(&squads, "@me"), None);
}

#[test]
fn leave_as_only_member_clears_leader() {
    let mut squads = vec![draft("Alpha", &["@me"], Some("@me"))];
    leave_squad(&mut squads, "@me");
    assert!(squads[0].members.is_empty());
    assert_eq!(squads[0].leader, None);
}

#[test]
fn assign_moves_member_between_squads() {
    let mut squads = vec![draft("Alpha", &["@lead"], Some("@lead")), draft("Bravo", &["@bob"], Some("@bob"))];
    assign_to_squad(&mut squads, "@bob", 0);
    assert_eq!(squads[0].members, vec![s("@lead"), s("@bob")]);
    assert!(squads[1].members.is_empty());
    assert!(is_assigned(&squads, "@bob"));
}

#[test]
fn remove_leader_passes_lead_and_remove_other_keeps_it() {
    let mut squads = vec![draft("Alpha", &["@a", "@b", "@c"], Some("@a"))];
    remove_from_squad(&mut squads, 0, "@b");
    assert_eq!(squads[0].members, vec![s("@a"), s("@c")]);
    assert_eq!(squads[0].leader, Some(s("@a")));
    remove_from_squad(&mut squads, 0, "@a");
    assert_eq!(squads[0].members, vec![s("@c")]);
    assert_eq!(squads[0].leader, Some(s("@c")));
    remove_from_squad(&mut squads, 0, "@c");
    assert!(squads[0].members.is_empty());
    assert_eq!(squads[0].leader, None);
    remove_from_squad(&mut squads, 3, "@c");
    assert_eq!(squads.len(), 1);
}

#[test]
fn set_leader_and_disband() {
    let mut squads = vec![draft("Alpha", &["@a", "@b"], Some("@a")), draft("Bravo", &[], None)];
    set_leader(&mut squads, 0, "@b");
    assert_eq!(squads[0].leader, Some(s("@b")));
    disband_squad(&mut squads, 0);
    assert_eq!(squads.len(), 1);
    assert_eq!(squads[0].name, "Bravo");
    disband_squad(&mut squads, 9);
    assert_eq!(squads.len(), 1);
    assert!(!is_assigned(&squads, "@a"));
}

#[test]
fn create_squad_makes_creator_leader() {
    let mut squads = vec![];
    create_squad(&mut squads, s("Alpha"), "@me");
    assert_eq!(squads.len(), 1);
    assert_eq!(squads[0].name, "Alpha");
    assert_eq!(squads[0].members, vec![s("@me")]);
    assert_eq!(squads[0].leader, Some(s("@me")));
}

#[test]
fn create_squad_moves_creator_out_of_old_squad() {
    let mut squads = vec![draft("Alpha", &["@me", "@bob"], Some("@me"))];
    create_squad(&mut squads, s("Bravo"), "@me");
    assert_eq!(squads[0].members, vec![s("@bob")]);
    assert_eq!(squads[0].leader, Some(s("@bob")));
    assert_eq!(squads[1].members, vec![s("@me")]);
    assert_eq!(squads[1].leader, Some(s("@me")));
    assert_eq!(my_squad_index(&squads, "@me"), Some(1));
}

#[test]
fn members_and_lobby() {
    let peers = vec![s("@bob"), s("@me"), s("@carol"), s("@bob")];
    let all = all_members(&Some(s("@me")), &peers);
    assert_eq!(all, vec![s("@me"), s("@bob"), s("@carol")]);
    let squads = vec![draft("Alpha", &["@bob"], Some("@bob"))];
    let lobby = lobby_members(&all, &squads);
    assert_eq!(lobby, vec![s("@me"), s("@carol")]);
    let nobody = all_members(&None, &vec![]);
    assert!(nobody.is_empty());
}

#[test]
fn squad_names_must_be_new_and_non_blank() {
    let squads = vec![draft("Alpha", &[], None)];
    assert!(!can_create_squad(&squads, "   "));
    assert!(!can_create_squad(&squads, "  Alpha "));
    assert!(can_create_squad(&squads, " Bravo\t"));
}

#[test]
fn leader_query_needs_a_squad() {
    let squads = vec![draft("Alpha", &["@me"], Some("@me"))];
    assert!(!leads_squad(&squads, None, "@me"));
    assert!(!leads_squad(&squads, Some(3), "@me"));
    assert!(!leads_squad(&squads, Some(0), "@other"));
}

#[test]
fn joining_another_squad_hands_over_leadership() {
    let mut squads = vec![draft("Alpha", &["@me", "@bob"], Some("@me")), draft("Bravo", &["@x"], Some("@x"))];
    join_squad(&mut squads, "@me", 1);
    assert_eq!(squads[0].members, vec![s("@bob")]);
    assert_eq!(squads[0].leader, Some(s("@bob")));
    assert_eq!(squads[1].members, vec![s("@x"), s("@me")]);
    assert_eq!(squads[1].leader, Some(s("@x")));
}

#[test]
fn assigning_a_leader_elsewhere_hands_over_leadership() {
    let mut squads = vec![draft("Alpha", &["@lead"], Some("@lead")), draft("Bravo", &["@bob", "@c"], Some("@bob"))];
    assign_to_squad(&mut squads, "@bob", 0);
    assert_eq!(squads[1].members, vec![s("@c")]);
    assert_eq!(squads[1].leader, Some(s("@c")));
    assert_eq!(squads[0].leader, Some(s("@lead")));
}
