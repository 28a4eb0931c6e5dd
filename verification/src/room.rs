//! The room's squad roster (lobby-first model): named squads drafted inside
//! one room, who is in which squad, who leads it, and who is left in the lobby.
use vstd::prelude::*;

use crate::text::{names, opt_name, str_equal, trim, trimmed};

verus! {

/// A squad as drafted in the room view: a name, its members (Matrix user
/// IDs) and its leader, if any.
#[derive(Debug, Clone)]
pub struct SquadDraft {
    pub name: String,
    pub members: Vec<String>,
    pub leader: Option<String>,
}

/// The mathematical value of a [`SquadDraft`].
pub struct SquadView {
    pub name: Seq<char>,
    pub members: Seq<Seq<char>>,
    pub leader: Option<Seq<char>>,
}

impl View for SquadDraft {
    type V = SquadView;

    open spec fn view(&self) -> SquadView {
        SquadView { name: self.name@, members: names(self.members@), leader: opt_name(self.leader) }
    }
}

/// The views of all squads, in order.
pub open spec fn roster(s: Seq<SquadDraft>) -> Seq<SquadView> {
    s.map_values(|d: SquadDraft| d@)
}

/// `ns` with every occurrence of `x` removed, order kept.
pub open spec fn without(ns: Seq<Seq<char>>, x: Seq<char>) -> Seq<Seq<char>>
    decreases ns.len(),
{
    if ns.len() == 0 {
        ns
    } else {
        let r = without(ns.drop_last(), x);
        if ns.last() == x {
            r
        } else {
            r.push(ns.last())
        }
    }
}

/// The first entry of `ns` that differs from `x`.
pub open spec fn first_other(ns: Seq<Seq<char>>, x: Seq<char>) -> Option<Seq<char>>
    decreases ns.len(),
{
    if ns.len() == 0 {
        None
    } else if ns[0] != x {
        Some(ns[0])
    } else {
        first_other(ns.drop_first(), x)
    }
}

/// Whether `x` is a member of some squad.
pub open spec fn in_any_squad(r: Seq<SquadView>, x: Seq<char>) -> bool {
    exists|k: int| 0 <= k < r.len() && (#[trigger] r[k]).members.contains(x)
}

/// Well-formed roster: nobody is listed twice in a squad, and nobody is in
/// two squads.
pub open spec fn roster_wf(r: Seq<SquadView>) -> bool {
    &&& forall|k: int| 0 <= k < r.len() ==> (#[trigger] r[k]).members.no_duplicates()
    &&& forall|k1: int, k2: int, x: Seq<char>|
        0 <= k1 < r.len() && 0 <= k2 < r.len() && k1 != k2 && #[trigger] r[k1].members.contains(x)
            ==> !#[trigger] r[k2].members.contains(x)
}

/// The roster after `me` creates a squad named `name`: `me` first returns to
/// the lobby, then the new squad is added with `me` as its only member and
/// its leader.
pub open spec fn create_spec(r: Seq<SquadView>, name: Seq<char>, me: Seq<char>) -> Seq<SquadView> {
    leave_spec(r, me).push(SquadView { name, members: seq![me], leader: Some(me) })
}

/// The leader of a squad with members `ms` and leader `l` once `x` leaves
/// it: if `x` led it, its first other member, or nobody when none is left.
pub open spec fn handed_over(l: Option<Seq<char>>, ms: Seq<Seq<char>>, x: Seq<char>) -> Option<Seq<char>> {
    if l == Some(x) {
        first_other(ms, x)
    } else {
        l
    }
}

/// Every squad's leader, if it has one, is one of its members.
pub open spec fn leaders_are_members(r: Seq<SquadView>) -> bool {
    forall|k: int| 0 <= k < r.len() ==> ((#[trigger] r[k]).leader matches Some(l) ==> r[k].members.contains(l))
}

/// The roster after `me` joins squad `idx`: `me` is first removed from every
/// squad (handing on the leadership of any other squad `me` led), then
/// appended to squad `idx` (when it exists), which `me` leads if it had no
/// leader.
pub open spec fn join_spec(r: Seq<SquadView>, me: Seq<char>, idx: int) -> Seq<SquadView> {
    Seq::new(
        r.len(),
        |k: int|
            if k == idx {
                SquadView {
                    name: r[k].name,
                    members: without(r[k].members, me).push(me),
                    leader: if r[k].leader is None {
                        Some(me)
                    } else {
                        r[k].leader
                    },
                }
            } else {
                SquadView {
                    name: r[k].name,
                    members: without(r[k].members, me),
                    leader: handed_over(r[k].leader, r[k].members, me),
                }
            },
    )
}

/// The roster after `me` returns to the lobby: `me` leaves every squad; where
/// `me` led a squad, its first other member leads, and nobody leads a squad
/// that `me` leaves empty.
pub open spec fn leave_spec(r: Seq<SquadView>, me: Seq<char>) -> Seq<SquadView> {
    Seq::new(
        r.len(),
        |k: int|
            SquadView {
                name: r[k].name,
                members: without(r[k].members, me),
                leader: if r[k].leader == Some(me) {
                    first_other(r[k].members, me)
                } else {
                    r[k].leader
                },
            },
    )
}

/// The roster after a leader assigns `m` to squad `idx`: `m` leaves every
/// squad (handing on the leadership of any other squad `m` led) and is
/// appended to squad `idx` (when it exists).
pub open spec fn assign_spec(r: Seq<SquadView>, m: Seq<char>, idx: int) -> Seq<SquadView> {
    Seq::new(
        r.len(),
        |k: int|
            SquadView {
                name: r[k].name,
                members: if k == idx && !without(r[k].members, m).contains(m) {
                    without(r[k].members, m).push(m)
                } else {
                    without(r[k].members, m)
                },
                leader: if k == idx {
                    r[k].leader
                } else {
                    handed_over(r[k].leader, r[k].members, m)
                },
            },
    )
}

/// The roster after `m` is removed from squad `idx`; if `m` led it, the first
/// other member leads.
pub open spec fn remove_spec(r: Seq<SquadView>, idx: int, m: Seq<char>) -> Seq<SquadView> {
    Seq::new(
        r.len(),
        |k: int|
            if k == idx {
                SquadView {
                    name: r[k].name,
                    members: without(r[k].members, m),
                    leader: if r[k].leader == Some(m) {
                        first_other(r[k].members, m)
                    } else {
                        r[k].leader
                    },
                }
            } else {
                r[k]
            },
    )
}

/// The roster after `m` is made leader of squad `idx`.
pub open spec fn set_leader_spec(r: Seq<SquadView>, idx: int, m: Seq<char>) -> Seq<SquadView> {
    Seq::new(
        r.len(),
        |k: int|
            if k == idx {
                SquadView { name: r[k].name, members: r[k].members, leader: Some(m) }
            } else {
                r[k]
            },
    )
}

/// The roster after squad `idx` is disbanded (when it exists).
pub open spec fn disband_spec(r: Seq<SquadView>, idx: int) -> Seq<SquadView> {
    if 0 <= idx < r.len() {
        r.remove(idx)
    } else {
        r
    }
}

/// `base` extended by each of `peers` in turn that it does not yet hold.
pub open spec fn collect_members(base: Seq<Seq<char>>, peers: Seq<Seq<char>>) -> Seq<Seq<char>>
    decreases peers.len(),
{
    if peers.len() == 0 {
        base
    } else {
        let r = collect_members(base, peers.drop_last());
        if r.contains(peers.last()) {
            r
        } else {
            r.push(peers.last())
        }
    }
}

/// The entries of `all` that are in no squad, order kept.
pub open spec fn unassigned(all: Seq<Seq<char>>, r: Seq<SquadView>) -> Seq<Seq<char>>
    decreases all.len(),
{
    if all.len() == 0 {
        all
    } else {
        let u = unassigned(all.drop_last(), r);
        if in_any_squad(r, all.last()) {
            u
        } else {
            u.push(all.last())
        }
    }
}

/// Whether a new squad may be created under the name typed as `typed`: its
/// trimmed text is not empty and no squad already has that name.
pub open spec fn can_create_spec(r: Seq<SquadView>, typed: Seq<char>) -> bool {
    trimmed(typed).len() > 0 && !(exists|k: int| 0 <= k < r.len() && (#[trigger] r[k]).name == trimmed(typed))
}

// ── Lemmas ─────────────────────────────────────────────────────────────────

pub proof fn lemma_without_contains(ns: Seq<Seq<char>>, x: Seq<char>, y: Seq<char>)
    ensures
        without(ns, x).contains(y) <==> (ns.contains(y) && y != x),
    decreases ns.len(),
{
    if ns.len() > 0 {
        let p = ns.drop_last();
        lemma_without_contains(p, x, y);
        let r = without(p, x);
        if ns.contains(y) && y != x {
            let i = choose|i: int| 0 <= i < ns.len() && ns[i] == y;
            if i < ns.len() - 1 {
                assert(p[i] == y);
                assert(p.contains(y));
                let j = choose|j: int| 0 <= j < r.len() && r[j] == y;
                if ns.last() != x {
                    assert(r.push(ns.last())[j] == y);
                }
            } else {
                assert(r.push(ns.last())[r.len() as int] == y);
            }
        }
        if without(ns, x).contains(y) {
            if ns.last() != x && y == ns.last() {
                assert(ns[ns.len() - 1] == y);
            } else {
                let w = without(ns, x);
                let j = choose|j: int| 0 <= j < w.len() && w[j] == y;
                if ns.last() != x {
                    if j < r.len() {
                        assert(r[j] == y);
                    }
                } else {
                    assert(r[j] == y);
                }
                let i = choose|i: int| 0 <= i < p.len() && p[i] == y;
                assert(ns[i] == y);
            }
        }
    }
}

pub proof fn lemma_without_no_dup(ns: Seq<Seq<char>>, x: Seq<char>)
    requires
        ns.no_duplicates(),
    ensures
        without(ns, x).no_duplicates(),
    decreases ns.len(),
{
    if ns.len() > 0 {
        let p = ns.drop_last();
        assert(p.no_duplicates());
        lemma_without_no_dup(p, x);
        let r = without(p, x);
        if ns.last() != x {
            lemma_without_contains(p, x, ns.last());
            if p.contains(ns.last()) {
                let i = choose|i: int| 0 <= i < p.len() && p[i] == ns.last();
                assert(ns[i] == ns[ns.len() - 1]);
            }
            let w = r.push(ns.last());
            assert forall|i: int, j: int| 0 <= i < w.len() && 0 <= j < w.len() && i != j implies w[i] != w[j] by {
                if i < r.len() && j < r.len() {
                } else if i == r.len() {
                    assert(r.contains(r[j]) ==> r[j] != ns.last());
                    assert(r.contains(r[j]));
                } else {
                    assert(r.contains(r[i]));
                }
            }
        }
    }
}

proof fn lemma_first_other_skip(ns: Seq<Seq<char>>, x: Seq<char>, i: int)
    requires
        0 <= i <= ns.len(),
        forall|j: int| 0 <= j < i ==> #[trigger] ns[j] == x,
    ensures
        first_other(ns, x) == first_other(ns.subrange(i, ns.len() as int), x),
    decreases i,
{
    if i == 0 {
        assert(ns.subrange(0, ns.len() as int) =~= ns);
    } else {
        let t = ns.drop_first();
        assert forall|j: int| 0 <= j < i - 1 implies #[trigger] t[j] == x by {
            assert(t[j] == ns[j + 1]);
        }
        lemma_first_other_skip(t, x, i - 1);
        assert(t.subrange(i - 1, t.len() as int) =~= ns.subrange(i, ns.len() as int));
        assert(ns[0] == x);
    }
}

proof fn lemma_first_other_member(ns: Seq<Seq<char>>, x: Seq<char>)
    ensures
        first_other(ns, x) matches Some(y) ==> ns.contains(y) && y != x,
    decreases ns.len(),
{
    if ns.len() > 0 {
        if ns[0] != x {
            assert(ns[0] == ns[0]);
        } else {
            let t = ns.drop_first();
            lemma_first_other_member(t, x);
            if let Some(y) = first_other(t, x) {
                let i = choose|i: int| 0 <= i < t.len() && t[i] == y;
                assert(ns[i + 1] == y);
            }
        }
    }
}

proof fn lemma_collect_contains(base: Seq<Seq<char>>, peers: Seq<Seq<char>>, y: Seq<char>)
    ensures
        collect_members(base, peers).contains(y) <==> (base.contains(y) || peers.contains(y)),
    decreases peers.len(),
{
    if peers.len() > 0 {
        let p = peers.drop_last();
        lemma_collect_contains(base, p, y);
        let r = collect_members(base, p);
        if peers.contains(y) && !p.contains(y) {
            let i = choose|i: int| 0 <= i < peers.len() && peers[i] == y;
            if i < peers.len() - 1 {
                assert(p[i] == y);
            }
            if !r.contains(peers.last()) {
                assert(r.push(peers.last())[r.len() as int] == y);
            }
        }
        if p.contains(y) {
            let i = choose|i: int| 0 <= i < p.len() && p[i] == y;
            assert(peers[i] == y);
        }
        if r.contains(y) && !r.contains(peers.last()) {
            let j = choose|j: int| 0 <= j < r.len() && r[j] == y;
            assert(r.push(peers.last())[j] == y);
        }
        if collect_members(base, peers).contains(y) && !r.contains(peers.last()) {
            let w = r.push(peers.last());
            let j = choose|j: int| 0 <= j < w.len() && w[j] == y;
            if j < r.len() {
                assert(r[j] == y);
            } else {
                assert(peers[peers.len() - 1] == y);
            }
        }
    }
}

proof fn lemma_unassigned_contains(all: Seq<Seq<char>>, r: Seq<SquadView>, y: Seq<char>)
    ensures
        unassigned(all, r).contains(y) <==> (all.contains(y) && !in_any_squad(r, y)),
    decreases all.len(),
{
    if all.len() > 0 {
        let p = all.drop_last();
        lemma_unassigned_contains(p, r, y);
        let u = unassigned(p, r);
        if all.contains(y) && !in_any_squad(r, y) {
            let i = choose|i: int| 0 <= i < all.len() && all[i] == y;
            if i < all.len() - 1 {
                assert(p[i] == y);
                let j = choose|j: int| 0 <= j < u.len() && u[j] == y;
                if !in_any_squad(r, all.last()) {
                    assert(u.push(all.last())[j] == y);
                }
            } else {
                assert(u.push(all.last())[u.len() as int] == y);
            }
        }
        if unassigned(all, r).contains(y) {
            let w = unassigned(all, r);
            let j = choose|j: int| 0 <= j < w.len() && w[j] == y;
            if !in_any_squad(r, all.last()) && j == u.len() {
                assert(all[all.len() - 1] == y);
            } else {
                assert(u[j] == y);
                let i = choose|i: int| 0 <= i < p.len() && p[i] == y;
                assert(all[i] == y);
            }
        }
    }
}

/// Squad names are usable: each is non-empty and has no surrounding white
/// space, and no two squads share a name.
pub open spec fn names_ok(r: Seq<SquadView>) -> bool {
    &&& forall|k: int| 0 <= k < r.len() ==> (#[trigger] r[k]).name.len() > 0 && trimmed(r[k].name) == r[k].name
    &&& forall|k1: int, k2: int| 0 <= k1 < r.len() && 0 <= k2 < r.len() && k1 != k2 ==> #[trigger] r[k1].name != #[trigger] r[k2].name
}

/// A roster whose squads each keep some of their members, none twice, is
/// still well formed.
proof fn lemma_wf_shrink(r: Seq<SquadView>, s: Seq<SquadView>)
    requires
        roster_wf(r),
        s.len() == r.len(),
        forall|k: int| 0 <= k < s.len() ==> (#[trigger] s[k]).members.no_duplicates(),
        forall|k: int, x: Seq<char>| 0 <= k < s.len() && #[trigger] s[k].members.contains(x) ==> r[k].members.contains(x),
    ensures
        roster_wf(s),
{
    assert forall|k1: int, k2: int, x: Seq<char>|
        0 <= k1 < s.len() && 0 <= k2 < s.len() && k1 != k2 && #[trigger] s[k1].members.contains(x)
            implies !#[trigger] s[k2].members.contains(x) by {
        assert(r[k1].members.contains(x));
        if s[k2].members.contains(x) {
            assert(r[k2].members.contains(x));
        }
    }
}

/// Removing `x` from every squad's members (leaders aside) keeps the roster
/// well formed.
proof fn lemma_without_all_wf(r: Seq<SquadView>, s: Seq<SquadView>, x: Seq<char>)
    requires
        roster_wf(r),
        s.len() == r.len(),
        forall|k: int| 0 <= k < s.len() ==> (#[trigger] s[k]).members == without(r[k].members, x),
    ensures
        roster_wf(s),
{
    assert forall|k: int| 0 <= k < s.len() implies (#[trigger] s[k]).members.no_duplicates() by {
        lemma_without_no_dup(r[k].members, x);
    }
    assert forall|k: int, y: Seq<char>| 0 <= k < s.len() && #[trigger] s[k].members.contains(y) implies r[k].members.contains(y) by {
        lemma_without_contains(r[k].members, x, y);
    }
    lemma_wf_shrink(r, s);
}

/// Joining keeps the roster well formed, whatever the index.
pub proof fn lemma_join_wf(r: Seq<SquadView>, me: Seq<char>, idx: int)
    requires
        roster_wf(r),
    ensures
        roster_wf(join_spec(r, me, idx)),
{
    if 0 <= idx < r.len() {
        law_join_places_member(r, me, idx);
    } else {
        lemma_without_all_wf(r, join_spec(r, me, idx), me);
    }
}

/// Assigning keeps the roster well formed, whatever the index.
pub proof fn lemma_assign_wf(r: Seq<SquadView>, m: Seq<char>, idx: int)
    requires
        roster_wf(r),
    ensures
        roster_wf(assign_spec(r, m, idx)),
{
    if 0 <= idx < r.len() {
        law_assign_places_member(r, m, idx);
    } else {
        lemma_without_all_wf(r, assign_spec(r, m, idx), m);
    }
}

/// Removing a member keeps the roster well formed, whatever the index.
pub proof fn lemma_remove_wf(r: Seq<SquadView>, idx: int, m: Seq<char>)
    requires
        roster_wf(r),
    ensures
        roster_wf(remove_spec(r, idx, m)),
{
    let s = remove_spec(r, idx, m);
    assert forall|k: int| 0 <= k < s.len() implies (#[trigger] s[k]).members.no_duplicates() by {
        if k == idx {
            lemma_without_no_dup(r[k].members, m);
        }
    }
    assert forall|k: int, y: Seq<char>| 0 <= k < s.len() && #[trigger] s[k].members.contains(y) implies r[k].members.contains(y) by {
        if k == idx {
            lemma_without_contains(r[k].members, m, y);
        }
    }
    lemma_wf_shrink(r, s);
}

/// Disbanding keeps the roster well formed, whatever the index.
pub proof fn lemma_disband_wf(r: Seq<SquadView>, idx: int)
    requires
        roster_wf(r),
    ensures
        roster_wf(disband_spec(r, idx)),
{
    if 0 <= idx < r.len() {
        law_disband_returns_members(r, idx);
    }
}

/// A roster whose squads keep their names, in order, keeps usable names.
pub proof fn lemma_names_kept(r: Seq<SquadView>, s: Seq<SquadView>)
    requires
        names_ok(r),
        s.len() == r.len(),
        forall|k: int| 0 <= k < s.len() ==> (#[trigger] s[k]).name == r[k].name,
    ensures
        names_ok(s),
{
    assert forall|k1: int, k2: int| 0 <= k1 < s.len() && 0 <= k2 < s.len() && k1 != k2 implies
        #[trigger] s[k1].name != #[trigger] s[k2].name by {
        assert(r[k1].name != r[k2].name);
    }
}

/// Creating a squad under the trimmed form of a name that "+ Create Squad"
/// accepts keeps the names usable.
pub proof fn lemma_create_names(r: Seq<SquadView>, typed: Seq<char>, me: Seq<char>)
    requires
        names_ok(r),
        can_create_spec(r, typed),
    ensures
        names_ok(create_spec(r, trimmed(typed), me)),
{
    let name = trimmed(typed);
    crate::text::lemma_trimmed_idempotent(typed);
    let l = leave_spec(r, me);
    lemma_names_kept(r, l);
    let s = create_spec(r, name, me);
    assert(s[r.len() as int].name == name);
    assert forall|k: int| 0 <= k < s.len() implies (#[trigger] s[k]).name.len() > 0 && trimmed(s[k].name) == s[k].name by {
        if k < r.len() {
            assert(s[k] == l[k]);
        }
    }
    assert forall|k1: int, k2: int| 0 <= k1 < s.len() && 0 <= k2 < s.len() && k1 != k2 implies
        #[trigger] s[k1].name != #[trigger] s[k2].name by {
        if k1 < r.len() && k2 < r.len() {
            assert(s[k1] == l[k1]);
            assert(s[k2] == l[k2]);
        } else if k1 == r.len() {
            assert(s[k2] == l[k2]);
            assert(r[k2].name != name);
        } else {
            assert(s[k1] == l[k1]);
            assert(r[k1].name != name);
        }
    }
}

/// Disbanding a squad keeps the names usable.
pub proof fn lemma_disband_names(r: Seq<SquadView>, idx: int)
    requires
        names_ok(r),
    ensures
        names_ok(disband_spec(r, idx)),
{
    if 0 <= idx < r.len() {
        let s = disband_spec(r, idx);
        assert forall|k: int| 0 <= k < s.len() implies (#[trigger] s[k]) == r[if k < idx { k } else { k + 1 }] by {}
        assert forall|k1: int, k2: int| 0 <= k1 < s.len() && 0 <= k2 < s.len() && k1 != k2 implies
            #[trigger] s[k1].name != #[trigger] s[k2].name by {
            let a = if k1 < idx { k1 } else { k1 + 1 };
            let b = if k2 < idx { k2 } else { k2 + 1 };
            assert(s[k1] == r[a]);
            assert(s[k2] == r[b]);
        }
    }
}

// ── Laws ───────────────────────────────────────────────────────────────────

/// Creating a squad keeps the roster well formed; the creator is then the
/// only member and the leader of the new squad, and a member of no other.
pub proof fn law_create_keeps_wf(r: Seq<SquadView>, name: Seq<char>, me: Seq<char>)
    requires
        roster_wf(r),
    ensures
        roster_wf(create_spec(r, name, me)),
        create_spec(r, name, me).last().members == seq![me],
        create_spec(r, name, me).last().leader == Some(me),
        forall|k: int| 0 <= k < r.len() ==> !(#[trigger] create_spec(r, name, me)[k]).members.contains(me),
{
    law_leave_returns_to_lobby(r, me);
    let l = leave_spec(r, me);
    let s = create_spec(r, name, me);
    let n = SquadView { name, members: seq![me], leader: Some(me) };
    assert(s[r.len() as int] == n);
    assert forall|k: int| 0 <= k < r.len() implies !(#[trigger] s[k]).members.contains(me) by {
        assert(s[k] == l[k]);
        if l[k].members.contains(me) {
            assert(in_any_squad(l, me));
        }
    }
    assert forall|k: int| 0 <= k < s.len() implies (#[trigger] s[k]).members.no_duplicates() by {
        if k < r.len() {
            assert(s[k] == l[k]);
        }
    }
    assert forall|k1: int, k2: int, x: Seq<char>|
        0 <= k1 < s.len() && 0 <= k2 < s.len() && k1 != k2 && #[trigger] s[k1].members.contains(x)
            implies !#[trigger] s[k2].members.contains(x) by {
        if k1 < r.len() && k2 < r.len() {
            assert(s[k1] == l[k1]);
            assert(s[k2] == l[k2]);
        } else if k1 == r.len() {
            assert(x == me);
            assert(s[k2] == l[k2]);
        } else {
            assert(s[k1] == l[k1]);
            if s[k2].members.contains(x) {
                assert(x == me);
            }
        }
    }
}

/// Joining squad `idx` keeps the roster well formed and leaves the joiner a
/// member of squad `idx` and of no other squad; that squad then has a leader.
pub proof fn law_join_places_member(r: Seq<SquadView>, me: Seq<char>, idx: int)
    requires
        roster_wf(r),
        0 <= idx < r.len(),
    ensures
        roster_wf(join_spec(r, me, idx)),
        forall|k: int|
            0 <= k < r.len() ==> ((#[trigger] join_spec(r, me, idx)[k]).members.contains(me) <==> k == idx),
        join_spec(r, me, idx)[idx].leader is Some,
{
    let s = join_spec(r, me, idx);
    assert forall|k: int| 0 <= k < s.len() implies (#[trigger] s[k]).members.no_duplicates() by {
        lemma_without_no_dup(r[k].members, me);
        let w = without(r[k].members, me);
        if k == idx {
            lemma_without_contains(r[k].members, me, me);
            let v = w.push(me);
            assert forall|i: int, j: int| 0 <= i < v.len() && 0 <= j < v.len() && i != j implies v[i] != v[j] by {
                if i == w.len() {
                    assert(w.contains(w[j]));
                } else if j == w.len() {
                    assert(w.contains(w[i]));
                }
            }
        }
    }
    assert forall|k: int| 0 <= k < r.len() implies ((#[trigger] s[k]).members.contains(me) <==> k == idx) by {
        lemma_without_contains(r[k].members, me, me);
        if k == idx {
            assert(s[k].members[s[k].members.len() - 1] == me);
        } else {
        }
    }
    assert forall|k1: int, k2: int, x: Seq<char>|
        0 <= k1 < s.len() && 0 <= k2 < s.len() && k1 != k2 && #[trigger] s[k1].members.contains(x)
            implies !#[trigger] s[k2].members.contains(x) by {
        lemma_without_contains(r[k1].members, me, x);
        lemma_without_contains(r[k2].members, me, x);
        if x == me {
        } else {
            if k1 == idx {
                let w = without(r[k1].members, me);
                let j = choose|j: int| 0 <= j < s[k1].members.len() && s[k1].members[j] == x;
                assert(j < w.len());
                assert(w[j] == x);
            }
            if k2 == idx && s[k2].members.contains(x) {
                let w = without(r[k2].members, me);
                let j = choose|j: int| 0 <= j < s[k2].members.len() && s[k2].members[j] == x;
                assert(j < w.len());
                assert(w[j] == x);
            }
        }
    }
}

/// The first player to join a squad without a leader becomes its leader.
pub proof fn law_first_joiner_leads(r: Seq<SquadView>, me: Seq<char>, idx: int)
    requires
        0 <= idx < r.len(),
        r[idx].leader is None,
    ensures
        join_spec(r, me, idx)[idx].leader == Some(me),
{
}

/// Returning to the lobby keeps the roster well formed, leaves the player in
/// no squad, and keeps every other member where they were.
pub proof fn law_leave_returns_to_lobby(r: Seq<SquadView>, me: Seq<char>)
    requires
        roster_wf(r),
    ensures
        roster_wf(leave_spec(r, me)),
        !in_any_squad(leave_spec(r, me), me),
        forall|x: Seq<char>| x != me ==> (in_any_squad(leave_spec(r, me), x) <==> in_any_squad(r, x)),
{
    let s = leave_spec(r, me);
    assert forall|k: int| 0 <= k < s.len() implies (#[trigger] s[k]).members.no_duplicates() by {
        lemma_without_no_dup(r[k].members, me);
    }
    assert forall|k1: int, k2: int, x: Seq<char>|
        0 <= k1 < s.len() && 0 <= k2 < s.len() && k1 != k2 && #[trigger] s[k1].members.contains(x)
            implies !#[trigger] s[k2].members.contains(x) by {
        lemma_without_contains(r[k1].members, me, x);
        lemma_without_contains(r[k2].members, me, x);
    }
    assert forall|k: int| 0 <= k < s.len() implies !(#[trigger] s[k]).members.contains(me) by {
        lemma_without_contains(r[k].members, me, me);
    }
    assert forall|x: Seq<char>| x != me implies (in_any_squad(s, x) <==> in_any_squad(r, x)) by {
        if in_any_squad(s, x) {
            let k = choose|k: int| 0 <= k < s.len() && (#[trigger] s[k]).members.contains(x);
            lemma_without_contains(r[k].members, me, x);
            assert(r[k].members.contains(x));
        }
        if in_any_squad(r, x) {
            let k = choose|k: int| 0 <= k < r.len() && (#[trigger] r[k]).members.contains(x);
            lemma_without_contains(r[k].members, me, x);
            assert(s[k].members.contains(x));
        }
    }
}

/// When the leader of a squad returns to the lobby, the leadership passes to
/// another member of that squad, or, when none is left, to nobody: a squad
/// is never led by a non-member.
pub proof fn law_leave_hands_over_leadership(r: Seq<SquadView>, me: Seq<char>, k: int)
    requires
        0 <= k < r.len(),
        r[k].leader == Some(me),
    ensures
        leave_spec(r, me)[k].leader matches Some(l) ==> l != me && leave_spec(r, me)[k].members.contains(l),
        (leave_spec(r, me)[k].leader is Some) <==> leave_spec(r, me)[k].members.len() > 0,
{
    let ns = r[k].members;
    let w = without(ns, me);
    lemma_first_other_member(ns, me);
    if let Some(l) = first_other(ns, me) {
        lemma_without_contains(ns, me, l);
    }
    if w.len() > 0 {
        let y = w[0];
        assert(w.contains(y));
        lemma_without_contains(ns, me, y);
        let j = choose|j: int| 0 <= j < ns.len() && ns[j] == y;
        lemma_first_other_some(ns, me, j);
    }
}

proof fn lemma_first_other_some(ns: Seq<Seq<char>>, x: Seq<char>, j: int)
    requires
        0 <= j < ns.len(),
        ns[j] != x,
    ensures
        first_other(ns, x) is Some,
    decreases j,
{
    if ns[0] == x {
        let t = ns.drop_first();
        assert(t[j - 1] == ns[j]);
        lemma_first_other_some(t, x, j - 1);
    }
}

/// A leader assigning `m` to squad `idx` keeps the roster well formed and
/// leaves `m` a member of squad `idx` and of no other squad.
pub proof fn law_assign_places_member(r: Seq<SquadView>, m: Seq<char>, idx: int)
    requires
        roster_wf(r),
        0 <= idx < r.len(),
    ensures
        roster_wf(assign_spec(r, m, idx)),
        forall|k: int| 0 <= k < r.len() ==> ((#[trigger] assign_spec(r, m, idx)[k]).members.contains(m) <==> k == idx),
{
    let s = assign_spec(r, m, idx);
    let j = join_spec(r, m, idx);
    law_join_places_member(r, m, idx);
    assert forall|k: int| 0 <= k < r.len() implies (#[trigger] s[k]).members == j[k].members by {
        lemma_without_contains(r[k].members, m, m);
    }
    assert forall|k: int| 0 <= k < s.len() implies (#[trigger] s[k]).members.no_duplicates() by {
        assert(s[k].members == j[k].members);
    }
    assert forall|k1: int, k2: int, x: Seq<char>|
        0 <= k1 < s.len() && 0 <= k2 < s.len() && k1 != k2 && #[trigger] s[k1].members.contains(x)
            implies !#[trigger] s[k2].members.contains(x) by {
        assert(s[k1].members == j[k1].members);
        assert(s[k2].members == j[k2].members);
    }
    assert forall|k: int| 0 <= k < r.len() implies ((#[trigger] s[k]).members.contains(m) <==> k == idx) by {
        assert(s[k].members == j[k].members);
    }
}

/// Removing `m` from squad `idx` keeps the roster well formed and leaves `m`
/// in no squad; nobody else changes squad.
pub proof fn law_remove_returns_to_lobby(r: Seq<SquadView>, idx: int, m: Seq<char>)
    requires
        roster_wf(r),
        0 <= idx < r.len(),
        r[idx].members.contains(m),
    ensures
        roster_wf(remove_spec(r, idx, m)),
        !in_any_squad(remove_spec(r, idx, m), m),
        forall|x: Seq<char>| x != m ==> (in_any_squad(remove_spec(r, idx, m), x) <==> in_any_squad(r, x)),
{
    let s = remove_spec(r, idx, m);
    assert forall|k: int| 0 <= k < s.len() implies (#[trigger] s[k]).members.no_duplicates() by {
        lemma_without_no_dup(r[k].members, m);
    }
    assert forall|k1: int, k2: int, x: Seq<char>|
        0 <= k1 < s.len() && 0 <= k2 < s.len() && k1 != k2 && #[trigger] s[k1].members.contains(x)
            implies !#[trigger] s[k2].members.contains(x) by {
        lemma_without_contains(r[k1].members, m, x);
        lemma_without_contains(r[k2].members, m, x);
    }
    assert forall|k: int| 0 <= k < s.len() implies !(#[trigger] s[k]).members.contains(m) by {
        lemma_without_contains(r[k].members, m, m);
        if k != idx {
            assert(r[idx].members.contains(m));
        }
    }
    assert forall|x: Seq<char>| x != m implies (in_any_squad(s, x) <==> in_any_squad(r, x)) by {
        if in_any_squad(s, x) {
            let k = choose|k: int| 0 <= k < s.len() && (#[trigger] s[k]).members.contains(x);
            lemma_without_contains(r[k].members, m, x);
            assert(r[k].members.contains(x));
        }
        if in_any_squad(r, x) {
            let k = choose|k: int| 0 <= k < r.len() && (#[trigger] r[k]).members.contains(x);
            lemma_without_contains(r[k].members, m, x);
            assert(s[k].members.contains(x));
        }
    }
}

/// Naming a leader changes no squad's membership.
pub proof fn law_set_leader_keeps_members(r: Seq<SquadView>, idx: int, m: Seq<char>)
    requires
        roster_wf(r),
    ensures
        roster_wf(set_leader_spec(r, idx, m)),
        forall|k: int| 0 <= k < r.len() ==> (#[trigger] set_leader_spec(r, idx, m)[k]).members == r[k].members,
        0 <= idx < r.len() ==> set_leader_spec(r, idx, m)[idx].leader == Some(m),
{
    let s = set_leader_spec(r, idx, m);
    assert forall|k: int| 0 <= k < s.len() implies (#[trigger] s[k]).members == r[k].members by {}
    assert forall|k1: int, k2: int, x: Seq<char>|
        0 <= k1 < s.len() && 0 <= k2 < s.len() && k1 != k2 && #[trigger] s[k1].members.contains(x)
            implies !#[trigger] s[k2].members.contains(x) by {
        assert(s[k1].members == r[k1].members);
        assert(s[k2].members == r[k2].members);
    }
}

/// Making `m` the leader of squad `idx` changes only that squad's leader:
/// every other squad stays exactly as it was, the roster keeps its length,
/// and squad `idx` keeps its name and members.
pub proof fn law_set_leader_touches_one_squad(r: Seq<SquadView>, idx: int, m: Seq<char>)
    ensures
        set_leader_spec(r, idx, m).len() == r.len(),
        forall|k: int| 0 <= k < r.len() && k != idx ==> #[trigger] set_leader_spec(r, idx, m)[k] == r[k],
        0 <= idx < r.len() ==> {
            &&& set_leader_spec(r, idx, m)[idx].leader == Some(m)
            &&& set_leader_spec(r, idx, m)[idx].name == r[idx].name
            &&& set_leader_spec(r, idx, m)[idx].members == r[idx].members
        },
{
}

/// Disbanding a squad keeps the roster well formed and sends exactly its
/// members back to the lobby.
pub proof fn law_disband_returns_members(r: Seq<SquadView>, idx: int)
    requires
        roster_wf(r),
        0 <= idx < r.len(),
    ensures
        roster_wf(disband_spec(r, idx)),
        disband_spec(r, idx).len() == r.len() - 1,
        forall|x: Seq<char>|
            in_any_squad(disband_spec(r, idx), x) <==> (in_any_squad(r, x) && !r[idx].members.contains(x)),
{
    let s = disband_spec(r, idx);
    assert forall|k: int| 0 <= k < s.len() implies (#[trigger] s[k]) == r[if k < idx { k } else { k + 1 }] by {}
    assert forall|k: int| 0 <= k < s.len() implies (#[trigger] s[k]).members.no_duplicates() by {
        assert(s[k] == r[if k < idx { k } else { k + 1 }]);
    }
    assert forall|k1: int, k2: int, x: Seq<char>|
        0 <= k1 < s.len() && 0 <= k2 < s.len() && k1 != k2 && #[trigger] s[k1].members.contains(x)
            implies !#[trigger] s[k2].members.contains(x) by {
        let a = if k1 < idx { k1 } else { k1 + 1 };
        let b = if k2 < idx { k2 } else { k2 + 1 };
        assert(s[k1] == r[a]);
        assert(s[k2] == r[b]);
    }
    assert forall|x: Seq<char>| in_any_squad(s, x) <==> (in_any_squad(r, x) && !r[idx].members.contains(x)) by {
        if in_any_squad(s, x) {
            let k = choose|k: int| 0 <= k < s.len() && (#[trigger] s[k]).members.contains(x);
            let a = if k < idx { k } else { k + 1 };
            assert(s[k] == r[a]);
            assert(r[a].members.contains(x));
        }
        if in_any_squad(r, x) && !r[idx].members.contains(x) {
            let k = choose|k: int| 0 <= k < r.len() && (#[trigger] r[k]).members.contains(x);
            let b = if k < idx { k } else { k - 1 };
            assert(s[b] == r[k]);
        }
    }
}

/// Everyone in the room is either in the lobby or in a squad, never both.
pub proof fn law_lobby_partition(all: Seq<Seq<char>>, r: Seq<SquadView>, x: Seq<char>)
    requires
        all.contains(x),
    ensures
        unassigned(all, r).contains(x) != in_any_squad(r, x),
{
    lemma_unassigned_contains(all, r, x);
}

/// The room's member list holds the local user and every peer, each once.
pub proof fn law_members_listed_once(base: Seq<Seq<char>>, peers: Seq<Seq<char>>, x: Seq<char>)
    requires
        base.no_duplicates(),
    ensures
        collect_members(base, peers).contains(x) <==> (base.contains(x) || peers.contains(x)),
        collect_members(base, peers).no_duplicates(),
    decreases peers.len(),
{
    lemma_collect_contains(base, peers, x);
    if peers.len() > 0 {
        law_members_listed_once(base, peers.drop_last(), x);
        let r = collect_members(base, peers.drop_last());
        if !r.contains(peers.last()) {
            let w = r.push(peers.last());
            assert forall|i: int, j: int| 0 <= i < w.len() && 0 <= j < w.len() && i != j implies w[i] != w[j] by {
                if i == r.len() {
                    assert(r.contains(r[j]));
                } else if j == r.len() {
                    assert(r.contains(r[i]));
                }
            }
        }
    }
}

proof fn lemma_handed_over_member(l: Option<Seq<char>>, ms: Seq<Seq<char>>, x: Seq<char>)
    requires
        l matches Some(y) ==> ms.contains(y),
    ensures
        handed_over(l, ms, x) matches Some(y) ==> without(ms, x).contains(y),
{
    lemma_first_other_member(ms, x);
    if let Some(y) = handed_over(l, ms, x) {
        lemma_without_contains(ms, x, y);
    }
}

/// A squad's leader is one of its members (the data model's rule), and the
/// roster operations keep it so: returning to the lobby, joining, being
/// assigned or removed, creating and disbanding a squad. Naming a leader is
/// offered only for members of the squad.
pub proof fn law_leaders_stay_members(r: Seq<SquadView>, me: Seq<char>, idx: int, m: Seq<char>, name: Seq<char>)
    requires
        leaders_are_members(r),
    ensures
        leaders_are_members(leave_spec(r, me)),
        leaders_are_members(join_spec(r, me, idx)),
        leaders_are_members(assign_spec(r, m, idx)),
        leaders_are_members(remove_spec(r, idx, m)),
        leaders_are_members(create_spec(r, name, me)),
        leaders_are_members(disband_spec(r, idx)),
{
    assert forall|k: int| 0 <= k < r.len() implies #[trigger] handed_over(r[k].leader, r[k].members, me) matches Some(y)
        ==> without(r[k].members, me).contains(y) by {
        lemma_handed_over_member(r[k].leader, r[k].members, me);
    }
    assert forall|k: int| 0 <= k < r.len() implies #[trigger] handed_over(r[k].leader, r[k].members, m) matches Some(y)
        ==> without(r[k].members, m).contains(y) by {
        lemma_handed_over_member(r[k].leader, r[k].members, m);
    }
    let l = leave_spec(r, me);
    assert forall|k: int| 0 <= k < l.len() implies ((#[trigger] l[k]).leader matches Some(y) ==> l[k].members.contains(y)) by {
        assert(l[k].leader == handed_over(r[k].leader, r[k].members, me));
    }
    let j = join_spec(r, me, idx);
    assert forall|k: int| 0 <= k < j.len() implies ((#[trigger] j[k]).leader matches Some(y) ==> j[k].members.contains(y)) by {
        if k == idx {
            let w = without(r[k].members, me);
            assert(j[k].members == w.push(me));
            assert(j[k].members[w.len() as int] == me);
            if let Some(y) = j[k].leader {
                if y != me {
                    lemma_without_contains(r[k].members, me, y);
                    let i = choose|i: int| 0 <= i < w.len() && w[i] == y;
                    assert(j[k].members[i] == y);
                }
            }
        } else {
            assert(j[k].leader == handed_over(r[k].leader, r[k].members, me));
        }
    }
    let a = assign_spec(r, m, idx);
    assert forall|k: int| 0 <= k < a.len() implies ((#[trigger] a[k]).leader matches Some(y) ==> a[k].members.contains(y)) by {
        if k == idx {
            let w = without(r[k].members, m);
            lemma_without_contains(r[k].members, m, m);
            assert(a[k].members == w.push(m));
            assert(a[k].members[w.len() as int] == m);
            if let Some(y) = a[k].leader {
                if y != m {
                    lemma_without_contains(r[k].members, m, y);
                    let i = choose|i: int| 0 <= i < w.len() && w[i] == y;
                    assert(a[k].members[i] == y);
                }
            }
        } else {
            assert(a[k].leader == handed_over(r[k].leader, r[k].members, m));
        }
    }
    let v = remove_spec(r, idx, m);
    assert forall|k: int| 0 <= k < v.len() implies ((#[trigger] v[k]).leader matches Some(y) ==> v[k].members.contains(y)) by {
        if k == idx {
            assert(v[k].leader == handed_over(r[k].leader, r[k].members, m));
        }
    }
    let c = create_spec(r, name, me);
    assert forall|k: int| 0 <= k < c.len() implies ((#[trigger] c[k]).leader matches Some(y) ==> c[k].members.contains(y)) by {
        if k < r.len() {
            assert(c[k] == l[k]);
            assert(l[k].leader == handed_over(r[k].leader, r[k].members, me));
        } else {
            assert(c[k].members[0] == me);
        }
    }
    let d = disband_spec(r, idx);
    assert forall|k: int| 0 <= k < d.len() implies ((#[trigger] d[k]).leader matches Some(y) ==> d[k].members.contains(y)) by {
        if 0 <= idx < r.len() {
            assert(d[k] == r[if k < idx { k } else { k + 1 }]);
        }
    }
}

// ── Executable roster operations ───────────────────────────────────────────

/// `ms` without the entries equal to `x`, order kept.
pub fn without_name(ms: &Vec<String>, x: &str) -> (r: Vec<String>)
    ensures
        names(r@) == without(names(ms@), x@),
{
    let mut out: Vec<String> = Vec::new();
    let mut i: usize = 0;
    while i < ms.len()
        invariant
            0 <= i <= ms@.len(),
            names(out@) == without(names(ms@.take(i as int)), x@),
        decreases ms@.len() - i,
    {
        let ghost before = names(ms@.take(i as int));
        let ghost after = names(ms@.take(i + 1));
        proof {
            assert(after.drop_last() =~= before);
            assert(after.last() == ms@[i as int]@);
        }
        if !str_equal(ms[i].as_str(), x) {
            let ghost o = out@;
            out.push(ms[i].clone());
            proof {
                assert(names(out@) =~= names(o).push(ms@[i as int]@));
            }
        }
        i = i + 1;
    }
    proof {
        assert(ms@.take(ms@.len() as int) =~= ms@);
    }
    out
}

/// The first entry of `ms` that differs from `x`.
pub fn first_other_name(ms: &Vec<String>, x: &str) -> (r: Option<String>)
    ensures
        opt_name(r) == first_other(names(ms@), x@),
{
    let ghost ns = names(ms@);
    let mut i: usize = 0;
    while i < ms.len()
        invariant
            0 <= i <= ms@.len(),
            ns == names(ms@),
            forall|j: int| 0 <= j < i ==> #[trigger] ns[j] == x@,
        decreases ms@.len() - i,
    {
        if !str_equal(ms[i].as_str(), x) {
            proof {
                lemma_first_other_skip(ns, x@, i as int);
                let t = ns.subrange(i as int, ns.len() as int);
                assert(t[0] == ns[i as int]);
            }
            return Some(ms[i].clone());
        }
        i = i + 1;
    }
    proof {
        lemma_first_other_skip(ns, x@, i as int);
    }
    None
}

/// Whether `ms` holds an entry equal to `x`.
pub fn holds_name(ms: &Vec<String>, x: &str) -> (r: bool)
    ensures
        r == names(ms@).contains(x@),
{
    let mut i: usize = 0;
    while i < ms.len()
        invariant
            0 <= i <= ms@.len(),
            forall|j: int| 0 <= j < i ==> names(ms@)[j] != x@,
        decreases ms@.len() - i,
    {
        if str_equal(ms[i].as_str(), x) {
            proof {
                assert(names(ms@)[i as int] == x@);
            }
            return true;
        }
        i = i + 1;
    }
    false
}

fn clone_opt(o: &Option<String>) -> (r: Option<String>)
    ensures
        opt_name(r) == opt_name(*o),
{
    match o {
        Some(s) => Some(s.clone()),
        None => None,
    }
}

fn opt_is(o: &Option<String>, x: &str) -> (r: bool)
    ensures
        r == (opt_name(*o) == Some(x@)),
{
    match o {
        Some(s) => str_equal(s.as_str(), x),
        None => false,
    }
}

/// `me` creates a squad named `name` and leads it: `me` leaves any other
/// squad first, then the new squad is added with `me` as its only member.
pub fn create_squad(squads: &mut Vec<SquadDraft>, name: String, me: &str)
    ensures
        roster(final(squads)@) == create_spec(roster(old(squads)@), name@, me@),
{
    let ghost r = roster(squads@);
    leave_squad(squads, me);
    let ghost r1 = roster(squads@);
    let mut members: Vec<String> = Vec::new();
    members.push(String::from_str(me));
    squads.push(SquadDraft { name, members, leader: Some(String::from_str(me)) });
    proof {
        assert(names(members@) =~= seq![me@]);
        assert(roster(squads@) =~= create_spec(r, name@, me@));
    }
}

/// `me` joins squad `idx`, leaving any other squad first (and handing on its
/// leadership); `me` leads the squad if it had no leader.
pub fn join_squad(squads: &mut Vec<SquadDraft>, me: &str, idx: usize)
    ensures
        roster(final(squads)@) == join_spec(roster(old(squads)@), me@, idx as int),
{
    let ghost r = roster(squads@);
    let mut k: usize = 0;
    while k < squads.len()
        invariant
            0 <= k <= squads@.len(),
            squads@.len() == r.len(),
            forall|j: int| 0 <= j < k ==> (#[trigger] squads@[j])@ == join_spec(r, me@, idx as int)[j],
            forall|j: int| k <= j < squads@.len() ==> (#[trigger] squads@[j])@ == r[j],
        decreases squads@.len() - k,
    {
        let d = &squads[k];
        let mut members = without_name(&d.members, me);
        let mut leader = clone_opt(&d.leader);
        if k != idx && opt_is(&d.leader, me) {
            leader = first_other_name(&d.members, me);
        }
        let name = d.name.clone();
        if k == idx {
            let ghost m0 = members@;
            members.push(String::from_str(me));
            proof {
                assert(names(members@) =~= names(m0).push(me@));
            }
            if leader.is_none() {
                leader = Some(String::from_str(me));
            }
        }
        squads.set(k, SquadDraft { name, members, leader });
        k = k + 1;
    }
    proof {
        assert(roster(squads@) =~= join_spec(r, me@, idx as int));
    }
}

/// `me` returns to the lobby: `me` leaves every squad, and any squad that `me`
/// led passes to its first other member, or to nobody when none is left.
pub fn leave_squad(squads: &mut Vec<SquadDraft>, me: &str)
    ensures
        roster(final(squads)@) == leave_spec(roster(old(squads)@), me@),
{
    let ghost r = roster(squads@);
    let mut k: usize = 0;
    while k < squads.len()
        invariant
            0 <= k <= squads@.len(),
            squads@.len() == r.len(),
            forall|j: int| 0 <= j < k ==> (#[trigger] squads@[j])@ == leave_spec(r, me@)[j],
            forall|j: int| k <= j < squads@.len() ==> (#[trigger] squads@[j])@ == r[j],
        decreases squads@.len() - k,
    {
        let d = &squads[k];
        let mut leader = clone_opt(&d.leader);
        if opt_is(&d.leader, me) {
            leader = first_other_name(&d.members, me);
        }
        let members = without_name(&d.members, me);
        let name = d.name.clone();
        squads.set(k, SquadDraft { name, members, leader });
        k = k + 1;
    }
    proof {
        assert(roster(squads@) =~= leave_spec(r, me@));
    }
}

/// A leader assigns `member` to squad `idx`: `member` leaves every squad
/// (handing on the leadership of any squad it led) and joins squad `idx`.
pub fn assign_to_squad(squads: &mut Vec<SquadDraft>, member: &str, idx: usize)
    ensures
        roster(final(squads)@) == assign_spec(roster(old(squads)@), member@, idx as int),
{
    let ghost r = roster(squads@);
    let mut k: usize = 0;
    while k < squads.len()
        invariant
            0 <= k <= squads@.len(),
            squads@.len() == r.len(),
            forall|j: int| 0 <= j < k ==> (#[trigger] squads@[j])@ == assign_spec(r, member@, idx as int)[j],
            forall|j: int| k <= j < squads@.len() ==> (#[trigger] squads@[j])@ == r[j],
        decreases squads@.len() - k,
    {
        let d = &squads[k];
        let mut members = without_name(&d.members, member);
        let mut leader = clone_opt(&d.leader);
        if k != idx && opt_is(&d.leader, member) {
            leader = first_other_name(&d.members, member);
        }
        let name = d.name.clone();
        if k == idx && !holds_name(&members, member) {
            let ghost m0 = members@;
            members.push(String::from_str(member));
            proof {
                assert(names(members@) =~= names(m0).push(member@));
            }
        }
        squads.set(k, SquadDraft { name, members, leader });
        k = k + 1;
    }
    proof {
        assert(roster(squads@) =~= assign_spec(r, member@, idx as int));
    }
}

/// Remove `member` from squad `idx`; if `member` led it, its first other
/// member leads.
pub fn remove_from_squad(squads: &mut Vec<SquadDraft>, idx: usize, member: &str)
    ensures
        roster(final(squads)@) == remove_spec(roster(old(squads)@), idx as int, member@),
{
    let ghost r = roster(squads@);
    if idx < squads.len() {
        let d = &squads[idx];
        let mut leader = clone_opt(&d.leader);
        if opt_is(&d.leader, member) {
            leader = first_other_name(&d.members, member);
        }
        let members = without_name(&d.members, member);
        let name = d.name.clone();
        squads.set(idx, SquadDraft { name, members, leader });
    }
    proof {
        assert(roster(squads@) =~= remove_spec(r, idx as int, member@));
    }
}

/// Make `member` the leader of squad `idx`.
pub fn set_leader(squads: &mut Vec<SquadDraft>, idx: usize, member: &str)
    ensures
        roster(final(squads)@) == set_leader_spec(roster(old(squads)@), idx as int, member@),
        final(squads)@.len() == old(squads)@.len(),
        forall|k: int|
            0 <= k < old(squads)@.len() && k != idx ==> #[trigger] roster(final(squads)@)[k] == roster(
                old(squads)@,
            )[k],
        idx < old(squads)@.len() ==> roster(final(squads)@)[idx as int].leader == Some(member@),
{
    let ghost r = roster(squads@);
    if idx < squads.len() {
        let d = &squads[idx];
        let members = d.members.clone();
        let name = d.name.clone();
        proof {
            assert(names(members@) =~= names(d.members@));
        }
        squads.set(idx, SquadDraft { name, members, leader: Some(String::from_str(member)) });
    }
    proof {
        assert(roster(squads@) =~= set_leader_spec(r, idx as int, member@));
        law_set_leader_touches_one_squad(r, idx as int, member@);
    }
}

/// Remove squad `idx`; its members are back in the lobby.
pub fn disband_squad(squads: &mut Vec<SquadDraft>, idx: usize)
    ensures
        roster(final(squads)@) == disband_spec(roster(old(squads)@), idx as int),
{
    let ghost r = roster(squads@);
    if idx < squads.len() {
        squads.remove(idx);
    }
    proof {
        assert(roster(squads@) =~= disband_spec(r, idx as int));
    }
}

// ── Queries for the room view ──────────────────────────────────────────────

/// Everyone shown in the room: the local user first (when logged in), then
/// each peer not listed yet.
pub fn all_members(user_id: &Option<String>, peers: &Vec<String>) -> (r: Vec<String>)
    ensures
        names(r@) == collect_members(
            match opt_name(*user_id) {
                Some(u) => seq![u],
                None => Seq::empty(),
            },
            names(peers@),
        ),
{
    let mut out: Vec<String> = Vec::new();
    let ghost base: Seq<Seq<char>> = match opt_name(*user_id) {
        Some(u) => seq![u],
        None => Seq::empty(),
    };
    match user_id {
        Some(u) => {
            out.push(u.clone());
        },
        None => {},
    }
    proof {
        assert(names(out@) =~= base);
        assert(names(peers@.take(0)) =~= Seq::<Seq<char>>::empty());
    }
    let mut i: usize = 0;
    while i < peers.len()
        invariant
            0 <= i <= peers@.len(),
            names(out@) == collect_members(base, names(peers@.take(i as int))),
        decreases peers@.len() - i,
    {
        let ghost before = names(peers@.take(i as int));
        let ghost after = names(peers@.take(i + 1));
        proof {
            assert(after.drop_last() =~= before);
            assert(after.last() == peers@[i as int]@);
        }
        if !holds_name(&out, peers[i].as_str()) {
            let ghost o = out@;
            out.push(peers[i].clone());
            proof {
                assert(names(out@) =~= names(o).push(peers@[i as int]@));
            }
        }
        i = i + 1;
    }
    proof {
        assert(peers@.take(peers@.len() as int) =~= peers@);
    }
    out
}

/// Whether `m` is a member of some squad.
pub fn is_assigned(squads: &Vec<SquadDraft>, m: &str) -> (r: bool)
    ensures
        r == in_any_squad(roster(squads@), m@),
{
    let ghost r = roster(squads@);
    let mut k: usize = 0;
    while k < squads.len()
        invariant
            0 <= k <= squads@.len(),
            r == roster(squads@),
            forall|j: int| 0 <= j < k ==> !(#[trigger] r[j]).members.contains(m@),
        decreases squads@.len() - k,
    {
        if holds_name(&squads[k].members, m) {
            proof {
                assert(r[k as int].members.contains(m@));
            }
            return true;
        }
        k = k + 1;
    }
    false
}

/// The room members that are in no squad (the lobby), in room order.
pub fn lobby_members(all: &Vec<String>, squads: &Vec<SquadDraft>) -> (r: Vec<String>)
    ensures
        names(r@) == unassigned(names(all@), roster(squads@)),
{
    let ghost rs = roster(squads@);
    let mut out: Vec<String> = Vec::new();
    let mut i: usize = 0;
    proof {
        assert(names(all@.take(0)) =~= Seq::<Seq<char>>::empty());
        assert(names(out@) =~= Seq::<Seq<char>>::empty());
    }
    while i < all.len()
        invariant
            0 <= i <= all@.len(),
            rs == roster(squads@),
            names(out@) == unassigned(names(all@.take(i as int)), rs),
        decreases all@.len() - i,
    {
        let ghost before = names(all@.take(i as int));
        let ghost after = names(all@.take(i + 1));
        proof {
            assert(after.drop_last() =~= before);
            assert(after.last() == all@[i as int]@);
        }
        if !is_assigned(squads, all[i].as_str()) {
            let ghost o = out@;
            out.push(all[i].clone());
            proof {
                assert(names(out@) =~= names(o).push(all@[i as int]@));
            }
        }
        i = i + 1;
    }
    proof {
        assert(all@.take(all@.len() as int) =~= all@);
    }
    out
}

/// The index of the first squad that holds `me`.
pub fn my_squad_index(squads: &Vec<SquadDraft>, me: &str) -> (r: Option<usize>)
    ensures
        match r {
            None => !in_any_squad(roster(squads@), me@),
            Some(k) => k < squads@.len() && roster(squads@)[k as int].members.contains(me@) && forall|j: int|
                0 <= j < k ==> !(#[trigger] roster(squads@)[j]).members.contains(me@),
        },
{
    let ghost r = roster(squads@);
    let mut k: usize = 0;
    while k < squads.len()
        invariant
            0 <= k <= squads@.len(),
            r == roster(squads@),
            forall|j: int| 0 <= j < k ==> !(#[trigger] r[j]).members.contains(me@),
        decreases squads@.len() - k,
    {
        if holds_name(&squads[k].members, me) {
            return Some(k);
        }
        k = k + 1;
    }
    None
}

/// Whether `me` leads the squad at `my_idx`.
pub fn leads_squad(squads: &Vec<SquadDraft>, my_idx: Option<usize>, me: &str) -> (r: bool)
    ensures
        r == match my_idx {
            Some(k) => k < squads@.len() && roster(squads@)[k as int].leader == Some(me@),
            None => false,
        },
{
    match my_idx {
        Some(k) => {
            if k < squads.len() {
                opt_is(&squads[k].leader, me)
            } else {
                false
            }
        },
        None => false,
    }
}

/// Whether a squad may be created from the typed name: non-blank after
/// trimming, and not the name of an existing squad.
pub fn can_create_squad(squads: &Vec<SquadDraft>, typed: &str) -> (r: bool)
    ensures
        r == can_create_spec(roster(squads@), typed@),
{
    let t = trim(typed);
    if t.as_str().unicode_len() == 0 {
        return false;
    }
    let ghost r = roster(squads@);
    let mut k: usize = 0;
    while k < squads.len()
        invariant
            0 <= k <= squads@.len(),
            r == roster(squads@),
            t@ == trimmed(typed@),
            forall|j: int| 0 <= j < k ==> (#[trigger] r[j]).name != t@,
        decreases squads@.len() - k,
    {
        if str_equal(squads[k].name.as_str(), t.as_str()) {
            proof {
                assert(r[k as int].name == t@);
            }
            return false;
        }
        k = k + 1;
    }
    true
}

} // verus!
