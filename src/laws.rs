use vstd::prelude::*;
use crate::store::{Store, weapon_other_than};
use crate::types::{
    Leaderboard, LeaderboardPayload, Match, MatchProfilePayload, PlayerProfilePayload,
    PlayerProfileView, Record, Weapon, WeaponProfilePayload,
};

verus! {

/// A created player reads back as created, and an update or a delete of
/// another player leaves it so.
pub proof fn player_reads_back_after_create(
    before: Store,
    after: Store,
    payload: PlayerProfilePayload,
    p: PlayerProfileView,
    other: u64,
    v: PlayerProfileView,
)
    requires
        Store::created_player(before, after, payload, p),
        other != p.id,
    ensures
        after.players@.contains_key(p.id),
        after.players@[p.id] == p,
        after.players@.insert(other, v)[p.id] == p,
        after.players@.remove(other)[p.id] == p,
        after.players@.remove(other).contains_key(p.id),
{
}

/// A created weapon reads back as created, and an update or a delete of
/// another weapon leaves it so.
pub proof fn weapon_reads_back_after_create(
    before: Store,
    after: Store,
    payload: WeaponProfilePayload,
    w: Weapon,
    other: u64,
    v: Weapon,
)
    requires
        Store::created_weapon(before, after, payload, w),
        other != w.id,
    ensures
        after.weapons@.contains_key(w.id),
        after.weapons@[w.id] == w,
        after.weapons@.insert(other, v)[w.id] == w,
        after.weapons@.remove(other)[w.id] == w,
        after.weapons@.remove(other).contains_key(w.id),
{
}

/// A created match reads back as created, and an update or a delete of
/// another match leaves it so.
pub proof fn match_reads_back_after_create(
    before: Store,
    after: Store,
    payload: MatchProfilePayload,
    m: Match,
    other: u64,
    v: Match,
)
    requires
        Store::created_match(before, after, payload, m),
        other != m.id,
    ensures
        after.matches@.contains_key(m.id),
        after.matches@[m.id] == m,
        after.matches@.insert(other, v)[m.id] == m,
        after.matches@.remove(other)[m.id] == m,
        after.matches@.remove(other).contains_key(m.id),
{
}

/// A created leaderboard entry reads back as created, and an update or a
/// delete of another entry leaves it so.
pub proof fn leaderboard_reads_back_after_create(
    before: Store,
    after: Store,
    payload: LeaderboardPayload,
    l: Leaderboard,
    other: u64,
    v: Leaderboard,
)
    requires
        Store::created_leaderboard(before, after, payload, l),
        other != l.id,
    ensures
        after.leaderboards@.contains_key(l.id),
        after.leaderboards@[l.id] == l,
        after.leaderboards@.insert(other, v)[l.id] == l,
        after.leaderboards@.remove(other)[l.id] == l,
        after.leaderboards@.remove(other).contains_key(l.id),
{
}

/// Once weapon `id` is deleted, no player holds a snapshot of it, the weapon
/// table no longer lists it, and it cannot be deleted again.
pub proof fn deleted_weapon_is_gone(before: Store, after: Store, id: u64)
    requires
        after.wf(),
        Store::deleted_weapon(before, after, id),
    ensures
        forall|pid: u64, j: int|
            after.players@.contains_key(pid) && 0 <= j < after.players@[pid].weapons.len()
                ==> #[trigger] after.players@[pid].weapons[j].id != id,
        !after.weapons@.contains_key(id),
        forall|i: int| 0 <= i < after.weapons.values().len() ==> #[trigger] after.weapons.values()[i].id != id,
{
    assert forall|pid: u64, j: int|
        after.players@.contains_key(pid) && 0 <= j < after.players@[pid].weapons.len()
            implies #[trigger] after.players@[pid].weapons[j].id != id by {
        let ws = before.players@[pid].weapons;
        ws.lemma_filter_pred(weapon_other_than(id), j);
    }
    assert forall|i: int| 0 <= i < after.weapons.values().len() implies #[trigger] after.weapons.values()[i].id != id by {
        assert(after.weapons.values()[i] == after.weapons.rows()[i]);
        if after.weapons.rows()[i].id == id {
            assert(after.weapons.rows()[i].key_of() == id);
            assert(after.weapons.has(id));
            assert(after.weapons@.contains_key(id));
        }
    }
}

/// Attaching a weapon appends one snapshot of it; attaching it twice
/// appends two.
pub proof fn attaching_twice_appends_two(
    s0: Store,
    s1: Store,
    s2: Store,
    player_id: u64,
    weapon_id: u64,
)
    requires
        Store::attached_weapon(s0, s1, player_id, weapon_id),
        Store::attached_weapon(s1, s2, player_id, weapon_id),
    ensures
        s1.players@[player_id].weapons == s0.players@[player_id].weapons.push(s0.weapons@[weapon_id]),
        s2.players@[player_id].weapons == s0.players@[player_id].weapons.push(
            s0.weapons@[weapon_id],
        ).push(s0.weapons@[weapon_id]),
        s2.players@[player_id].weapons.len() == s0.players@[player_id].weapons.len() + 2,
{
}

} // verus!
