use warriors_ledger::store::Store;
use warriors_ledger::types::{
    Error, LeaderboardPayload, MatchProfilePayload, PlayerProfilePayload, WeaponProfilePayload,
};
use warriors_ledger::validate::{check_player_fields, is_valid_player_payload, is_valid_weapon_payload};

fn player(name: &str, score: u64) -> PlayerProfilePayload {
    PlayerProfilePayload { name: name.to_string(), score, level: 1, rank: 1 }
}

fn weapon(name: &str, damage: u64) -> WeaponProfilePayload {
    WeaponProfilePayload {
        name: name.to_string(),
        damage,
        ammo: 30,
        range: 100,
        fire_rate: 5,
        reload_time: 2,
        accuracy: 80,
        price: 1000,
        level: 1,
        rank: 1,
    }
}

fn a_match(player_id: u64, score: u64) -> MatchProfilePayload {
    MatchProfilePayload {
        player_id,
        weapon_id: 0,
        score,
        level: 1,
        rank: 1,
        time: 60,
        result: "win".to_string(),
    }
}

fn entry(player_id: u64, score: u64) -> LeaderboardPayload {
    LeaderboardPayload { player_id, score, level: 1, rank: 1 }
}

#[test]
fn ids_start_at_zero_and_increase() {
    let mut s = Store::new();
    for k in 0..5u64 {
        let p = s.create_player_profile(player("p", 10)).unwrap();
        assert_eq!(p.id, k);
        let w = s.create_weapon(weapon("w", 10)).unwrap();
        assert_eq!(w.id, k);
    }
    let ids: Vec<u64> = s.get_all_players_profile().unwrap().iter().map(|p| p.id).collect();
    assert_eq!(ids, vec![0, 1, 2, 3, 4]);
}

#[test]
fn ids_are_not_reused_after_delete() {
    let mut s = Store::new();
    s.create_weapon(weapon("a", 1)).unwrap();
    s.create_weapon(weapon("b", 2)).unwrap();
    s.delete_weapon(1).unwrap();
    let w = s.create_weapon(weapon("c", 3)).unwrap();
    assert_eq!(w.id, 2);
}

#[test]
fn get_after_create_returns_created() {
    let mut s = Store::new();
    let p = s.create_player_profile(player("Alice", 5)).unwrap();
    assert_eq!(s.get_player_profile(p.id).unwrap(), p);
    assert!(p.weapons.is_empty());
    assert!(p.match_history.is_empty());
    let other = s.create_player_profile(player("Bob", 7)).unwrap();
    s.update_player_profile(other.id, player("Bobby", 8)).unwrap();
    s.delete_player_profile(other.id).unwrap();
    assert_eq!(s.get_player_profile(p.id).unwrap(), p);
    let l = s.create_leaderboard(entry(p.id, 3)).unwrap();
    assert_eq!(s.get_leaderboard(l.id).unwrap(), l);
}

#[test]
fn update_player_keeps_weapons_and_matches() {
    let mut s = Store::new();
    let p = s.create_player_profile(player("Alice", 5)).unwrap();
    let w = s.create_weapon(weapon("Rifle", 40)).unwrap();
    let m = s.create_match(a_match(p.id, 12)).unwrap();
    s.add_weapon_to_player_profile(p.id, w.id).unwrap();
    s.add_match_to_player_profile(p.id, m.id).unwrap();
    let updated = s.update_player_profile(p.id, player("Alicia", 99)).unwrap();
    assert_eq!(updated.name, "Alicia");
    assert_eq!(updated.score, 99);
    assert_eq!(updated.weapons, vec![w]);
    assert_eq!(updated.match_history, vec![m]);
    assert_eq!(s.get_player_profile(p.id).unwrap(), updated);
}

#[test]
fn update_of_missing_record_is_not_found() {
    let mut s = Store::new();
    assert!(matches!(s.update_player_profile(3, player("x", 1)), Err(Error::NotFound { .. })));
    assert!(matches!(s.update_weapon_profile(3, weapon("x", 1)), Err(Error::NotFound { .. })));
    let p = s.create_player_profile(player("x", 1)).unwrap();
    assert!(matches!(s.update_match(3, a_match(p.id, 1)), Err(Error::NotFound { .. })));
    assert!(matches!(s.update_leaderboard(3, entry(p.id, 1)), Err(Error::NotFound { .. })));
}

#[test]
fn update_weapon_leaves_snapshots_stale() {
    let mut s = Store::new();
    let p = s.create_player_profile(player("Alice", 5)).unwrap();
    let w = s.create_weapon(weapon("Rifle", 40)).unwrap();
    s.add_weapon_to_player_profile(p.id, w.id).unwrap();
    let w2 = s.update_weapon_profile(w.id, weapon("Laser", 90)).unwrap();
    assert_eq!(s.get_weapon(w.id).unwrap(), w2);
    assert_eq!(s.get_player_profile(p.id).unwrap().weapons, vec![w]);
}

#[test]
fn delete_weapon_strips_snapshots() {
    let mut s = Store::new();
    let p0 = s.create_player_profile(player("A", 1)).unwrap();
    let p1 = s.create_player_profile(player("B", 1)).unwrap();
    let w0 = s.create_weapon(weapon("Rifle", 40)).unwrap();
    let w1 = s.create_weapon(weapon("Knife", 5)).unwrap();
    s.add_weapon_to_player_profile(p0.id, w0.id).unwrap();
    s.add_weapon_to_player_profile(p0.id, w1.id).unwrap();
    s.add_weapon_to_player_profile(p0.id, w0.id).unwrap();
    s.add_weapon_to_player_profile(p1.id, w1.id).unwrap();
    s.delete_weapon(w0.id).unwrap();
    assert_eq!(s.get_player_profile(p0.id).unwrap().weapons, vec![w1.clone()]);
    assert_eq!(s.get_player_profile(p1.id).unwrap().weapons, vec![w1.clone()]);
    assert_eq!(s.get_all_weapons().unwrap(), vec![w1]);
    assert!(matches!(s.delete_weapon(w0.id), Err(Error::NotFound { .. })));
    assert!(matches!(s.get_weapon(w0.id), Err(Error::NotFound { .. })));
}

#[test]
fn delete_match_strips_history() {
    let mut s = Store::new();
    let p = s.create_player_profile(player("A", 1)).unwrap();
    let m0 = s.create_match(a_match(p.id, 10)).unwrap();
    let m1 = s.create_match(a_match(p.id, 20)).unwrap();
    s.add_match_to_player_profile(p.id, m0.id).unwrap();
    s.add_match_to_player_profile(p.id, m1.id).unwrap();
    s.delete_match(m0.id).unwrap();
    assert_eq!(s.get_player_profile(p.id).unwrap().match_history, vec![m1.clone()]);
    assert_eq!(s.get_all_matches().unwrap(), vec![m1]);
    assert!(matches!(s.delete_match(m0.id), Err(Error::NotFound { .. })));
}

#[test]
fn delete_missing_is_not_found() {
    let mut s = Store::new();
    assert!(matches!(s.delete_player_profile(0), Err(Error::NotFound { .. })));
    assert!(matches!(s.delete_weapon(0), Err(Error::NotFound { .. })));
    assert!(matches!(s.delete_match(0), Err(Error::NotFound { .. })));
    assert!(matches!(s.delete_leaderboard(0), Err(Error::NotFound { .. })));
}

#[test]
fn rank_weapons_by_damage_orders_descending() {
    let mut s = Store::new();
    for d in [10u64, 50, 30] {
        s.create_weapon(weapon("w", d)).unwrap();
    }
    let damages: Vec<u64> = s.rank_weapons_by_damage().unwrap().iter().map(|w| w.damage).collect();
    assert_eq!(damages, vec![50, 30, 10]);
}

#[test]
fn rank_weapons_keeps_ties_in_id_order() {
    let mut s = Store::new();
    for d in [20u64, 40, 20, 40, 10] {
        s.create_weapon(weapon("w", d)).unwrap();
    }
    let ranked: Vec<(u64, u64)> =
        s.rank_weapons_by_damage().unwrap().iter().map(|w| (w.damage, w.id)).collect();
    assert_eq!(ranked, vec![(40, 1), (40, 3), (20, 0), (20, 2), (10, 4)]);
}

#[test]
fn sort_leaderboard_by_score_orders_descending() {
    let mut s = Store::new();
    let p = s.create_player_profile(player("A", 1)).unwrap();
    for sc in [5u64, 9, 5, 1] {
        s.create_leaderboard(entry(p.id, sc)).unwrap();
    }
    let ranked: Vec<(u64, u64)> =
        s.sort_leaderboard_by_score().unwrap().iter().map(|l| (l.score, l.id)).collect();
    assert_eq!(ranked, vec![(9, 1), (5, 0), (5, 2), (1, 3)]);
}

#[test]
fn empty_tables_are_not_found() {
    let s = Store::new();
    assert!(matches!(s.get_all_players_profile(), Err(Error::NotFound { .. })));
    assert!(matches!(s.get_all_weapons(), Err(Error::NotFound { .. })));
    assert!(matches!(s.get_all_matches(), Err(Error::NotFound { .. })));
    assert!(matches!(s.get_all_leaderboards(), Err(Error::NotFound { .. })));
    assert!(matches!(s.rank_weapons_by_damage(), Err(Error::NotFound { .. })));
    assert!(matches!(s.sort_leaderboard_by_score(), Err(Error::NotFound { .. })));
}

#[test]
fn average_match_score_examples() {
    let mut s = Store::new();
    assert!(matches!(s.get_average_match_score(), Err(Error::NotFound { .. })));
    let p = s.create_player_profile(player("A", 1)).unwrap();
    s.create_match(a_match(p.id, 7)).unwrap();
    assert_eq!(s.get_average_match_score().unwrap(), 7);

    let mut t = Store::new();
    let p = t.create_player_profile(player("A", 1)).unwrap();
    for sc in [10u64, 20, 30] {
        t.create_match(a_match(p.id, sc)).unwrap();
    }
    assert_eq!(t.get_average_match_score().unwrap(), 20);
}

#[test]
fn average_match_score_truncates_and_does_not_overflow() {
    let mut s = Store::new();
    let p = s.create_player_profile(player("A", 1)).unwrap();
    s.create_match(a_match(p.id, 1)).unwrap();
    s.create_match(a_match(p.id, 2)).unwrap();
    assert_eq!(s.get_average_match_score().unwrap(), 1);

    let mut t = Store::new();
    let p = t.create_player_profile(player("A", 1)).unwrap();
    t.create_match(a_match(p.id, u64::MAX)).unwrap();
    t.create_match(a_match(p.id, u64::MAX - 2)).unwrap();
    assert_eq!(t.get_average_match_score().unwrap(), u64::MAX - 1);
}

#[test]
fn create_match_for_unknown_player_is_not_found() {
    let mut s = Store::new();
    let p = s.create_player_profile(player("A", 1)).unwrap();
    let m = s.create_match(a_match(p.id, 4)).unwrap();
    assert!(matches!(s.create_match(a_match(999, 4)), Err(Error::NotFound { .. })));
    assert_eq!(s.get_all_matches().unwrap(), vec![m]);
    let next = s.create_match(a_match(p.id, 5)).unwrap();
    assert_eq!(next.id, 1);
}

#[test]
fn create_leaderboard_for_unknown_player_is_not_found() {
    let mut s = Store::new();
    assert!(matches!(s.create_leaderboard(entry(999, 4)), Err(Error::NotFound { .. })));
    assert!(matches!(s.get_all_leaderboards(), Err(Error::NotFound { .. })));
}

#[test]
fn create_player_with_zero_score_is_refused() {
    let mut s = Store::new();
    let first = s.create_player_profile(player("A", 3)).unwrap();
    let bad = player("B", 0);
    match s.create_player_profile(bad.clone()) {
        Err(Error::InvalidPlayerPayload { payload, .. }) => assert_eq!(payload, bad),
        other => panic!("unexpected {:?}", other),
    }
    let ids: Vec<u64> = s.get_all_players_profile().unwrap().iter().map(|p| p.id).collect();
    assert_eq!(ids, vec![first.id]);
    assert_eq!(s.create_player_profile(player("C", 3)).unwrap().id, 1);
}

#[test]
fn blank_names_are_refused() {
    assert!(matches!(
        is_valid_player_payload(&player("   \t ", 3)),
        Err(Error::InvalidPlayerPayload { .. })
    ));
    assert!(matches!(is_valid_player_payload(&player("", 3)), Err(Error::InvalidPlayerPayload { .. })));
    assert!(is_valid_player_payload(&player("  Bob  ", 3)).is_ok());
    assert!(matches!(
        is_valid_weapon_payload(&weapon("  ", 3)),
        Err(Error::InvalidWeaponPayload { .. })
    ));
    assert!(is_valid_weapon_payload(&weapon(" Axe", 3)).is_ok());
}

#[test]
fn field_check_uses_given_blankness() {
    assert!(check_player_fields(false, &player("", 3)).is_ok());
    assert!(check_player_fields(true, &player("Bob", 3)).is_err());
    assert!(check_player_fields(false, &PlayerProfilePayload { name: "x".to_string(), score: 1, level: 0, rank: 1 }).is_err());
}

#[test]
fn each_invalid_payload_kind_is_reported() {
    let mut s = Store::new();
    let mut w = weapon("w", 5);
    w.price = 0;
    assert!(matches!(s.create_weapon(w.clone()), Err(Error::InvalidWeaponPayload { payload, .. }) if payload == w));
    let p = s.create_player_profile(player("A", 1)).unwrap();
    let mut m = a_match(p.id, 5);
    m.time = 0;
    assert!(matches!(s.create_match(m.clone()), Err(Error::InvalidMatchPayload { payload, .. }) if payload == m));
    let mut m999 = a_match(999, 5);
    m999.level = 0;
    assert!(matches!(s.create_match(m999), Err(Error::InvalidMatchPayload { .. })));
    let l = entry(p.id, 0);
    assert!(matches!(s.create_leaderboard(l.clone()), Err(Error::InvalidLeaderboardPayload { payload, .. }) if payload == l));
    assert!(matches!(s.get_all_weapons(), Err(Error::NotFound { .. })));
}

#[test]
fn attach_weapon_twice_appends_two_copies() {
    let mut s = Store::new();
    let p = s.create_player_profile(player("A", 1)).unwrap();
    let w = s.create_weapon(weapon("Rifle", 40)).unwrap();
    s.add_weapon_to_player_profile(p.id, w.id).unwrap();
    assert_eq!(s.get_player_profile(p.id).unwrap().weapons, vec![w.clone()]);
    s.add_weapon_to_player_profile(p.id, w.id).unwrap();
    assert_eq!(s.get_player_profile(p.id).unwrap().weapons, vec![w.clone(), w.clone()]);
    assert!(matches!(s.add_weapon_to_player_profile(p.id, 9), Err(Error::NotFound { .. })));
    assert!(matches!(s.add_weapon_to_player_profile(9, w.id), Err(Error::NotFound { .. })));
    assert!(matches!(s.add_match_to_player_profile(p.id, 0), Err(Error::NotFound { .. })));
}
