use vstd::prelude::*;
use crate::ranking::{mean_score, rank_by_weight, ranked, average_score};
use crate::table::{Table, views_of};
use crate::types::{
    Error, Leaderboard, LeaderboardPayload, Match, MatchProfilePayload, PlayerProfile,
    PlayerProfilePayload, PlayerProfileView, Record, Weapon, WeaponProfilePayload,
};
use crate::validate::{
    check_leaderboard_fields, check_match_fields, is_valid_player_payload,
    is_valid_weapon_payload, leaderboard_fields_ok, match_fields_ok, message,
    refused_leaderboard, refused_match, refused_player, refused_weapon, valid_player_payload,
    valid_weapon_payload,
};

verus! {

/// Holds of the weapons whose id is not `id`.
pub open spec fn weapon_other_than(id: u64) -> spec_fn(Weapon) -> bool {
    |w: Weapon| w.id != id
}

/// Holds of the matches whose id is not `id`.
pub open spec fn match_other_than(id: u64) -> spec_fn(Match) -> bool {
    |m: Match| m.id != id
}

/// `p` with every snapshot of weapon `id` taken out.
pub open spec fn without_weapon(p: PlayerProfileView, id: u64) -> PlayerProfileView {
    PlayerProfileView {
        id: p.id,
        name: p.name,
        score: p.score,
        level: p.level,
        rank: p.rank,
        weapons: p.weapons.filter(weapon_other_than(id)),
        match_history: p.match_history,
    }
}

/// `p` with every snapshot of match `id` taken out.
pub open spec fn without_match(p: PlayerProfileView, id: u64) -> PlayerProfileView {
    PlayerProfileView {
        id: p.id,
        name: p.name,
        score: p.score,
        level: p.level,
        rank: p.rank,
        weapons: p.weapons,
        match_history: p.match_history.filter(match_other_than(id)),
    }
}

/// `p` with a snapshot of `w` appended to its weapons.
pub open spec fn with_weapon(p: PlayerProfileView, w: Weapon) -> PlayerProfileView {
    PlayerProfileView {
        id: p.id,
        name: p.name,
        score: p.score,
        level: p.level,
        rank: p.rank,
        weapons: p.weapons.push(w),
        match_history: p.match_history,
    }
}

/// `p` with a snapshot of `m` appended to its match history.
pub open spec fn with_match(p: PlayerProfileView, m: Match) -> PlayerProfileView {
    PlayerProfileView {
        id: p.id,
        name: p.name,
        score: p.score,
        level: p.level,
        rank: p.rank,
        weapons: p.weapons,
        match_history: p.match_history.push(m),
    }
}

/// Every player of `m` with the snapshots of weapon `id` taken out.
pub open spec fn players_without_weapon(m: Map<u64, PlayerProfileView>, id: u64) -> Map<u64, PlayerProfileView> {
    Map::new(|k: u64| m.contains_key(k), |k: u64| without_weapon(m[k], id))
}

/// Every player of `m` with the snapshots of match `id` taken out.
pub open spec fn players_without_match(m: Map<u64, PlayerProfileView>, id: u64) -> Map<u64, PlayerProfileView> {
    Map::new(|k: u64| m.contains_key(k), |k: u64| without_match(m[k], id))
}

/// The four tables.
pub struct Store {
    pub players: Table<PlayerProfile>,
    pub weapons: Table<Weapon>,
    pub matches: Table<Match>,
    pub leaderboards: Table<Leaderboard>,
}

fn not_found(s: &str) -> (r: Error)
    ensures
        r is NotFound,
{
    Error::NotFound { msg: message(s) }
}

fn exhausted() -> (r: Error)
    ensures
        r is StorageError,
{
    Error::StorageError { msg: message("cannot increment id counter") }
}

proof fn lemma_filter_push<A>(s: Seq<A>, x: A, pred: spec_fn(A) -> bool)
    ensures
        s.push(x).filter(pred) == if pred(x) {
            s.filter(pred).push(x)
        } else {
            s.filter(pred)
        },
{
    reveal(Seq::filter);
    assert(s.push(x).drop_last() =~= s);
}

/// The weapons of `v` whose id is not `id`, in order.
fn weapons_other_than(v: &Vec<Weapon>, id: u64) -> (r: Vec<Weapon>)
    ensures
        r@ == v@.filter(weapon_other_than(id)),
{
    let mut r: Vec<Weapon> = Vec::new();
    let mut i: usize = 0;
    while i < v.len()
        invariant
            i <= v@.len(),
            r@ == v@.take(i as int).filter(weapon_other_than(id)),
        decreases v@.len() - i,
    {
        proof {
            assert(v@.take(i + 1) =~= v@.take(i as int).push(v@[i as int]));
            lemma_filter_push(v@.take(i as int), v@[i as int], weapon_other_than(id));
        }
        if v[i].id != id {
            r.push(v[i].duplicate());
        }
        i = i + 1;
    }
    proof {
        assert(v@.take(v@.len() as int) =~= v@);
    }
    r
}

/// The matches of `v` whose id is not `id`, in order.
fn matches_other_than(v: &Vec<Match>, id: u64) -> (r: Vec<Match>)
    ensures
        r@ == v@.filter(match_other_than(id)),
{
    let mut r: Vec<Match> = Vec::new();
    let mut i: usize = 0;
    while i < v.len()
        invariant
            i <= v@.len(),
            r@ == v@.take(i as int).filter(match_other_than(id)),
        decreases v@.len() - i,
    {
        proof {
            assert(v@.take(i + 1) =~= v@.take(i as int).push(v@[i as int]));
            lemma_filter_push(v@.take(i as int), v@[i as int], match_other_than(id));
        }
        if v[i].id != id {
            r.push(v[i].duplicate());
        }
        i = i + 1;
    }
    proof {
        assert(v@.take(v@.len() as int) =~= v@);
    }
    r
}

impl Store {
    pub open spec fn wf(&self) -> bool {
        &&& self.players.wf()
        &&& self.weapons.wf()
        &&& self.matches.wf()
        &&& self.leaderboards.wf()
    }

    /// A store with four empty tables, whose counters start at 0.
    pub fn new() -> (r: Store)
        ensures
            r.wf(),
            r.players@ == Map::<u64, PlayerProfileView>::empty(),
            r.weapons@ == Map::<u64, Weapon>::empty(),
            r.matches@ == Map::<u64, Match>::empty(),
            r.leaderboards@ == Map::<u64, Leaderboard>::empty(),
            r.players.next_id() == 0,
            r.weapons.next_id() == 0,
            r.matches.next_id() == 0,
            r.leaderboards.next_id() == 0,
    {
        Store {
            players: Table::new(),
            weapons: Table::new(),
            matches: Table::new(),
            leaderboards: Table::new(),
        }
    }

    // ----- players -----

    /// `after` is `before` with player `p` created from `payload`.
    pub open spec fn created_player(before: Store, after: Store, payload: PlayerProfilePayload, p: PlayerProfileView) -> bool {
        &&& valid_player_payload(payload)
        &&& p == PlayerProfile::spec_from_payload(before.players.next_id(), payload, Seq::empty(), Seq::empty())
        &&& Table::<PlayerProfile>::allocated(before.players, after.players, p.id)
        &&& after.players@ == before.players@.insert(p.id, p)
        &&& after.players.values() == before.players.values().push(p)
        &&& after.weapons == before.weapons
        &&& after.matches == before.matches
        &&& after.leaderboards == before.leaderboards
    }

    /// Validates the payload and stores a new player under the next player
    /// id, with no weapons and no matches.
    pub fn create_player_profile(&mut self, payload: PlayerProfilePayload) -> (r: Result<PlayerProfile, Error>)
        requires
            old(self).wf(),
        ensures
            final(self).wf(),
            r is Ok <==> valid_player_payload(payload) && old(self).players.next_id() < u64::MAX,
            r matches Ok(p) ==> Self::created_player(*old(self), *final(self), payload, p@),
            r matches Err(e) ==> *final(self) == *old(self) && if valid_player_payload(payload) {
                e is StorageError
            } else {
                refused_player(e, payload)
            },
    {
        match is_valid_player_payload(&payload) {
            Ok(()) => {},
            Err(e) => return Err(e),
        }
        let id = match self.players.allocate() {
            Some(id) => id,
            None => return Err(exhausted()),
        };
        let player = PlayerProfile::from_payload(id, payload, Vec::new(), Vec::new());
        self.do_insert_player(&player);
        Ok(player)
    }

    /// Stores a copy of `player` under its id, in place of the player there
    /// if any.
    pub fn do_insert_player(&mut self, player: &PlayerProfile)
        requires
            old(self).wf(),
            old(self).players.insertable(player.id),
        ensures
            final(self).wf(),
            final(self).players.next_id() == old(self).players.next_id(),
            final(self).players@ == old(self).players@.insert(player.id, player@),
            !old(self).players@.contains_key(player.id) ==> final(self).players.values()
                == old(self).players.values().push(player@),
            final(self).weapons == old(self).weapons,
            final(self).matches == old(self).matches,
            final(self).leaderboards == old(self).leaderboards,
    {
        self.players.put(player.duplicate());
    }

    /// Replaces the fields of player `id` by the payload's, keeping its
    /// weapons and match history.
    pub fn update_player_profile(&mut self, id: u64, payload: PlayerProfilePayload) -> (r: Result<PlayerProfile, Error>)
        requires
            old(self).wf(),
        ensures
            final(self).wf(),
            r is Ok <==> valid_player_payload(payload) && old(self).players@.contains_key(id),
            r matches Ok(p) ==> {
                &&& p@ == PlayerProfile::spec_from_payload(
                    id,
                    payload,
                    old(self).players@[id].weapons,
                    old(self).players@[id].match_history,
                )
                &&& final(self).players@ == old(self).players@.insert(id, p@)
                &&& final(self).players.next_id() == old(self).players.next_id()
                &&& final(self).weapons == old(self).weapons
                &&& final(self).matches == old(self).matches
                &&& final(self).leaderboards == old(self).leaderboards
            },
            r matches Err(e) ==> *final(self) == *old(self) && if valid_player_payload(payload) {
                e is NotFound
            } else {
                refused_player(e, payload)
            },
    {
        match is_valid_player_payload(&payload) {
            Ok(()) => {},
            Err(e) => return Err(e),
        }
        let existing = match self.players.get(id) {
            Some(p) => p,
            None => return Err(not_found("Player not found")),
        };
        let updated = PlayerProfile::from_payload(id, payload, existing.weapons, existing.match_history);
        self.do_insert_player(&updated);
        Ok(updated)
    }

    /// The player stored under `id`.
    pub fn get_player_profile(&self, id: u64) -> (r: Result<PlayerProfile, Error>)
        requires
            self.wf(),
        ensures
            r is Ok <==> self.players@.contains_key(id),
            r matches Ok(p) ==> p@ == self.players@[id],
            r matches Err(e) ==> e is NotFound,
    {
        match self.players.get(id) {
            Some(p) => Ok(p),
            None => Err(not_found("player not found")),
        }
    }

    /// All players in ascending id order; `NotFound` when there is none.
    pub fn get_all_players_profile(&self) -> (r: Result<Vec<PlayerProfile>, Error>)
        requires
            self.wf(),
        ensures
            r is Ok <==> self.players.values().len() > 0,
            r matches Ok(v) ==> views_of(v@) == self.players.values(),
            r matches Err(e) ==> e is NotFound,
    {
        let all = self.players.all();
        if all.len() > 0 {
            Ok(all)
        } else {
            Err(not_found("No players found"))
        }
    }

    /// Removes player `id`.
    pub fn delete_player_profile(&mut self, id: u64) -> (r: Result<(), Error>)
        requires
            old(self).wf(),
        ensures
            final(self).wf(),
            r is Ok <==> old(self).players@.contains_key(id),
            r is Ok ==> {
                &&& final(self).players@ == old(self).players@.remove(id)
                &&& final(self).players.next_id() == old(self).players.next_id()
                &&& final(self).weapons == old(self).weapons
                &&& final(self).matches == old(self).matches
                &&& final(self).leaderboards == old(self).leaderboards
            },
            r matches Err(e) ==> *final(self) == *old(self) && e is NotFound,
    {
        match self.players.find(id) {
            Some(i) => {
                self.players.remove_at(i);
                Ok(())
            },
            None => Err(not_found("player not found")),
        }
    }

    // ----- weapons -----

    /// `after` is `before` with weapon `w` created from `payload`.
    pub open spec fn created_weapon(before: Store, after: Store, payload: WeaponProfilePayload, w: Weapon) -> bool {
        &&& valid_weapon_payload(payload)
        &&& w == Weapon::spec_from_payload(before.weapons.next_id(), payload)
        &&& Table::<Weapon>::allocated(before.weapons, after.weapons, w.id)
        &&& after.weapons@ == before.weapons@.insert(w.id, w)
        &&& after.weapons.values() == before.weapons.values().push(w)
        &&& after.players == before.players
        &&& after.matches == before.matches
        &&& after.leaderboards == before.leaderboards
    }

    /// Validates the payload and stores a new weapon under the next weapon id.
    pub fn create_weapon(&mut self, payload: WeaponProfilePayload) -> (r: Result<Weapon, Error>)
        requires
            old(self).wf(),
        ensures
            final(self).wf(),
            r is Ok <==> valid_weapon_payload(payload) && old(self).weapons.next_id() < u64::MAX,
            r matches Ok(w) ==> Self::created_weapon(*old(self), *final(self), payload, w),
            r matches Err(e) ==> *final(self) == *old(self) && if valid_weapon_payload(payload) {
                e is StorageError
            } else {
                refused_weapon(e, payload)
            },
    {
        match is_valid_weapon_payload(&payload) {
            Ok(()) => {},
            Err(e) => return Err(e),
        }
        let id = match self.weapons.allocate() {
            Some(id) => id,
            None => return Err(exhausted()),
        };
        let weapon = Weapon::from_payload(id, payload);
        self.do_insert_weapon(&weapon);
        Ok(weapon)
    }

    /// Stores a copy of `weapon` under its id, in place of the weapon there
    /// if any.
    pub fn do_insert_weapon(&mut self, weapon: &Weapon)
        requires
            old(self).wf(),
            old(self).weapons.insertable(weapon.id),
        ensures
            final(self).wf(),
            final(self).weapons.next_id() == old(self).weapons.next_id(),
            final(self).weapons@ == old(self).weapons@.insert(weapon.id, *weapon),
            !old(self).weapons@.contains_key(weapon.id) ==> final(self).weapons.values()
                == old(self).weapons.values().push(*weapon),
            final(self).players == old(self).players,
            final(self).matches == old(self).matches,
            final(self).leaderboards == old(self).leaderboards,
    {
        self.weapons.put(weapon.duplicate());
    }

    /// Replaces the fields of weapon `id` by the payload's. Snapshots of it
    /// held by players stay as they were.
    pub fn update_weapon_profile(&mut self, id: u64, payload: WeaponProfilePayload) -> (r: Result<Weapon, Error>)
        requires
            old(self).wf(),
        ensures
            final(self).wf(),
            r is Ok <==> valid_weapon_payload(payload) && old(self).weapons@.contains_key(id),
            r matches Ok(w) ==> {
                &&& w == Weapon::spec_from_payload(id, payload)
                &&& final(self).weapons@ == old(self).weapons@.insert(id, w)
                &&& final(self).weapons.next_id() == old(self).weapons.next_id()
                &&& final(self).players == old(self).players
                &&& final(self).matches == old(self).matches
                &&& final(self).leaderboards == old(self).leaderboards
            },
            r matches Err(e) ==> *final(self) == *old(self) && if valid_weapon_payload(payload) {
                e is NotFound
            } else {
                refused_weapon(e, payload)
            },
    {
        match is_valid_weapon_payload(&payload) {
            Ok(()) => {},
            Err(e) => return Err(e),
        }
        if !self.weapons.contains(id) {
            return Err(not_found("Weapon not found"));
        }
        let updated = Weapon::from_payload(id, payload);
        self.do_insert_weapon(&updated);
        Ok(updated)
    }

    /// The weapon stored under `id`.
    pub fn get_weapon(&self, id: u64) -> (r: Result<Weapon, Error>)
        requires
            self.wf(),
        ensures
            r is Ok <==> self.weapons@.contains_key(id),
            r matches Ok(w) ==> w == self.weapons@[id],
            r matches Err(e) ==> e is NotFound,
    {
        match self.weapons.get(id) {
            Some(w) => Ok(w),
            None => Err(not_found("weapon not found")),
        }
    }

    /// All weapons in ascending id order; `NotFound` when there is none.
    pub fn get_all_weapons(&self) -> (r: Result<Vec<Weapon>, Error>)
        requires
            self.wf(),
        ensures
            r is Ok <==> self.weapons.values().len() > 0,
            r matches Ok(v) ==> v@ == self.weapons.values(),
            r matches Err(e) ==> e is NotFound,
    {
        let all = self.weapons.all();
        proof {
            assert(all@ =~= views_of(all@));
        }
        if all.len() > 0 {
            Ok(all)
        } else {
            Err(not_found("No weapons found"))
        }
    }

    /// All weapons, most damaging first; weapons of equal damage stay in
    /// ascending id order. `NotFound` when there is none.
    pub fn rank_weapons_by_damage(&self) -> (r: Result<Vec<Weapon>, Error>)
        requires
            self.wf(),
        ensures
            r is Ok <==> self.weapons.values().len() > 0,
            r matches Ok(v) ==> ranked(v@, self.weapons.values()),
            r matches Err(e) ==> e is NotFound,
    {
        match self.get_all_weapons() {
            Ok(all) => Ok(rank_by_weight(all)),
            Err(e) => Err(e),
        }
    }

    /// Removes weapon `id`, and every snapshot of it from every player.
    pub fn delete_weapon(&mut self, id: u64) -> (r: Result<(), Error>)
        requires
            old(self).wf(),
        ensures
            final(self).wf(),
            r is Ok <==> old(self).weapons@.contains_key(id),
            r is Ok ==> Self::deleted_weapon(*old(self), *final(self), id),
            r matches Err(e) ==> *final(self) == *old(self) && e is NotFound,
    {
        match self.weapons.find(id) {
            Some(i) => {
                self.weapons.remove_at(i);
                self.do_delete_weapon_from_player_profiles(id);
                Ok(())
            },
            None => Err(not_found("weapon not found")),
        }
    }

    /// `after` is `before` with weapon `id` deleted.
    pub open spec fn deleted_weapon(before: Store, after: Store, id: u64) -> bool {
        &&& after.weapons@ == before.weapons@.remove(id)
        &&& after.weapons.next_id() == before.weapons.next_id()
        &&& after.players@ == players_without_weapon(before.players@, id)
        &&& after.players.next_id() == before.players.next_id()
        &&& after.matches == before.matches
        &&& after.leaderboards == before.leaderboards
    }

    /// Takes every snapshot of weapon `weapon_id` out of every player.
    pub fn do_delete_weapon_from_player_profiles(&mut self, weapon_id: u64)
        requires
            old(self).wf(),
        ensures
            final(self).wf(),
            final(self).players@ == players_without_weapon(old(self).players@, weapon_id),
            final(self).players.next_id() == old(self).players.next_id(),
            final(self).weapons == old(self).weapons,
            final(self).matches == old(self).matches,
            final(self).leaderboards == old(self).leaderboards,
    {
        let ghost start = self.players;
        let n = self.players.len();
        let mut i: usize = 0;
        while i < n
            invariant
                self.wf(),
                n == start.rows().len(),
                i <= n,
                self.players.rows().len() == n,
                self.players.next_id() == start.next_id(),
                self.weapons == old(self).weapons,
                self.matches == old(self).matches,
                self.leaderboards == old(self).leaderboards,
                start == old(self).players,
                forall|j: int| 0 <= j < n ==> #[trigger] self.players.rows()[j].key_of() == start.rows()[j].key_of(),
                forall|j: int| 0 <= j < i ==> #[trigger] self.players.rows()[j]@ == without_weapon(start.rows()[j]@, weapon_id),
                forall|j: int| i <= j < n ==> #[trigger] self.players.rows()[j]@ == start.rows()[j]@,
            decreases n - i,
        {
            let p = self.players.row_at(i);
            let kept = weapons_other_than(&p.weapons, weapon_id);
            let stripped = PlayerProfile {
                id: p.id,
                name: p.name.clone(),
                score: p.score,
                level: p.level,
                rank: p.rank,
                weapons: kept,
                match_history: crate::types::duplicate_all(&p.match_history),
            };
            proof {
                let old_mh = self.players.rows()[i as int].match_history@;
                assert forall|j: int| 0 <= j < old_mh.len() implies stripped.match_history@[j] == old_mh[j] by {
                    assert(stripped.match_history@[j]@ == old_mh[j]@);
                }
                assert(stripped.match_history@ =~= old_mh);
                assert(self.players.rows()[i as int]@ == start.rows()[i as int]@);
                assert(stripped@ == without_weapon(start.rows()[i as int]@, weapon_id));
            }
            self.players.replace(i, stripped);
            i = i + 1;
        }
        proof {
            let a = start;
            let b = self.players;
            assert forall|k: u64| #[trigger] b.has(k) == a.has(k) by {
                if a.has(k) {
                    let j = a.index_of(k);
                    assert(b.rows()[j].key_of() == k);
                }
                if b.has(k) {
                    let j = b.index_of(k);
                    assert(a.rows()[j].key_of() == k);
                }
            }
            assert forall|k: u64| #[trigger] b.has(k) implies b@[k] == without_weapon(a@[k], weapon_id) by {
                let j = b.index_of(k);
                b.lemma_index_of(j);
                a.lemma_index_of(j);
            }
            assert(b@ =~= players_without_weapon(a@, weapon_id));
        }
    }

    /// `after` is `before` with a snapshot of weapon `weapon_id` appended to
    /// player `player_id`.
    pub open spec fn attached_weapon(before: Store, after: Store, player_id: u64, weapon_id: u64) -> bool {
        &&& before.players@.contains_key(player_id)
        &&& before.weapons@.contains_key(weapon_id)
        &&& after.players@ == before.players@.insert(
            player_id,
            with_weapon(before.players@[player_id], before.weapons@[weapon_id]),
        )
        &&& after.players.next_id() == before.players.next_id()
        &&& after.weapons == before.weapons
        &&& after.matches == before.matches
        &&& after.leaderboards == before.leaderboards
    }

    /// Appends a snapshot of weapon `weapon_id` to the weapons of player
    /// `player_id`; the same weapon may be attached more than once.
    pub fn add_weapon_to_player_profile(&mut self, player_id: u64, weapon_id: u64) -> (r: Result<(), Error>)
        requires
            old(self).wf(),
        ensures
            final(self).wf(),
            r is Ok <==> old(self).players@.contains_key(player_id) && old(self).weapons@.contains_key(weapon_id),
            r is Ok ==> Self::attached_weapon(*old(self), *final(self), player_id, weapon_id),
            r matches Err(e) ==> *final(self) == *old(self) && e is NotFound,
    {
        let mut player = match self.players.get(player_id) {
            Some(p) => p,
            None => return Err(not_found("player not found")),
        };
        let weapon = match self.weapons.get(weapon_id) {
            Some(w) => w,
            None => return Err(not_found("weapon not found")),
        };
        player.weapons.push(weapon);
        self.do_insert_player(&player);
        Ok(())
    }

    // ----- matches -----

    /// A match payload is accepted when its numbers are non-zero and its
    /// player is stored.
    pub open spec fn valid_match_payload(&self, p: MatchProfilePayload) -> bool {
        match_fields_ok(p) && self.players@.contains_key(p.player_id)
    }

    /// Refuses a match payload with a zero number, or whose player is not
    /// stored.
    pub fn is_valid_match_payload(&self, payload: &MatchProfilePayload) -> (r: Result<(), Error>)
        requires
            self.wf(),
        ensures
            r is Ok <==> self.valid_match_payload(*payload),
            r matches Err(e) ==> if match_fields_ok(*payload) {
                e is NotFound
            } else {
                refused_match(e, *payload)
            },
    {
        match check_match_fields(payload) {
            Ok(()) => {},
            Err(e) => return Err(e),
        }
        if self.players.contains(payload.player_id) {
            Ok(())
        } else {
            Err(not_found("Player does not exist"))
        }
    }

    /// `after` is `before` with match `m` created from `payload`.
    pub open spec fn created_match(before: Store, after: Store, payload: MatchProfilePayload, m: Match) -> bool {
        &&& before.valid_match_payload(payload)
        &&& m == Match::spec_from_payload(before.matches.next_id(), payload)
        &&& Table::<Match>::allocated(before.matches, after.matches, m.id)
        &&& after.matches@ == before.matches@.insert(m.id, m)
        &&& after.matches.values() == before.matches.values().push(m)
        &&& after.players == before.players
        &&& after.weapons == before.weapons
        &&& after.leaderboards == before.leaderboards
    }

    /// Validates the payload and stores a new match under the next match id.
    pub fn create_match(&mut self, payload: MatchProfilePayload) -> (r: Result<Match, Error>)
        requires
            old(self).wf(),
        ensures
            final(self).wf(),
            r is Ok <==> old(self).valid_match_payload(payload) && old(self).matches.next_id() < u64::MAX,
            r matches Ok(m) ==> Self::created_match(*old(self), *final(self), payload, m),
            r matches Err(e) ==> *final(self) == *old(self) && if !match_fields_ok(payload) {
                refused_match(e, payload)
            } else if !old(self).players@.contains_key(payload.player_id) {
                e is NotFound
            } else {
                e is StorageError
            },
    {
        match self.is_valid_match_payload(&payload) {
            Ok(()) => {},
            Err(e) => return Err(e),
        }
        let id = match self.matches.allocate() {
            Some(id) => id,
            None => return Err(exhausted()),
        };
        let m = Match::from_payload(id, payload);
        self.do_insert_match(&m);
        Ok(m)
    }

    /// Stores a copy of `match_profile` under its id, in place of the match
    /// there if any.
    pub fn do_insert_match(&mut self, match_profile: &Match)
        requires
            old(self).wf(),
            old(self).matches.insertable(match_profile.id),
        ensures
            final(self).wf(),
            final(self).matches.next_id() == old(self).matches.next_id(),
            final(self).matches@ == old(self).matches@.insert(match_profile.id, *match_profile),
            !old(self).matches@.contains_key(match_profile.id) ==> final(self).matches.values()
                == old(self).matches.values().push(*match_profile),
            final(self).players == old(self).players,
            final(self).weapons == old(self).weapons,
            final(self).leaderboards == old(self).leaderboards,
    {
        self.matches.put(match_profile.duplicate());
    }

    /// Replaces the fields of match `id` by the payload's. Snapshots of it
    /// held by players stay as they were.
    pub fn update_match(&mut self, id: u64, payload: MatchProfilePayload) -> (r: Result<Match, Error>)
        requires
            old(self).wf(),
        ensures
            final(self).wf(),
            r is Ok <==> old(self).valid_match_payload(payload) && old(self).matches@.contains_key(id),
            r matches Ok(m) ==> {
                &&& m == Match::spec_from_payload(id, payload)
                &&& final(self).matches@ == old(self).matches@.insert(id, m)
                &&& final(self).matches.next_id() == old(self).matches.next_id()
                &&& final(self).players == old(self).players
                &&& final(self).weapons == old(self).weapons
                &&& final(self).leaderboards == old(self).leaderboards
            },
            r matches Err(e) ==> *final(self) == *old(self) && if !match_fields_ok(payload) {
                refused_match(e, payload)
            } else {
                e is NotFound
            },
    {
        match self.is_valid_match_payload(&payload) {
            Ok(()) => {},
            Err(e) => return Err(e),
        }
        if !self.matches.contains(id) {
            return Err(not_found("Match not found"));
        }
        let updated = Match::from_payload(id, payload);
        self.do_insert_match(&updated);
        Ok(updated)
    }

    /// The match stored under `id`.
    pub fn get_match(&self, id: u64) -> (r: Result<Match, Error>)
        requires
            self.wf(),
        ensures
            r is Ok <==> self.matches@.contains_key(id),
            r matches Ok(m) ==> m == self.matches@[id],
            r matches Err(e) ==> e is NotFound,
    {
        match self.matches.get(id) {
            Some(m) => Ok(m),
            None => Err(not_found("match not found")),
        }
    }

    /// All matches in ascending id order; `NotFound` when there is none.
    pub fn get_all_matches(&self) -> (r: Result<Vec<Match>, Error>)
        requires
            self.wf(),
        ensures
            r is Ok <==> self.matches.values().len() > 0,
            r matches Ok(v) ==> v@ == self.matches.values(),
            r matches Err(e) ==> e is NotFound,
    {
        let all = self.matches.all();
        proof {
            assert(all@ =~= views_of(all@));
        }
        if all.len() > 0 {
            Ok(all)
        } else {
            Err(not_found("No matches found"))
        }
    }

    /// Removes match `id`, and every snapshot of it from every player.
    pub fn delete_match(&mut self, id: u64) -> (r: Result<(), Error>)
        requires
            old(self).wf(),
        ensures
            final(self).wf(),
            r is Ok <==> old(self).matches@.contains_key(id),
            r is Ok ==> Self::deleted_match(*old(self), *final(self), id),
            r matches Err(e) ==> *final(self) == *old(self) && e is NotFound,
    {
        match self.matches.find(id) {
            Some(i) => {
                self.matches.remove_at(i);
                self.do_delete_match_from_player_profiles(id);
                Ok(())
            },
            None => Err(not_found("match not found")),
        }
    }

    /// `after` is `before` with match `id` deleted.
    pub open spec fn deleted_match(before: Store, after: Store, id: u64) -> bool {
        &&& after.matches@ == before.matches@.remove(id)
        &&& after.matches.next_id() == before.matches.next_id()
        &&& after.players@ == players_without_match(before.players@, id)
        &&& after.players.next_id() == before.players.next_id()
        &&& after.weapons == before.weapons
        &&& after.leaderboards == before.leaderboards
    }

    /// Takes every snapshot of match `match_id` out of every player.
    pub fn do_delete_match_from_player_profiles(&mut self, match_id: u64)
        requires
            old(self).wf(),
        ensures
            final(self).wf(),
            final(self).players@ == players_without_match(old(self).players@, match_id),
            final(self).players.next_id() == old(self).players.next_id(),
            final(self).weapons == old(self).weapons,
            final(self).matches == old(self).matches,
            final(self).leaderboards == old(self).leaderboards,
    {
        let ghost start = self.players;
        let n = self.players.len();
        let mut i: usize = 0;
        while i < n
            invariant
                self.wf(),
                n == start.rows().len(),
                i <= n,
                self.players.rows().len() == n,
                self.players.next_id() == start.next_id(),
                self.weapons == old(self).weapons,
                self.matches == old(self).matches,
                self.leaderboards == old(self).leaderboards,
                start == old(self).players,
                forall|j: int| 0 <= j < n ==> #[trigger] self.players.rows()[j].key_of() == start.rows()[j].key_of(),
                forall|j: int| 0 <= j < i ==> #[trigger] self.players.rows()[j]@ == without_match(start.rows()[j]@, match_id),
                forall|j: int| i <= j < n ==> #[trigger] self.players.rows()[j]@ == start.rows()[j]@,
            decreases n - i,
        {
            let p = self.players.row_at(i);
            let kept = matches_other_than(&p.match_history, match_id);
            let stripped = PlayerProfile {
                id: p.id,
                name: p.name.clone(),
                score: p.score,
                level: p.level,
                rank: p.rank,
                weapons: crate::types::duplicate_all(&p.weapons),
                match_history: kept,
            };
            proof {
                let old_w = self.players.rows()[i as int].weapons@;
                assert forall|j: int| 0 <= j < old_w.len() implies stripped.weapons@[j] == old_w[j] by {
                    assert(stripped.weapons@[j]@ == old_w[j]@);
                }
                assert(stripped.weapons@ =~= old_w);
                assert(self.players.rows()[i as int]@ == start.rows()[i as int]@);
                assert(stripped@ == without_match(start.rows()[i as int]@, match_id));
            }
            self.players.replace(i, stripped);
            i = i + 1;
        }
        proof {
            let a = start;
            let b = self.players;
            assert forall|k: u64| #[trigger] b.has(k) == a.has(k) by {
                if a.has(k) {
                    let j = a.index_of(k);
                    assert(b.rows()[j].key_of() == k);
                }
                if b.has(k) {
                    let j = b.index_of(k);
                    assert(a.rows()[j].key_of() == k);
                }
            }
            assert forall|k: u64| #[trigger] b.has(k) implies b@[k] == without_match(a@[k], match_id) by {
                let j = b.index_of(k);
                b.lemma_index_of(j);
                a.lemma_index_of(j);
            }
            assert(b@ =~= players_without_match(a@, match_id));
        }
    }

    /// `after` is `before` with a snapshot of match `match_id` appended to
    /// player `player_id`.
    pub open spec fn attached_match(before: Store, after: Store, player_id: u64, match_id: u64) -> bool {
        &&& before.players@.contains_key(player_id)
        &&& before.matches@.contains_key(match_id)
        &&& after.players@ == before.players@.insert(
            player_id,
            with_match(before.players@[player_id], before.matches@[match_id]),
        )
        &&& after.players.next_id() == before.players.next_id()
        &&& after.weapons == before.weapons
        &&& after.matches == before.matches
        &&& after.leaderboards == before.leaderboards
    }

    /// Appends a snapshot of match `match_id` to the match history of player
    /// `player_id`; the same match may be attached more than once.
    pub fn add_match_to_player_profile(&mut self, player_id: u64, match_id: u64) -> (r: Result<(), Error>)
        requires
            old(self).wf(),
        ensures
            final(self).wf(),
            r is Ok <==> old(self).players@.contains_key(player_id) && old(self).matches@.contains_key(match_id),
            r is Ok ==> Self::attached_match(*old(self), *final(self), player_id, match_id),
            r matches Err(e) ==> *final(self) == *old(self) && e is NotFound,
    {
        let mut player = match self.players.get(player_id) {
            Some(p) => p,
            None => return Err(not_found("player not found")),
        };
        let m = match self.matches.get(match_id) {
            Some(m) => m,
            None => return Err(not_found("match not found")),
        };
        player.match_history.push(m);
        self.do_insert_player(&player);
        Ok(())
    }

    /// The mean score of all matches, truncated; `NotFound` when there is
    /// none.
    pub fn get_average_match_score(&self) -> (r: Result<u64, Error>)
        requires
            self.wf(),
        ensures
            r is Ok <==> self.matches.values().len() > 0,
            r matches Ok(a) ==> a == mean_score(self.matches.values()),
            r matches Err(e) ==> e is NotFound,
    {
        match self.get_all_matches() {
            Ok(all) => Ok(average_score(&all)),
            Err(e) => Err(e),
        }
    }

    // ----- leaderboards -----

    /// A leaderboard payload is accepted when its numbers are non-zero and
    /// its player is stored.
    pub open spec fn valid_leaderboard_payload(&self, p: LeaderboardPayload) -> bool {
        leaderboard_fields_ok(p) && self.players@.contains_key(p.player_id)
    }

    /// Refuses a leaderboard payload with a zero number, or whose player is
    /// not stored.
    pub fn is_valid_leaderboard_payload(&self, payload: &LeaderboardPayload) -> (r: Result<(), Error>)
        requires
            self.wf(),
        ensures
            r is Ok <==> self.valid_leaderboard_payload(*payload),
            r matches Err(e) ==> if leaderboard_fields_ok(*payload) {
                e is NotFound
            } else {
                refused_leaderboard(e, *payload)
            },
    {
        match check_leaderboard_fields(payload) {
            Ok(()) => {},
            Err(e) => return Err(e),
        }
        if self.players.contains(payload.player_id) {
            Ok(())
        } else {
            Err(not_found("Player does not exist"))
        }
    }

    /// `after` is `before` with entry `l` created from `payload`.
    pub open spec fn created_leaderboard(before: Store, after: Store, payload: LeaderboardPayload, l: Leaderboard) -> bool {
        &&& before.valid_leaderboard_payload(payload)
        &&& l == Leaderboard::spec_from_payload(before.leaderboards.next_id(), payload)
        &&& Table::<Leaderboard>::allocated(before.leaderboards, after.leaderboards, l.id)
        &&& after.leaderboards@ == before.leaderboards@.insert(l.id, l)
        &&& after.leaderboards.values() == before.leaderboards.values().push(l)
        &&& after.players == before.players
        &&& after.weapons == before.weapons
        &&& after.matches == before.matches
    }

    /// Validates the payload and stores a new leaderboard entry under the
    /// next leaderboard id.
    pub fn create_leaderboard(&mut self, payload: LeaderboardPayload) -> (r: Result<Leaderboard, Error>)
        requires
            old(self).wf(),
        ensures
            final(self).wf(),
            r is Ok <==> old(self).valid_leaderboard_payload(payload) && old(self).leaderboards.next_id() < u64::MAX,
            r matches Ok(l) ==> Self::created_leaderboard(*old(self), *final(self), payload, l),
            r matches Err(e) ==> *final(self) == *old(self) && if !leaderboard_fields_ok(payload) {
                refused_leaderboard(e, payload)
            } else if !old(self).players@.contains_key(payload.player_id) {
                e is NotFound
            } else {
                e is StorageError
            },
    {
        match self.is_valid_leaderboard_payload(&payload) {
            Ok(()) => {},
            Err(e) => return Err(e),
        }
        let id = match self.leaderboards.allocate() {
            Some(id) => id,
            None => return Err(exhausted()),
        };
        let l = Leaderboard::from_payload(id, payload);
        self.do_insert_leaderboard(&l);
        Ok(l)
    }

    /// Stores a copy of `leaderboard` under its id, in place of the entry
    /// there if any.
    pub fn do_insert_leaderboard(&mut self, leaderboard: &Leaderboard)
        requires
            old(self).wf(),
            old(self).leaderboards.insertable(leaderboard.id),
        ensures
            final(self).wf(),
            final(self).leaderboards.next_id() == old(self).leaderboards.next_id(),
            final(self).leaderboards@ == old(self).leaderboards@.insert(leaderboard.id, *leaderboard),
            !old(self).leaderboards@.contains_key(leaderboard.id) ==> final(self).leaderboards.values()
                == old(self).leaderboards.values().push(*leaderboard),
            final(self).players == old(self).players,
            final(self).weapons == old(self).weapons,
            final(self).matches == old(self).matches,
    {
        self.leaderboards.put(leaderboard.duplicate());
    }

    /// Replaces the fields of leaderboard entry `id` by the payload's.
    pub fn update_leaderboard(&mut self, id: u64, payload: LeaderboardPayload) -> (r: Result<Leaderboard, Error>)
        requires
            old(self).wf(),
        ensures
            final(self).wf(),
            r is Ok <==> old(self).valid_leaderboard_payload(payload) && old(self).leaderboards@.contains_key(id),
            r matches Ok(l) ==> {
                &&& l == Leaderboard::spec_from_payload(id, payload)
                &&& final(self).leaderboards@ == old(self).leaderboards@.insert(id, l)
                &&& final(self).leaderboards.next_id() == old(self).leaderboards.next_id()
                &&& final(self).players == old(self).players
                &&& final(self).weapons == old(self).weapons
                &&& final(self).matches == old(self).matches
            },
            r matches Err(e) ==> *final(self) == *old(self) && if !leaderboard_fields_ok(payload) {
                refused_leaderboard(e, payload)
            } else {
                e is NotFound
            },
    {
        match self.is_valid_leaderboard_payload(&payload) {
            Ok(()) => {},
            Err(e) => return Err(e),
        }
        if !self.leaderboards.contains(id) {
            return Err(not_found("Leaderboard not found"));
        }
        let updated = Leaderboard::from_payload(id, payload);
        self.do_insert_leaderboard(&updated);
        Ok(updated)
    }

    /// The leaderboard entry stored under `id`.
    pub fn get_leaderboard(&self, id: u64) -> (r: Result<Leaderboard, Error>)
        requires
            self.wf(),
        ensures
            r is Ok <==> self.leaderboards@.contains_key(id),
            r matches Ok(l) ==> l == self.leaderboards@[id],
            r matches Err(e) ==> e is NotFound,
    {
        match self.leaderboards.get(id) {
            Some(l) => Ok(l),
            None => Err(not_found("leaderboard not found")),
        }
    }

    /// All leaderboard entries in ascending id order; `NotFound` when there
    /// is none.
    pub fn get_all_leaderboards(&self) -> (r: Result<Vec<Leaderboard>, Error>)
        requires
            self.wf(),
        ensures
            r is Ok <==> self.leaderboards.values().len() > 0,
            r matches Ok(v) ==> v@ == self.leaderboards.values(),
            r matches Err(e) ==> e is NotFound,
    {
        let all = self.leaderboards.all();
        proof {
            assert(all@ =~= views_of(all@));
        }
        if all.len() > 0 {
            Ok(all)
        } else {
            Err(not_found("No leaderboards found"))
        }
    }

    /// Removes leaderboard entry `id`.
    pub fn delete_leaderboard(&mut self, id: u64) -> (r: Result<(), Error>)
        requires
            old(self).wf(),
        ensures
            final(self).wf(),
            r is Ok <==> old(self).leaderboards@.contains_key(id),
            r is Ok ==> {
                &&& final(self).leaderboards@ == old(self).leaderboards@.remove(id)
                &&& final(self).leaderboards.next_id() == old(self).leaderboards.next_id()
                &&& final(self).players == old(self).players
                &&& final(self).weapons == old(self).weapons
                &&& final(self).matches == old(self).matches
            },
            r matches Err(e) ==> *final(self) == *old(self) && e is NotFound,
    {
        match self.leaderboards.find(id) {
            Some(i) => {
                self.leaderboards.remove_at(i);
                Ok(())
            },
            None => Err(not_found("leaderboard not found")),
        }
    }

    /// All leaderboard entries, highest score first; entries of equal score
    /// stay in ascending id order. `NotFound` when there is none.
    pub fn sort_leaderboard_by_score(&self) -> (r: Result<Vec<Leaderboard>, Error>)
        requires
            self.wf(),
        ensures
            r is Ok <==> self.leaderboards.values().len() > 0,
            r matches Ok(v) ==> ranked(v@, self.leaderboards.values()),
            r matches Err(e) ==> e is NotFound,
    {
        match self.get_all_leaderboards() {
            Ok(all) => Ok(rank_by_weight(all)),
            Err(e) => Err(e),
        }
    }
}

} // verus!
