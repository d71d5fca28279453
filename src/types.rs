use vstd::prelude::*;

verus! {

/// A weapon as held in the weapon table, or as a snapshot inside a player.
#[derive(Clone, Debug, PartialEq, Eq)]
pub struct Weapon {
    pub id: u64,
    pub name: String,
    pub damage: u64,
    pub ammo: u64,
    pub range: u64,
    pub fire_rate: u64,
    pub reload_time: u64,
    pub accuracy: u64,
    pub price: u64,
    pub level: u64,
    pub rank: u64,
}

/// The caller-supplied fields of a weapon.
#[derive(Clone, Debug, PartialEq, Eq)]
pub struct WeaponProfilePayload {
    pub name: String,
    pub damage: u64,
    pub ammo: u64,
    pub range: u64,
    pub fire_rate: u64,
    pub reload_time: u64,
    pub accuracy: u64,
    pub price: u64,
    pub level: u64,
    pub rank: u64,
}

/// A played match. `player_id` named an existing player when the match was
/// accepted; nothing keeps it so afterwards.
#[derive(Clone, Debug, PartialEq, Eq)]
pub struct Match {
    pub id: u64,
    pub player_id: u64,
    pub weapon_id: u64,
    pub score: u64,
    pub level: u64,
    pub rank: u64,
    pub time: u64,
    pub result: String,
}

/// The caller-supplied fields of a match.
#[derive(Clone, Debug, PartialEq, Eq)]
pub struct MatchProfilePayload {
    pub player_id: u64,
    pub weapon_id: u64,
    pub score: u64,
    pub level: u64,
    pub rank: u64,
    pub time: u64,
    pub result: String,
}

/// A leaderboard entry for one player.
#[derive(Clone, Debug, PartialEq, Eq)]
pub struct Leaderboard {
    pub id: u64,
    pub player_id: u64,
    pub score: u64,
    pub level: u64,
    pub rank: u64,
}

/// The caller-supplied fields of a leaderboard entry.
#[derive(Clone, Debug, PartialEq, Eq)]
pub struct LeaderboardPayload {
    pub player_id: u64,
    pub score: u64,
    pub level: u64,
    pub rank: u64,
}

/// A player, with the snapshots of weapons and matches attached to it.
#[derive(Clone, Debug, PartialEq, Eq)]
pub struct PlayerProfile {
    pub id: u64,
    pub name: String,
    pub score: u64,
    pub level: u64,
    pub rank: u64,
    pub weapons: Vec<Weapon>,
    pub match_history: Vec<Match>,
}

/// The caller-supplied fields of a player.
#[derive(Clone, Debug, PartialEq, Eq)]
pub struct PlayerProfilePayload {
    pub name: String,
    pub score: u64,
    pub level: u64,
    pub rank: u64,
}

/// The value of a player record, with its embedded lists as sequences.
pub struct PlayerProfileView {
    pub id: u64,
    pub name: String,
    pub score: u64,
    pub level: u64,
    pub rank: u64,
    pub weapons: Seq<Weapon>,
    pub match_history: Seq<Match>,
}

impl View for PlayerProfile {
    type V = PlayerProfileView;

    open spec fn view(&self) -> PlayerProfileView {
        PlayerProfileView {
            id: self.id,
            name: self.name,
            score: self.score,
            level: self.level,
            rank: self.rank,
            weapons: self.weapons@,
            match_history: self.match_history@,
        }
    }
}

impl View for Weapon {
    type V = Weapon;

    open spec fn view(&self) -> Weapon {
        *self
    }
}

impl View for Match {
    type V = Match;

    open spec fn view(&self) -> Match {
        *self
    }
}

impl View for Leaderboard {
    type V = Leaderboard;

    open spec fn view(&self) -> Leaderboard {
        *self
    }
}

/// Why an operation was refused.
#[derive(Clone, Debug, PartialEq, Eq)]
pub enum Error {
    /// The requested id, or a referenced player id, is not in its table; or
    /// the table that a query reads is empty.
    NotFound { msg: String },
    InvalidPlayerPayload { msg: String, payload: PlayerProfilePayload },
    InvalidWeaponPayload { msg: String, payload: WeaponProfilePayload },
    InvalidMatchPayload { msg: String, payload: MatchProfilePayload },
    InvalidLeaderboardPayload { msg: String, payload: LeaderboardPayload },
    /// A table's id counter has no fresh value left.
    StorageError { msg: String },
}

/// A record that a table holds: it has a key, and can be copied value for value.
pub trait Record: Sized + View {
    spec fn key_of(&self) -> u64;

    fn key(&self) -> (r: u64)
        ensures
            r == self.key_of(),
    ;

    fn duplicate(&self) -> (r: Self)
        ensures
            r@ == self@,
            r.key_of() == self.key_of(),
    ;
}

impl Weapon {
    /// A weapon under `id` with the payload's fields.
    pub open spec fn spec_from_payload(id: u64, p: WeaponProfilePayload) -> Weapon {
        Weapon {
            id,
            name: p.name,
            damage: p.damage,
            ammo: p.ammo,
            range: p.range,
            fire_rate: p.fire_rate,
            reload_time: p.reload_time,
            accuracy: p.accuracy,
            price: p.price,
            level: p.level,
            rank: p.rank,
        }
    }

    pub fn from_payload(id: u64, p: WeaponProfilePayload) -> (r: Weapon)
        ensures
            r == Weapon::spec_from_payload(id, p),
    {
        Weapon {
            id,
            name: p.name,
            damage: p.damage,
            ammo: p.ammo,
            range: p.range,
            fire_rate: p.fire_rate,
            reload_time: p.reload_time,
            accuracy: p.accuracy,
            price: p.price,
            level: p.level,
            rank: p.rank,
        }
    }
}

impl Record for Weapon {
    open spec fn key_of(&self) -> u64 {
        self.id
    }

    fn key(&self) -> (r: u64) {
        self.id
    }

    fn duplicate(&self) -> (r: Weapon) {
        Weapon {
            id: self.id,
            name: self.name.clone(),
            damage: self.damage,
            ammo: self.ammo,
            range: self.range,
            fire_rate: self.fire_rate,
            reload_time: self.reload_time,
            accuracy: self.accuracy,
            price: self.price,
            level: self.level,
            rank: self.rank,
        }
    }
}

impl Match {
    /// A match under `id` with the payload's fields.
    pub open spec fn spec_from_payload(id: u64, p: MatchProfilePayload) -> Match {
        Match {
            id,
            player_id: p.player_id,
            weapon_id: p.weapon_id,
            score: p.score,
            level: p.level,
            rank: p.rank,
            time: p.time,
            result: p.result,
        }
    }

    pub fn from_payload(id: u64, p: MatchProfilePayload) -> (r: Match)
        ensures
            r == Match::spec_from_payload(id, p),
    {
        Match {
            id,
            player_id: p.player_id,
            weapon_id: p.weapon_id,
            score: p.score,
            level: p.level,
            rank: p.rank,
            time: p.time,
            result: p.result,
        }
    }
}

impl Record for Match {
    open spec fn key_of(&self) -> u64 {
        self.id
    }

    fn key(&self) -> (r: u64) {
        self.id
    }

    fn duplicate(&self) -> (r: Match) {
        Match {
            id: self.id,
            player_id: self.player_id,
            weapon_id: self.weapon_id,
            score: self.score,
            level: self.level,
            rank: self.rank,
            time: self.time,
            result: self.result.clone(),
        }
    }
}

impl Leaderboard {
    /// A leaderboard entry under `id` with the payload's fields.
    pub open spec fn spec_from_payload(id: u64, p: LeaderboardPayload) -> Leaderboard {
        Leaderboard { id, player_id: p.player_id, score: p.score, level: p.level, rank: p.rank }
    }

    pub fn from_payload(id: u64, p: LeaderboardPayload) -> (r: Leaderboard)
        ensures
            r == Leaderboard::spec_from_payload(id, p),
    {
        Leaderboard { id, player_id: p.player_id, score: p.score, level: p.level, rank: p.rank }
    }
}

impl Record for Leaderboard {
    open spec fn key_of(&self) -> u64 {
        self.id
    }

    fn key(&self) -> (r: u64) {
        self.id
    }

    fn duplicate(&self) -> (r: Leaderboard) {
        Leaderboard {
            id: self.id,
            player_id: self.player_id,
            score: self.score,
            level: self.level,
            rank: self.rank,
        }
    }
}

/// A copy of each element of `v`, in order.
pub fn duplicate_all<T: Record>(v: &Vec<T>) -> (r: Vec<T>)
    ensures
        r@.len() == v@.len(),
        forall|i: int| 0 <= i < v@.len() ==> #[trigger] r@[i]@ == v@[i]@,
        forall|i: int| 0 <= i < v@.len() ==> #[trigger] r@[i].key_of() == v@[i].key_of(),
{
    let mut r: Vec<T> = Vec::new();
    let mut i: usize = 0;
    while i < v.len()
        invariant
            i <= v@.len(),
            r@.len() == i,
            forall|j: int| 0 <= j < i ==> #[trigger] r@[j]@ == v@[j]@,
            forall|j: int| 0 <= j < i ==> #[trigger] r@[j].key_of() == v@[j].key_of(),
        decreases v@.len() - i,
    {
        r.push(v[i].duplicate());
        i = i + 1;
    }
    r
}

impl PlayerProfile {
    /// A player under `id` with the payload's fields and the given lists.
    pub open spec fn spec_from_payload(
        id: u64,
        p: PlayerProfilePayload,
        weapons: Seq<Weapon>,
        match_history: Seq<Match>,
    ) -> PlayerProfileView {
        PlayerProfileView {
            id,
            name: p.name,
            score: p.score,
            level: p.level,
            rank: p.rank,
            weapons,
            match_history,
        }
    }

    pub fn from_payload(
        id: u64,
        p: PlayerProfilePayload,
        weapons: Vec<Weapon>,
        match_history: Vec<Match>,
    ) -> (r: PlayerProfile)
        ensures
            r@ == PlayerProfile::spec_from_payload(id, p, weapons@, match_history@),
    {
        PlayerProfile {
            id,
            name: p.name,
            score: p.score,
            level: p.level,
            rank: p.rank,
            weapons,
            match_history,
        }
    }
}

impl Record for PlayerProfile {
    open spec fn key_of(&self) -> u64 {
        self.id
    }

    fn key(&self) -> (r: u64) {
        self.id
    }

    fn duplicate(&self) -> (r: PlayerProfile) {
        let weapons = duplicate_all(&self.weapons);
        let match_history = duplicate_all(&self.match_history);
        proof {
            assert forall|i: int| 0 <= i < weapons@.len() implies weapons@[i]
                == self.weapons@[i] by {
                assert(weapons@[i]@ == self.weapons@[i]@);
            }
            assert forall|i: int| 0 <= i < match_history@.len() implies match_history@[i]
                == self.match_history@[i] by {
                assert(match_history@[i]@ == self.match_history@[i]@);
            }
            assert(weapons@ =~= self.weapons@);
            assert(match_history@ =~= self.match_history@);
        }
        PlayerProfile {
            id: self.id,
            name: self.name.clone(),
            score: self.score,
            level: self.level,
            rank: self.rank,
            weapons,
            match_history,
        }
    }
}

} // verus!
