use vstd::prelude::*;
use crate::text::{blank, is_blank};
use crate::types::{Error, LeaderboardPayload, MatchProfilePayload, PlayerProfilePayload, WeaponProfilePayload};

verus! {

/// A player payload has a name that is not blank and non-zero numbers.
pub open spec fn player_payload_ok(name_blank: bool, p: PlayerProfilePayload) -> bool {
    !name_blank && p.score != 0 && p.level != 0 && p.rank != 0
}

pub open spec fn valid_player_payload(p: PlayerProfilePayload) -> bool {
    player_payload_ok(is_blank(p.name@), p)
}

/// A weapon payload has a name that is not blank and non-zero numbers.
pub open spec fn weapon_payload_ok(name_blank: bool, p: WeaponProfilePayload) -> bool {
    &&& !name_blank
    &&& p.damage != 0 && p.ammo != 0 && p.range != 0 && p.fire_rate != 0
    &&& p.reload_time != 0 && p.accuracy != 0 && p.price != 0 && p.level != 0 && p.rank != 0
}

pub open spec fn valid_weapon_payload(p: WeaponProfilePayload) -> bool {
    weapon_payload_ok(is_blank(p.name@), p)
}

/// The numbers of a match payload are non-zero.
pub open spec fn match_fields_ok(p: MatchProfilePayload) -> bool {
    p.score != 0 && p.level != 0 && p.rank != 0 && p.time != 0
}

/// The numbers of a leaderboard payload are non-zero.
pub open spec fn leaderboard_fields_ok(p: LeaderboardPayload) -> bool {
    p.score != 0 && p.level != 0 && p.rank != 0
}

/// `e` refuses the player payload `p` and carries it.
pub open spec fn refused_player(e: Error, p: PlayerProfilePayload) -> bool {
    e matches Error::InvalidPlayerPayload { payload: q, .. } && q == p
}

/// `e` refuses the weapon payload `p` and carries it.
pub open spec fn refused_weapon(e: Error, p: WeaponProfilePayload) -> bool {
    e matches Error::InvalidWeaponPayload { payload: q, .. } && q == p
}

/// `e` refuses the match payload `p` and carries it.
pub open spec fn refused_match(e: Error, p: MatchProfilePayload) -> bool {
    e matches Error::InvalidMatchPayload { payload: q, .. } && q == p
}

/// `e` refuses the leaderboard payload `p` and carries it.
pub open spec fn refused_leaderboard(e: Error, p: LeaderboardPayload) -> bool {
    e matches Error::InvalidLeaderboardPayload { payload: q, .. } && q == p
}

pub fn message(s: &str) -> (r: String)
    ensures
        r@ == s@,
{
    String::from_str(s)
}

impl PlayerProfilePayload {
    pub fn duplicate(&self) -> (r: Self)
        ensures
            r == *self,
    {
        PlayerProfilePayload {
            name: self.name.clone(),
            score: self.score,
            level: self.level,
            rank: self.rank,
        }
    }
}

impl WeaponProfilePayload {
    pub fn duplicate(&self) -> (r: Self)
        ensures
            r == *self,
    {
        WeaponProfilePayload {
            name: self.name.clone(),
            damage: self.damage,
            ammo: self.ammo,
            range: self.range,
            fire_rate: self.fire_rate,
            reload_time: self.reload_time,
            accuracy: self.accuracy,
            price: self.price,
            level: self.level,
            rank: self.rank,
        }
    }
}

impl MatchProfilePayload {
    pub fn duplicate(&self) -> (r: Self)
        ensures
            r == *self,
    {
        MatchProfilePayload {
            player_id: self.player_id,
            weapon_id: self.weapon_id,
            score: self.score,
            level: self.level,
            rank: self.rank,
            time: self.time,
            result: self.result.clone(),
        }
    }
}

impl LeaderboardPayload {
    pub fn duplicate(&self) -> (r: Self)
        ensures
            r == *self,
    {
        LeaderboardPayload {
            player_id: self.player_id,
            score: self.score,
            level: self.level,
            rank: self.rank,
        }
    }
}

/// Checks a player payload, given whether its name is blank.
pub fn check_player_fields(name_blank: bool, p: &PlayerProfilePayload) -> (r: Result<(), Error>)
    ensures
        r is Ok <==> player_payload_ok(name_blank, *p),
        r matches Err(e) ==> refused_player(e, *p),
{
    if name_blank || p.score == 0 || p.level == 0 || p.rank == 0 {
        Err(
            Error::InvalidPlayerPayload {
                msg: message("Player profile cannot be initialized with default values"),
                payload: p.duplicate(),
            },
        )
    } else {
        Ok(())
    }
}

/// Refuses a player payload whose name is blank or whose numbers are zero.
pub fn is_valid_player_payload(p: &PlayerProfilePayload) -> (r: Result<(), Error>)
    ensures
        r is Ok <==> valid_player_payload(*p),
        r matches Err(e) ==> refused_player(e, *p),
{
    check_player_fields(blank(&p.name), p)
}

/// Checks a weapon payload, given whether its name is blank.
pub fn check_weapon_fields(name_blank: bool, p: &WeaponProfilePayload) -> (r: Result<(), Error>)
    ensures
        r is Ok <==> weapon_payload_ok(name_blank, *p),
        r matches Err(e) ==> refused_weapon(e, *p),
{
    if name_blank || p.damage == 0 || p.ammo == 0 || p.range == 0 || p.fire_rate == 0
        || p.reload_time == 0 || p.accuracy == 0 || p.price == 0 || p.level == 0 || p.rank == 0 {
        Err(
            Error::InvalidWeaponPayload {
                msg: message("Weapon profile cannot be initialized with default values"),
                payload: p.duplicate(),
            },
        )
    } else {
        Ok(())
    }
}

/// Refuses a weapon payload whose name is blank or whose numbers are zero.
pub fn is_valid_weapon_payload(p: &WeaponProfilePayload) -> (r: Result<(), Error>)
    ensures
        r is Ok <==> valid_weapon_payload(*p),
        r matches Err(e) ==> refused_weapon(e, *p),
{
    check_weapon_fields(blank(&p.name), p)
}

/// Refuses a match payload with a zero number.
pub fn check_match_fields(p: &MatchProfilePayload) -> (r: Result<(), Error>)
    ensures
        r is Ok <==> match_fields_ok(*p),
        r matches Err(e) ==> refused_match(e, *p),
{
    if p.score == 0 || p.level == 0 || p.rank == 0 || p.time == 0 {
        Err(
            Error::InvalidMatchPayload {
                msg: message("Match cannot be initialized with default values"),
                payload: p.duplicate(),
            },
        )
    } else {
        Ok(())
    }
}

/// Refuses a leaderboard payload with a zero number.
pub fn check_leaderboard_fields(p: &LeaderboardPayload) -> (r: Result<(), Error>)
    ensures
        r is Ok <==> leaderboard_fields_ok(*p),
        r matches Err(e) ==> refused_leaderboard(e, *p),
{
    if p.score == 0 || p.level == 0 || p.rank == 0 {
        Err(
            Error::InvalidLeaderboardPayload {
                msg: message("Leaderboard cannot be initialized with default values"),
                payload: p.duplicate(),
            },
        )
    } else {
        Ok(())
    }
}

} // verus!
