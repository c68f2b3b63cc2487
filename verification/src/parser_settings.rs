use vstd::prelude::*;

use crate::error::DemoParserError;
use crate::prop_controller::text_contains;
use crate::strings::{str_contains, str_eq, strip_prefix, has_prefix};
use vstd::utf8::encode_utf8;

verus! {

/// Entity ids of the three team entities, once they are known.
#[derive(Debug, Clone)]
pub struct Teams {
    pub team1_entid: Option<i32>,
    pub team2_entid: Option<i32>,
    pub team3_entid: Option<i32>,
}

impl Teams {
    pub fn new() -> (res: Self)
        ensures
            res.team1_entid is None,
            res.team2_entid is None,
            res.team3_entid is None,
    {
        Teams { team1_entid: None, team2_entid: None, team3_entid: None }
    }
}

#[derive(Debug, Clone)]
pub struct ChatMessageRecord {
    pub entity_idx: Option<i32>,
    pub param1: Option<String>,
    pub param2: Option<String>,
    pub param3: Option<String>,
    pub param4: Option<String>,
}

#[derive(Debug, Clone)]
pub struct EconItem {
    pub account_id: Option<u32>,
    pub item_id: Option<u64>,
    pub def_index: Option<u32>,
    pub paint_index: Option<u32>,
    pub rarity: Option<u32>,
    pub quality: Option<u32>,
    pub paint_wear: Option<u32>,
    pub paint_seed: Option<u32>,
    pub quest_id: Option<u32>,
    pub dropreason: Option<u32>,
    pub custom_name: Option<String>,
    pub inventory: Option<u32>,
    pub ent_idx: Option<i32>,
    pub steamid: Option<u64>,
    pub item_name: Option<String>,
    pub skin_name: Option<String>,
}

#[derive(Debug, Clone)]
pub struct PlayerEndMetaData {
    pub steamid: Option<u64>,
    pub name: Option<String>,
    pub team_number: Option<i32>,
}

/// Ids of the properties that the parser itself needs, once they are known.
#[derive(Debug, Clone)]
pub struct SpecialIDs {
    pub teamnum: Option<u32>,
    pub player_name: Option<u32>,
    pub steamid: Option<u32>,
    pub player_pawn: Option<u32>,

    pub player_team_pointer: Option<u32>,
    pub weapon_owner_pointer: Option<u32>,
    pub team_team_num: Option<u32>,

    pub cell_x_player: Option<u32>,
    pub cell_y_player: Option<u32>,
    pub cell_z_player: Option<u32>,

    pub cell_x_offset_player: Option<u32>,
    pub cell_y_offset_player: Option<u32>,
    pub cell_z_offset_player: Option<u32>,
    pub active_weapon: Option<u32>,
    pub item_def: Option<u32>,

    pub m_vec_x_grenade: Option<u32>,
    pub m_vec_y_grenade: Option<u32>,
    pub m_vec_z_grenade: Option<u32>,

    pub m_cell_x_grenade: Option<u32>,
    pub m_cell_y_grenade: Option<u32>,
    pub m_cell_z_grenade: Option<u32>,

    pub grenade_owner_id: Option<u32>,
    pub buttons: Option<u32>,
    pub eye_angles: Option<u32>,

    pub orig_own_low: Option<u32>,
    pub orig_own_high: Option<u32>,
    pub life_state: Option<u32>,

    pub h_owner_entity: Option<u32>,
    pub agent_skin_idx: Option<u32>,
    pub total_rounds_played: Option<u32>,

    pub round_win_reason: Option<u32>,
    pub round_start_count: Option<u32>,
    pub round_end_count: Option<u32>,
    pub match_end_count: Option<u32>,

    pub is_incendiary_grenade: Option<u32>,
    pub sellback_entry_def_idx: Option<u32>,
    pub sellback_entry_n_cost: Option<u32>,
    pub sellback_entry_prev_armor: Option<u32>,
    pub sellback_entry_prev_helmet: Option<u32>,
    pub sellback_entry_h_item: Option<u32>,

    pub weapon_purchase_count: Option<u32>,
    pub in_buy_zone: Option<u32>,
    pub custom_name: Option<u32>,

    pub is_airborn: Option<u32>,
    pub initial_velocity: Option<u32>,
}

impl SpecialIDs {
    pub fn new() -> (res: Self)
        ensures
            res.teamnum is None,
            res.player_name is None,
            res.steamid is None,
            res.player_pawn is None,
            res.player_team_pointer is None,
            res.weapon_owner_pointer is None,
            res.team_team_num is None,
            res.cell_x_player is None,
            res.cell_y_player is None,
            res.cell_z_player is None,
            res.cell_x_offset_player is None,
            res.cell_y_offset_player is None,
            res.cell_z_offset_player is None,
            res.active_weapon is None,
            res.item_def is None,
            res.m_vec_x_grenade is None,
            res.m_vec_y_grenade is None,
            res.m_vec_z_grenade is None,
            res.m_cell_x_grenade is None,
            res.m_cell_y_grenade is None,
            res.m_cell_z_grenade is None,
            res.grenade_owner_id is None,
            res.buttons is None,
            res.eye_angles is None,
            res.orig_own_low is None,
            res.orig_own_high is None,
            res.life_state is None,
            res.h_owner_entity is None,
            res.agent_skin_idx is None,
            res.total_rounds_played is None,
            res.round_win_reason is None,
            res.round_start_count is None,
            res.round_end_count is None,
            res.match_end_count is None,
            res.is_incendiary_grenade is None,
            res.sellback_entry_def_idx is None,
            res.sellback_entry_n_cost is None,
            res.sellback_entry_prev_armor is None,
            res.sellback_entry_prev_helmet is None,
            res.sellback_entry_h_item is None,
            res.weapon_purchase_count is None,
            res.in_buy_zone is None,
            res.custom_name is None,
            res.is_airborn is None,
            res.initial_velocity is None,
    {
        SpecialIDs {
            teamnum: None,
            player_name: None,
            steamid: None,
            player_pawn: None,
            player_team_pointer: None,
            weapon_owner_pointer: None,
            team_team_num: None,
            cell_x_player: None,
            cell_y_player: None,
            cell_z_player: None,
            cell_x_offset_player: None,
            cell_y_offset_player: None,
            cell_z_offset_player: None,
            active_weapon: None,
            item_def: None,
            m_vec_x_grenade: None,
            m_vec_y_grenade: None,
            m_vec_z_grenade: None,
            m_cell_x_grenade: None,
            m_cell_y_grenade: None,
            m_cell_z_grenade: None,
            grenade_owner_id: None,
            buttons: None,
            eye_angles: None,
            orig_own_low: None,
            orig_own_high: None,
            life_state: None,
            h_owner_entity: None,
            agent_skin_idx: None,
            total_rounds_played: None,
            round_win_reason: None,
            round_start_count: None,
            round_end_count: None,
            match_end_count: None,
            is_incendiary_grenade: None,
            sellback_entry_def_idx: None,
            sellback_entry_n_cost: None,
            sellback_entry_prev_armor: None,
            sellback_entry_prev_helmet: None,
            sellback_entry_h_item: None,
            weapon_purchase_count: None,
            in_buy_zone: None,
            custom_name: None,
            is_airborn: None,
            initial_velocity: None,
        }
    }
}

/// Some name in `props` contains `pat`.
pub open spec fn any_contains(props: Seq<String>, pat: Seq<char>) -> bool {
    exists|i: int| 0 <= i < props.len() && text_contains(props[i]@, pat)
}

/// Whether `props` holds a name that contains `pat`.
fn any_prop_contains(props: &[String], pat: &str) -> (res: bool)
    ensures
        res == any_contains(props@, pat@),
{
    let mut i: usize = 0;
    while i < props.len()
        invariant
            i <= props@.len(),
            forall|j: int| 0 <= j < i ==> !text_contains(#[trigger] props@[j]@, pat@),
        decreases props@.len() - i,
    {
        if str_contains(props[i].as_str(), pat) {
            return true;
        }
        i += 1;
    }
    false
}

/// Velocity is derived from positions, so it is needed when a wanted property
/// name contains "velo".
pub fn needs_velocity(props: &[String]) -> (res: bool)
    ensures
        res == any_contains(props@, "velo"@),
{
    any_prop_contains(props, "velo")
}

/// Whether a wanted property comes from user commands ("usercmd" in its name).
pub fn contains_usercmd_prop(names: &[String]) -> (res: bool)
    ensures
        res == any_contains(names@, "usercmd"@),
{
    any_prop_contains(names, "usercmd")
}

/// Some element of `names` has the text `name`.
pub open spec fn names_contain(names: Seq<String>, name: Seq<char>) -> bool {
    exists|i: int| 0 <= i < names.len() && names[i]@ == name
}

/// Properties can be collected by several threads at once unless one of them
/// is among `non_multithreadable_props` (the properties whose values depend on
/// earlier ticks).
pub fn check_multithreadability(player_props: &[String], non_multithreadable_props: &[String]) -> (res: bool)
    ensures
        res == !(exists|i: int| 0 <= i < player_props@.len()
            && names_contain(non_multithreadable_props@, #[trigger] player_props@[i]@)),
{
    let mut i: usize = 0;
    while i < player_props.len()
        invariant
            i <= player_props@.len(),
            forall|j: int| 0 <= j < i ==> !names_contain(non_multithreadable_props@, #[trigger] player_props@[j]@),
        decreases player_props@.len() - i,
    {
        let mut k: usize = 0;
        while k < non_multithreadable_props.len()
            invariant
                i < player_props@.len(),
                k <= non_multithreadable_props@.len(),
                forall|j: int| 0 <= j < k ==> #[trigger] non_multithreadable_props@[j]@ != player_props@[i as int]@,
            decreases non_multithreadable_props@.len() - k,
        {
            if str_eq(non_multithreadable_props[k].as_str(), player_props[i].as_str()) {
                return false;
            }
            k += 1;
        }
        i += 1;
    }
    true
}

/// The text that `name` is mapped to by the first entry of `mapping` whose key
/// has that text, if any.
pub open spec fn lookup_name(mapping: Seq<(String, String)>, name: Seq<char>) -> Option<Seq<char>>
    decreases mapping.len(),
{
    if mapping.len() == 0 {
        None
    } else if mapping[0].0@ == name {
        Some(mapping[0].1@)
    } else {
        lookup_name(mapping.drop_first(), name)
    }
}

/// A user-friendly property name without its "Weapon." or "Grenade." prefix.
pub open spec fn strip_friendly_prefix(name: Seq<char>) -> Seq<char> {
    if has_prefix(name, "Grenade."@) {
        name.skip("Grenade."@.len() as int)
    } else if has_prefix(name, "Weapon."@) {
        name.skip("Weapon."@.len() as int)
    } else {
        name
    }
}

/// The real name behind a user-friendly property name.
pub open spec fn real_name(mapping: Seq<(String, String)>, name: Seq<char>) -> Seq<char> {
    let n = strip_friendly_prefix(name);
    match lookup_name(mapping, n) {
        Some(r) => r,
        None => n,
    }
}

/// The entry of `mapping` for `name`.
fn lookup_friendly_name<'a>(mapping: &'a [(String, String)], name: &str) -> (res: Option<&'a String>)
    ensures
        match lookup_name(mapping@, name@) {
            Some(r) => res matches Some(s) && s@ == r,
            None => res is None,
        },
{
    let mut i: usize = 0;
    assert(mapping@.skip(0) =~= mapping@);
    while i < mapping.len()
        invariant
            i <= mapping@.len(),
            lookup_name(mapping@, name@) == lookup_name(mapping@.skip(i as int), name@),
        decreases mapping@.len() - i,
    {
        assert(mapping@.skip(i as int).drop_first() =~= mapping@.skip(i + 1));
        if str_eq(mapping[i].0.as_str(), name) {
            return Some(&mapping[i].1);
        }
        i += 1;
    }
    None
}

/// Translates user-friendly property names (possibly prefixed with "Weapon."
/// or "Grenade.") into the names used in the demo, through `mapping`; names
/// that it does not hold are kept as they are.
pub fn rm_user_friendly_names(names: &Vec<String>, mapping: &[(String, String)]) -> (res: Result<Vec<String>, DemoParserError>)
    ensures
        res matches Ok(v) && v@.len() == names@.len()
            && forall|i: int| 0 <= i < names@.len() ==> #[trigger] v@[i]@ == real_name(mapping@, names@[i]@),
{
    let mut real_names: Vec<String> = vec![];
    let mut i: usize = 0;
    while i < names.len()
        invariant
            i <= names@.len(),
            real_names@.len() == i,
            forall|j: int| 0 <= j < i ==> #[trigger] real_names@[j]@ == real_name(mapping@, names@[j]@),
        decreases names@.len() - i,
    {
        let name = names[i].as_str();
        let mut n: &str = match strip_prefix(name, "Weapon.") {
            Some(rest) => rest,
            None => name,
        };
        n = match strip_prefix(name, "Grenade.") {
            Some(rest) => rest,
            None => n,
        };
        proof {
            if has_prefix(name@, "Grenade."@) && has_prefix(name@, "Weapon."@) {
                assert(n@ == strip_friendly_prefix(name@));
            }
        }
        match lookup_friendly_name(mapping, n) {
            Some(found) => real_names.push(found.clone()),
            None => real_names.push(n.to_owned()),
        }
        i += 1;
    }
    Ok(real_names)
}

/// The property names of a typical stats and positions parse: enough to
/// exercise entity and property decoding.
pub open spec fn typical_props() -> Seq<Seq<char>> {
    seq![
        "tick"@,
        "health"@,
        "X"@,
        "Y"@,
        "Z"@,
        "velocity_X"@,
        "velocity_Y"@,
        "velocity_Z"@,
        "CCSPlayerPawn.m_angEyeAngles"@,
        "is_alive"@,
        "team_num"@,
        "active_weapon_name"@,
        "FORWARD"@,
        "LEFT"@,
        "RIGHT"@,
        "BACK"@,
        "FIRE"@,
        "is_walking"@,
        "is_airborne"@,
        "flash_duration"@,
        "armor_value"@,
        "balance"@,
    ]
}

/// The property names of a typical stats and positions parse.
pub fn wanted_props() -> (res: Vec<String>)
    ensures
        res@.len() == typical_props().len(),
        forall|i: int| 0 <= i < res@.len() ==> #[trigger] res@[i]@ == typical_props()[i],
{
    let mut v: Vec<String> = Vec::new();
    v.push(String::from_str("tick"));
    v.push(String::from_str("health"));
    v.push(String::from_str("X"));
    v.push(String::from_str("Y"));
    v.push(String::from_str("Z"));
    v.push(String::from_str("velocity_X"));
    v.push(String::from_str("velocity_Y"));
    v.push(String::from_str("velocity_Z"));
    v.push(String::from_str("CCSPlayerPawn.m_angEyeAngles"));
    v.push(String::from_str("is_alive"));
    v.push(String::from_str("team_num"));
    v.push(String::from_str("active_weapon_name"));
    v.push(String::from_str("FORWARD"));
    v.push(String::from_str("LEFT"));
    v.push(String::from_str("RIGHT"));
    v.push(String::from_str("BACK"));
    v.push(String::from_str("FIRE"));
    v.push(String::from_str("is_walking"));
    v.push(String::from_str("is_airborne"));
    v.push(String::from_str("flash_duration"));
    v.push(String::from_str("armor_value"));
    v.push(String::from_str("balance"));
    v
}

} // verus!
