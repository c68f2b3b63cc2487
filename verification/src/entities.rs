use vstd::prelude::*;

use crate::collect_data::PropCollectionError;
use crate::error::DemoParserError;
use crate::game_events::{find_player, player_lookup};
use crate::prop_controller::text_lookup;
use crate::parser_settings::{SpecialIDs, Teams};
use crate::prop_controller::{PLAYER_ENTITY_HANDLE_MISSING, SPECTATOR_TEAM_NUM};
use crate::sendtables::Serializer;
use crate::strings::{bytes_contain, str_contains, str_eq};

verus! {

/// What is known of a player from its controller entity.
#[derive(Debug, Clone, PartialEq)]
pub struct PlayerMetaData {
    pub player_entity_id: Option<i32>,
    pub steamid: Option<u64>,
    pub controller_entid: Option<i32>,
    pub name: Option<String>,
    pub team_num: Option<u32>,
}

/// The kinds of entity that the parser treats specially.
#[derive(Debug, Clone, Copy, PartialEq, Eq, Structural)]
pub enum EntityType {
    PlayerController,
    Rules,
    Projectile,
    Team,
    Normal,
    C4,
}

/// A class of entities: its id, its name and the layout of its fields.
#[derive(Debug)]
pub struct Class {
    pub class_id: i32,
    pub name: String,
    pub serializer: Serializer,
}

/// The kind of entity that a class named `name` makes: player controllers,
/// game rules, teams and the bomb by their names; projectiles by a name
/// that contains `Projectile`, or is that of the incendiary grenade.
pub open spec fn entity_type_of(name: Seq<char>) -> EntityType {
    if name == "CCSPlayerController"@ {
        EntityType::PlayerController
    } else if name == "CCSGameRulesProxy"@ {
        EntityType::Rules
    } else if name == "CCSTeam"@ {
        EntityType::Team
    } else if name == "CC4"@ {
        EntityType::C4
    } else if bytes_contain(vstd::utf8::encode_utf8(name), vstd::utf8::encode_utf8("Projectile"@)) || name
        == "CIncendiaryGrenade"@ {
        EntityType::Projectile
    } else {
        EntityType::Normal
    }
}

/// The kind of entity that class `cls_id` makes; `ClassNotFound` for an id
/// past the known classes.
pub fn check_entity_type(cls_by_id: &[Class], cls_id: &u32) -> (res: Result<EntityType, DemoParserError>)
    ensures
        match res {
            Ok(t) => (*cls_id as int) < cls_by_id@.len() && t == entity_type_of(
                cls_by_id@[*cls_id as int].name@,
            ),
            Err(e) => (*cls_id as int) >= cls_by_id@.len() && e == DemoParserError::ClassNotFound,
        },
{
    let idx = *cls_id as usize;
    if idx >= cls_by_id.len() {
        return Err(DemoParserError::ClassNotFound);
    }
    let class = &cls_by_id[idx];
    let name = class.name.as_str();
    if str_eq(name, "CCSPlayerController") {
        return Ok(EntityType::PlayerController);
    }
    if str_eq(name, "CCSGameRulesProxy") {
        return Ok(EntityType::Rules);
    }
    if str_eq(name, "CCSTeam") {
        return Ok(EntityType::Team);
    }
    if str_eq(name, "CC4") {
        return Ok(EntityType::C4);
    }
    if str_contains(name, "Projectile") || str_eq(name, "CIncendiaryGrenade") {
        return Ok(EntityType::Projectile);
    }
    return Ok(EntityType::Normal);
}

// ---------------------------------------------------------------------------
// Entities and their property values.

/// The value of an entity property: a flag, an integer, a text, a float (by
/// its bits), or any other kind (a vector, a list) as `Other`.
#[derive(Debug)]
pub enum PropValue {
    Bool(bool),
    U8(u8),
    U32(u32),
    I32(i32),
    U64(u64),
    Str(String),
    /// A floating-point property, held by the bits of its `f32`.
    FloatBits(u32),
    Other,
}

/// A property value as plain data.
pub enum PropValueView {
    Bool(bool),
    U8(u8),
    U32(u32),
    I32(i32),
    U64(u64),
    Str(Seq<char>),
    FloatBits(u32),
    Other,
}

pub open spec fn prop_value_view(v: PropValue) -> PropValueView {
    match v {
        PropValue::Bool(b) => PropValueView::Bool(b),
        PropValue::U8(x) => PropValueView::U8(x),
        PropValue::U32(x) => PropValueView::U32(x),
        PropValue::I32(x) => PropValueView::I32(x),
        PropValue::U64(x) => PropValueView::U64(x),
        PropValue::Str(t) => PropValueView::Str(t@),
        PropValue::FloatBits(x) => PropValueView::FloatBits(x),
        PropValue::Other => PropValueView::Other,
    }
}

/// The property map of an entity (`ahash::AHashMap`).
#[verifier::external_type_specification]
#[verifier::external_body]
#[verifier::reject_recursive_types(K)]
#[verifier::reject_recursive_types(V)]
#[verifier::reject_recursive_types(S)]
pub struct ExAHashMap<K, V, S>(ahash::AHashMap<K, V, S>);

/// The hasher state of `ahash` maps.
#[verifier::external_type_specification]
#[verifier::external_body]
pub struct ExAHashRandomState(ahash::RandomState);

/// What a property map holds: each property id with the plain value of its
/// property.
pub uninterp spec fn prop_map(m: ahash::AHashMap<u32, PropValue>) -> Map<u32, PropValueView>;

/// `AHashMap::get` (which hands the call to `HashMap::get`): the value kept
/// under `key`, and nothing where the map has no entry for it.
#[verifier::external_body]
fn props_get(props: &ahash::AHashMap<u32, PropValue>, key: u32) -> (r: Option<&PropValue>)
    ensures
        match r {
            Some(v) => prop_map(*props).contains_key(key) && prop_map(*props)[key] == prop_value_view(*v),
            None => !prop_map(*props).contains_key(key),
        },
{
    props.get(&key)
}

/// An entity: its class, its id, its properties by property id, and its
/// kind.
#[derive(Debug)]
pub struct Entity {
    pub cls_id: u32,
    pub entity_id: i32,
    pub props: ahash::AHashMap<u32, PropValue>,
    pub entity_type: EntityType,
}

/// The entity with id `entity_id`, if there is one.
pub open spec fn entity_at(ents: Seq<Option<Entity>>, entity_id: i32) -> Option<Entity> {
    if 0 <= entity_id < ents.len() {
        ents[entity_id as int]
    } else {
        None
    }
}

/// Property `prop_id` of entity `entity_id`: the entity not found, the
/// property not found, or its value.
pub open spec fn spec_prop_from_ent(ents: Seq<Option<Entity>>, prop_id: u32, entity_id: i32) -> Result<
    PropValueView,
    PropCollectionError,
> {
    match entity_at(ents, entity_id) {
        None => Err(PropCollectionError::GetPropFromEntEntityNotFound),
        Some(e) => if prop_map(e.props).contains_key(prop_id) {
            Ok(prop_map(e.props)[prop_id])
        } else {
            Err(PropCollectionError::GetPropFromEntPropNotFound)
        },
    }
}

pub(crate) fn clone_prop_value(v: &PropValue) -> (r: PropValue)
    ensures
        prop_value_view(r) == prop_value_view(*v),
{
    match v {
        PropValue::Bool(b) => PropValue::Bool(*b),
        PropValue::U8(x) => PropValue::U8(*x),
        PropValue::U32(x) => PropValue::U32(*x),
        PropValue::I32(x) => PropValue::I32(*x),
        PropValue::U64(x) => PropValue::U64(*x),
        PropValue::Str(t) => PropValue::Str(t.clone()),
        PropValue::FloatBits(x) => PropValue::FloatBits(*x),
        PropValue::Other => PropValue::Other,
    }
}

/// The value of property `prop_id` of entity `entity_id`.
pub fn get_prop_from_ent(entities: &[Option<Entity>], prop_id: &u32, entity_id: &i32) -> (r: Result<
    PropValue,
    PropCollectionError,
>)
    ensures
        match (r, spec_prop_from_ent(entities@, *prop_id, *entity_id)) {
            (Ok(v), Ok(w)) => prop_value_view(v) == w,
            (Err(e), Err(f)) => e == f,
            _ => false,
        },
{
    if *entity_id < 0 || *entity_id as usize >= entities.len() {
        return Err(PropCollectionError::GetPropFromEntEntityNotFound);
    }
    match &entities[*entity_id as usize] {
        Some(e) => match props_get(&e.props, *prop_id) {
            Some(v) => Ok(clone_prop_value(v)),
            None => Err(PropCollectionError::GetPropFromEntPropNotFound),
        },
        None => Err(PropCollectionError::GetPropFromEntEntityNotFound),
    }
}

// ---------------------------------------------------------------------------
// Players and teams.

/// A player as plain values: pawn entity, steamid, controller entity, name,
/// team number.
pub type PlayerView = (Option<i32>, Option<u64>, Option<i32>, Option<Seq<char>>, Option<u32>);

pub open spec fn player_view(p: PlayerMetaData) -> PlayerView {
    (
        p.player_entity_id,
        p.steamid,
        p.controller_entid,
        match p.name {
            Some(n) => Some(n@),
            None => None,
        },
        p.team_num,
    )
}

/// The players (keyed by pawn entity id) as plain values.
pub open spec fn players_view(ps: Seq<(i32, PlayerMetaData)>) -> Seq<(i32, PlayerView)> {
    ps.map_values(|e: (i32, PlayerMetaData)| (e.0, player_view(e.1)))
}

/// The index of the first player at or after `i` with steamid `sid`.
pub open spec fn steamid_index(ps: Seq<(i32, PlayerView)>, sid: Option<u64>, i: int) -> Option<int>
    decreases ps.len() - i,
{
    if i < 0 || i >= ps.len() {
        None
    } else if ps[i].1.1 == sid {
        Some(i)
    } else {
        steamid_index(ps, sid, i + 1)
    }
}

/// The index of the first player at or after `i` whose key is at least
/// `k` (the length where there is none).
pub open spec fn key_position(ps: Seq<(i32, PlayerView)>, k: i32, i: int) -> int
    decreases ps.len() - i,
{
    if i < 0 || i >= ps.len() {
        ps.len() as int
    } else if ps[i].0 >= k {
        i
    } else {
        key_position(ps, k, i + 1)
    }
}

/// The players with `v` under the key `k`, kept in ascending key order as
/// a map does: in place of the entry with that key, else inserted before
/// the first greater key.
pub open spec fn players_insert(ps: Seq<(i32, PlayerView)>, k: i32, v: PlayerView) -> Seq<(i32, PlayerView)> {
    let j = key_position(ps, k, 0);
    if 0 <= j < ps.len() && ps[j].0 == k {
        ps.update(j, (k, v))
    } else {
        ps.insert(j, (k, v))
    }
}

/// The keys of the players ascend strictly.
pub open spec fn keys_ascending(ps: Seq<(i32, PlayerView)>) -> bool {
    forall|a: int, b: int| 0 <= a < b < ps.len() ==> ps[a].0 < ps[b].0
}

/// The players after recording `v` under `k`: first the player with the same
/// steamid (if any) goes, then `v` is inserted.
pub open spec fn players_record(ps: Seq<(i32, PlayerView)>, k: i32, v: PlayerView) -> Seq<(i32, PlayerView)> {
    let kept = match steamid_index(ps, v.1, 0) {
        Some(j) => ps.remove(j),
        None => ps,
    };
    players_insert(kept, k, v)
}

/// A metadata value of the expected kind: `Some(value)` where it is of that
/// kind or missing (`None`), `None` where it is of another kind.
pub open spec fn meta_u32(v: Option<PropValueView>) -> Option<Option<u32>> {
    match v {
        None => Some(None),
        Some(PropValueView::U32(x)) => Some(Some(x)),
        Some(_) => None,
    }
}

pub open spec fn meta_u64(v: Option<PropValueView>) -> Option<Option<u64>> {
    match v {
        None => Some(None),
        Some(PropValueView::U64(x)) => Some(Some(x)),
        Some(_) => None,
    }
}

pub open spec fn meta_str(v: Option<PropValueView>) -> Option<Option<Seq<char>>> {
    match v {
        None => Some(None),
        Some(PropValueView::Str(t)) => Some(Some(t)),
        Some(_) => None,
    }
}

/// Property `id` (where the id is known) of entity `entity_id`, `None` where
/// it cannot be read.
pub open spec fn known_prop(ents: Seq<Option<Entity>>, id: Option<u32>, entity_id: i32) -> Option<PropValueView> {
    match id {
        Some(i) => match spec_prop_from_ent(ents, i, entity_id) {
            Ok(v) => Some(v),
            Err(_) => None,
        },
        None => None,
    }
}

/// The teams after seeing team entity `entity_id`: its team number (1, 2 or
/// 3) names the slot that it fills.
pub open spec fn teams_after(ents: Seq<Option<Entity>>, ids: SpecialIDs, teams: Teams, entity_id: i32) -> Teams {
    match known_prop(ents, ids.team_team_num, entity_id) {
        Some(PropValueView::U32(1)) => Teams { team1_entid: Some(entity_id), ..teams },
        Some(PropValueView::U32(2)) => Teams { team2_entid: Some(entity_id), ..teams },
        Some(PropValueView::U32(3)) => Teams { team3_entid: Some(entity_id), ..teams },
        _ => teams,
    }
}

/// The player that controller `entity_id` describes, with the key under
/// which it is kept; `Err` where a metadata property has the wrong kind;
/// `Ok(None)` where no player is recorded (no pawn, a missing pawn handle,
/// steamid 0 or a spectator).
pub open spec fn controller_player(ents: Seq<Option<Entity>>, ids: SpecialIDs, entity_id: i32) -> Result<
    Option<(i32, PlayerView)>,
    DemoParserError,
> {
    match (
        meta_u32(known_prop(ents, ids.teamnum, entity_id)),
        meta_str(known_prop(ents, ids.player_name, entity_id)),
        meta_u64(known_prop(ents, ids.steamid, entity_id)),
        meta_u32(known_prop(ents, ids.player_pawn, entity_id)),
    ) {
        (Some(team_num), Some(name), Some(steamid), Some(pawn)) => match pawn {
            Some(handle) => {
                let e = (handle & 0x7FF) as i32;
                if e != PLAYER_ENTITY_HANDLE_MISSING && steamid != Some(0u64) && team_num != Some(SPECTATOR_TEAM_NUM) {
                    Ok(Some((e, (Some(e), steamid, Some(entity_id), name, team_num))))
                } else {
                    Ok(None)
                }
            },
            None => Ok(None),
        },
        _ => Err(DemoParserError::IncorrectMetaDataProp),
    }
}

/// A team entity fills the team slot that its team number names (1, 2 or
/// 3), leaving the other two; any other number, or none, changes nothing.
pub proof fn law_team_slots(ents: Seq<Option<Entity>>, ids: SpecialIDs, teams: Teams, entity_id: i32)
    ensures
        ({
            let t = teams_after(ents, ids, teams, entity_id);
            match known_prop(ents, ids.team_team_num, entity_id) {
                Some(PropValueView::U32(n)) => {
                    &&& t.team1_entid == (if n == 1 { Some(entity_id) } else { teams.team1_entid })
                    &&& t.team2_entid == (if n == 2 { Some(entity_id) } else { teams.team2_entid })
                    &&& t.team3_entid == (if n == 3 { Some(entity_id) } else { teams.team3_entid })
                },
                _ => t == teams,
            }
        }),
{
}

/// A player recorded from a controller is kept under its pawn entity (the
/// low 11 bits of the pawn handle), with the controller as its controller;
/// it is never a spectator (team 1), never has steamid 0, and its pawn is
/// never the missing-handle entity 2047. Where the controller has all four
/// properties of the right kind, a pawn that names an entity, a steamid
/// other than 0 and a team other than 1, the player is recorded.
pub proof fn law_controller_player(ents: Seq<Option<Entity>>, ids: SpecialIDs, entity_id: i32)
    ensures
        controller_player(ents, ids, entity_id) matches Ok(Some((k, v))) ==> {
            &&& v.0 == Some(k)
            &&& v.2 == Some(entity_id)
            &&& v.4 != Some(1u32)
            &&& v.1 != Some(0u64)
            &&& k != 2047
            &&& known_prop(ents, ids.player_pawn, entity_id) matches Some(PropValueView::U32(h)) && k == (h
                & 0x7FF) as i32
        },
        ({
            let team = known_prop(ents, ids.teamnum, entity_id);
            let name = known_prop(ents, ids.player_name, entity_id);
            let sid = known_prop(ents, ids.steamid, entity_id);
            let pawn = known_prop(ents, ids.player_pawn, entity_id);
            (team matches Some(PropValueView::U32(tn)) && tn != 1) && (name matches Some(PropValueView::Str(_)))
                && (sid matches Some(PropValueView::U64(s)) && s != 0) && (pawn matches Some(PropValueView::U32(h))
                && (h & 0x7FF) as i32 != 2047) ==> controller_player(ents, ids, entity_id) matches Ok(Some(_))
        }),
{
}

/// Recording a player keeps the keys of the players in strictly ascending
/// order.
pub proof fn lemma_record_keeps_keys_ascending(ps: Seq<(i32, PlayerView)>, k: i32, v: PlayerView)
    requires
        keys_ascending(ps),
    ensures
        keys_ascending(players_record(ps, k, v)),
{
    let kept = match steamid_index(ps, v.1, 0) {
        Some(j) => ps.remove(j),
        None => ps,
    };
    assert(keys_ascending(kept)) by {
        if let Some(j) = steamid_index(ps, v.1, 0) {
            lemma_steamid_index_bounds(ps, v.1, 0);
            assert forall|a: int, b: int| 0 <= a < b < kept.len() implies kept[a].0 < kept[b].0 by {
                let a2 = if a < j { a } else { a + 1 };
                let b2 = if b < j { b } else { b + 1 };
                assert(kept[a] == ps[a2]);
                assert(kept[b] == ps[b2]);
            }
        }
    }
    lemma_key_position(kept, k, 0);
    let j = key_position(kept, k, 0);
    let r = players_record(ps, k, v);
    if 0 <= j < kept.len() && kept[j].0 == k {
        assert forall|a: int, b: int| 0 <= a < b < r.len() implies r[a].0 < r[b].0 by {
            assert(r[a].0 == kept[a].0);
            assert(r[b].0 == kept[b].0);
        }
    } else {
        assert forall|a: int, b: int| 0 <= a < b < r.len() implies r[a].0 < r[b].0 by {
            if b < j {
                assert(r[a] == kept[a] && r[b] == kept[b]);
            } else if b == j {
                assert(r[b].0 == k);
                assert(r[a] == kept[a]);
            } else if a < j {
                assert(r[a] == kept[a] && r[b] == kept[b - 1]);
            } else if a == j {
                assert(r[a].0 == k);
                assert(r[b] == kept[b - 1]);
            } else {
                assert(r[a] == kept[a - 1] && r[b] == kept[b - 1]);
            }
        }
    }
}

proof fn lemma_steamid_index_bounds(ps: Seq<(i32, PlayerView)>, sid: Option<u64>, i: int)
    ensures
        steamid_index(ps, sid, i) matches Some(j) ==> 0 <= j < ps.len(),
    decreases ps.len() - i,
{
    if 0 <= i < ps.len() && ps[i].1.1 != sid {
        lemma_steamid_index_bounds(ps, sid, i + 1);
    }
}

proof fn lemma_key_position(ps: Seq<(i32, PlayerView)>, k: i32, i: int)
    requires
        0 <= i <= ps.len(),
        keys_ascending(ps),
        forall|a: int| 0 <= a < i ==> ps[a].0 < k,
    ensures
        i <= key_position(ps, k, i) <= ps.len(),
        forall|a: int| 0 <= a < key_position(ps, k, i) ==> ps[a].0 < k,
        key_position(ps, k, i) < ps.len() ==> ps[key_position(ps, k, i)].0 >= k,
    decreases ps.len() - i,
{
    if i < ps.len() && ps[i].0 < k {
        lemma_key_position(ps, k, i + 1);
    }
}

fn known_prop_of(entities: &[Option<Entity>], id: Option<u32>, entity_id: &i32) -> (r: Option<PropValue>)
    ensures
        match r {
            Some(v) => known_prop(entities@, id, *entity_id) == Some(prop_value_view(v)),
            None => known_prop(entities@, id, *entity_id) is None,
        },
{
    match id {
        Some(i) => match get_prop_from_ent(entities, &i, entity_id) {
            Ok(v) => Some(v),
            Err(_) => None,
        },
        None => None,
    }
}

fn remove_by_steamid(players: &mut Vec<(i32, PlayerMetaData)>, sid: Option<u64>)
    ensures
        players_view(final(players)@) == match steamid_index(players_view(old(players)@), sid, 0) {
            Some(j) => players_view(old(players)@).remove(j),
            None => players_view(old(players)@),
        },
{
    let ghost pv = players_view(players@);
    let mut i: usize = 0;
    while i < players.len()
        invariant
            i <= players@.len(),
            pv == players_view(players@),
            players@ == old(players)@,
            steamid_index(pv, sid, 0) == steamid_index(pv, sid, i as int),
        decreases players@.len() - i,
    {
        if players[i].1.steamid == sid {
            assert(pv[i as int].1.1 == sid);
            players.remove(i);
            assert(players_view(players@) =~= pv.remove(i as int));
            return;
        }
        i += 1;
    }
}

fn insert_player(players: &mut Vec<(i32, PlayerMetaData)>, k: i32, p: PlayerMetaData)
    ensures
        players_view(final(players)@) == players_insert(players_view(old(players)@), k, player_view(p)),
{
    let ghost pv = players_view(players@);
    let ghost v = player_view(p);
    let mut i: usize = 0;
    while i < players.len() && players[i].0 < k
        invariant
            i <= players@.len(),
            pv == players_view(players@),
            players@ == old(players)@,
            key_position(pv, k, 0) == key_position(pv, k, i as int),
        decreases players@.len() - i,
    {
        i += 1;
    }
    assert(key_position(pv, k, i as int) == i);
    if i < players.len() && players[i].0 == k {
        players.set(i, (k, p));
        assert(players_view(players@) =~= pv.update(i as int, (k, v)));
    } else {
        players.insert(i, (k, p));
        assert(players_view(players@) =~= pv.insert(i as int, (k, v)));
    }
}

/// Keeps players and teams up to date from entity `entity_id`: a team entity
/// (outside baselines) fills the slot of its team number; a player
/// controller records its player (`controller_player`), replacing a player
/// with the same steamid. `EntityNotFound` where there is no such entity;
/// `IncorrectMetaDataProp` where a metadata property of a controller has
/// the wrong kind, the teams then being updated already and the players
/// not.
pub fn gather_extra_info(
    entities: &[Option<Entity>],
    special_ids: &SpecialIDs,
    players: &mut Vec<(i32, PlayerMetaData)>,
    teams: &mut Teams,
    entity_id: &i32,
    is_baseline: bool,
) -> (res: Result<(), DemoParserError>)
    ensures
        match entity_at(entities@, *entity_id) {
            None => res == Err::<(), DemoParserError>(DemoParserError::EntityNotFound) && *final(teams) == *old(teams)
                && players_view(final(players)@) == players_view(old(players)@),
            Some(e) => {
                &&& *final(teams) == if e.entity_type == EntityType::Team && !is_baseline {
                    teams_after(entities@, *special_ids, *old(teams), *entity_id)
                } else {
                    *old(teams)
                }
                &&& if e.entity_type == EntityType::PlayerController || e.entity_type == EntityType::Team {
                    match controller_player(entities@, *special_ids, *entity_id) {
                        Err(err) => res == Err::<(), DemoParserError>(err) && players_view(final(players)@)
                            == players_view(old(players)@),
                        Ok(None) => res is Ok && players_view(final(players)@) == players_view(old(players)@),
                        Ok(Some((k, v))) => res is Ok && players_view(final(players)@) == players_record(
                            players_view(old(players)@),
                            k,
                            v,
                        ),
                    }
                } else {
                    res is Ok && players_view(final(players)@) == players_view(old(players)@)
                }
            },
        },
{
    if *entity_id < 0 || *entity_id as usize >= entities.len() {
        return Err(DemoParserError::EntityNotFound);
    }
    let entity = match &entities[*entity_id as usize] {
        Some(entity) => entity,
        None => return Err(DemoParserError::EntityNotFound),
    };
    if !(entity.entity_type == EntityType::PlayerController || entity.entity_type == EntityType::Team) {
        return Ok(());
    }
    if entity.entity_type == EntityType::Team && !is_baseline {
        if let Some(team_num_id) = special_ids.team_team_num {
            if let Ok(PropValue::U32(t)) = get_prop_from_ent(entities, &team_num_id, entity_id) {
                match t {
                    1 => teams.team1_entid = Some(*entity_id),
                    2 => teams.team2_entid = Some(*entity_id),
                    3 => teams.team3_entid = Some(*entity_id),
                    _ => {},
                }
            }
        }
    }
    let team_num = match known_prop_of(entities, special_ids.teamnum, entity_id) {
        Some(PropValue::U32(team_num)) => Some(team_num),
        Some(_) => return Err(DemoParserError::IncorrectMetaDataProp),
        None => None,
    };
    let name = match known_prop_of(entities, special_ids.player_name, entity_id) {
        Some(PropValue::Str(name)) => Some(name),
        Some(_) => return Err(DemoParserError::IncorrectMetaDataProp),
        None => None,
    };
    let steamid = match known_prop_of(entities, special_ids.steamid, entity_id) {
        Some(PropValue::U64(steamid)) => Some(steamid),
        Some(_) => return Err(DemoParserError::IncorrectMetaDataProp),
        None => None,
    };
    let player_entid = match known_prop_of(entities, special_ids.player_pawn, entity_id) {
        Some(PropValue::U32(handle)) => Some((handle & 0x7FF) as i32),
        Some(_) => return Err(DemoParserError::IncorrectMetaDataProp),
        None => None,
    };
    if let Some(e) = player_entid {
        if e != PLAYER_ENTITY_HANDLE_MISSING && steamid != Some(0) && team_num != Some(SPECTATOR_TEAM_NUM) {
            remove_by_steamid(players, steamid);
            insert_player(
                players,
                e,
                PlayerMetaData {
                    name,
                    team_num,
                    player_entity_id: player_entid,
                    steamid,
                    controller_entid: Some(*entity_id),
                },
            );
        }
    }
    Ok(())
}

// ---------------------------------------------------------------------------
// Reading properties of players, teams, grenades and the bomb.

/// The handle value of a player pawn that stands in the air.
pub const IS_AIRBORNE_CONST: u32 = 0xFFFFFF;

pub open spec fn prop_result_view(r: Result<PropValue, PropCollectionError>) -> Result<PropValueView, PropCollectionError> {
    match r {
        Ok(v) => Ok(prop_value_view(v)),
        Err(e) => Err(e),
    }
}

/// Property `prop` of the team of player `player_entid`: the player's team
/// number (read through the team pointer) names the team entity (1, 2 or 3).
pub open spec fn spec_team_prop(
    ents: Seq<Option<Entity>>,
    ids: SpecialIDs,
    teams: Teams,
    prop: u32,
    player_entid: i32,
) -> Result<PropValueView, PropCollectionError> {
    match ids.player_team_pointer {
        None => Err(PropCollectionError::SpecialidsPlayerTeamPointerNotSet),
        Some(p) => match spec_prop_from_ent(ents, p, player_entid) {
            Ok(PropValueView::U32(team_num)) => {
                let team_entid = if team_num == 1 {
                    Some(teams.team1_entid)
                } else if team_num == 2 {
                    Some(teams.team2_entid)
                } else if team_num == 3 {
                    Some(teams.team3_entid)
                } else {
                    None
                };
                match team_entid {
                    None => Err(PropCollectionError::IllegalTeamValue),
                    Some(None) => Err(PropCollectionError::TeamEntityIdNotSet),
                    Some(Some(eid)) => spec_prop_from_ent(ents, prop, eid),
                }
            },
            Ok(_) => Err(PropCollectionError::TeamNumIncorrectVariant),
            Err(e) => Err(e),
        },
    }
}

pub fn find_team_prop(
    entities: &[Option<Entity>],
    special_ids: &SpecialIDs,
    teams: &Teams,
    prop: &u32,
    player_entid: &i32,
) -> (r: Result<PropValue, PropCollectionError>)
    ensures
        prop_result_view(r) == spec_team_prop(entities@, *special_ids, *teams, *prop, *player_entid),
{
    match special_ids.player_team_pointer {
        None => return Err(PropCollectionError::SpecialidsPlayerTeamPointerNotSet),
        Some(p) => {
            match get_prop_from_ent(entities, &p, player_entid) {
                Ok(PropValue::U32(team_num)) => {
                    let team_entid = match team_num {
                        1 => teams.team1_entid,
                        2 => teams.team2_entid,
                        3 => teams.team3_entid,
                        _ => return Err(PropCollectionError::IllegalTeamValue),
                    };
                    match team_entid {
                        Some(eid) => return get_prop_from_ent(entities, prop, &eid),
                        None => return Err(PropCollectionError::TeamEntityIdNotSet),
                    }
                },
                Ok(_) => Err(PropCollectionError::TeamNumIncorrectVariant),
                Err(e) => Err(e),
            }
        },
    }
}

/// Whether the player `entity_id` is alive: its life state is known and 0.
pub fn find_is_alive(entities: &[Option<Entity>], special_ids: &SpecialIDs, entity_id: &i32) -> (r: bool)
    ensures
        r == match special_ids.life_state {
            Some(id) => spec_prop_from_ent(entities@, id, *entity_id) == Ok::<
                PropValueView,
                PropCollectionError,
            >(PropValueView::U32(0)),
            None => false,
        },
{
    match special_ids.life_state {
        Some(id) => match get_prop_from_ent(entities, &id, entity_id) {
            Ok(PropValue::U32(0)) => return true,
            Ok(_) => {},
            Err(_) => {},
        },
        None => {},
    }
    false
}

/// The entity id of the thrower of grenade `entity_id`: the low 11 bits of
/// its owner handle.
pub fn find_owner_entid(entities: &[Option<Entity>], special_ids: &SpecialIDs, entity_id: &i32) -> (r: Result<
    u32,
    PropCollectionError,
>)
    ensures
        r == match special_ids.grenade_owner_id {
            None => Err(PropCollectionError::GrenadeOwnerIdNotSet),
            Some(owner_id) => match spec_prop_from_ent(entities@, owner_id, *entity_id) {
                Ok(PropValueView::U32(h)) => Ok(h & 0x7FF),
                Ok(_) => Err(PropCollectionError::GrenadeOwnerIdPropIncorrectVariant),
                Err(e) => Err(e),
            },
        },
{
    let owner_id = match special_ids.grenade_owner_id {
        Some(owner_id) => owner_id,
        None => return Err(PropCollectionError::GrenadeOwnerIdNotSet),
    };
    match get_prop_from_ent(entities, &owner_id, entity_id) {
        Ok(PropValue::U32(prop)) => Ok(prop & 0x7FF),
        Ok(_) => return Err(PropCollectionError::GrenadeOwnerIdPropIncorrectVariant),
        Err(e) => return Err(e),
    }
}

/// The entity id of the player holding the bomb `c4_entity_id`: the low 11
/// bits of the bomb's owner handle, where known.
pub fn find_c4_owner(entities: &[Option<Entity>], special_ids: &SpecialIDs, c4_entity_id: Option<i32>) -> (r:
    Option<i32>)
    ensures
        r == match (c4_entity_id, special_ids.h_owner_entity) {
            (Some(c4), Some(id)) => match spec_prop_from_ent(entities@, id, c4) {
                Ok(PropValueView::U32(u)) => Some((u & 0x7FF) as i32),
                _ => None,
            },
            _ => None,
        },
{
    if let Some(c4ent) = c4_entity_id {
        if let Some(id) = special_ids.h_owner_entity {
            if let Ok(PropValue::U32(u)) = get_prop_from_ent(entities, &id, &c4ent) {
                return Some((u & 0x7FF) as i32);
            }
        }
    }
    None
}

/// Property `prop_id` of the controller of `player`.
pub fn get_controller_prop(entities: &[Option<Entity>], prop_id: &u32, player: &PlayerMetaData) -> (r: Result<
    PropValue,
    PropCollectionError,
>)
    ensures
        prop_result_view(r) == match player.controller_entid {
            Some(entid) => spec_prop_from_ent(entities@, *prop_id, entid),
            None => Err(PropCollectionError::ControllerEntityIdNotSet),
        },
{
    match player.controller_entid {
        Some(entid) => return get_prop_from_ent(entities, prop_id, &entid),
        None => return Err(PropCollectionError::ControllerEntityIdNotSet),
    }
}

/// Property `prop_id` of the game rules entity.
pub fn get_rules_prop(entities: &[Option<Entity>], rules_entity_id: Option<i32>, prop_id: &u32) -> (r: Result<
    PropValue,
    PropCollectionError,
>)
    ensures
        prop_result_view(r) == match rules_entity_id {
            Some(entid) => spec_prop_from_ent(entities@, *prop_id, entid),
            None => Err(PropCollectionError::RulesEntityIdNotSet),
        },
{
    match rules_entity_id {
        Some(entid) => return get_prop_from_ent(entities, prop_id, &entid),
        None => return Err(PropCollectionError::RulesEntityIdNotSet),
    }
}

/// Whether `player` stands in the air: its pawn's ground handle is the
/// "no ground" value.
pub fn find_is_airborne(entities: &[Option<Entity>], special_ids: &SpecialIDs, player: &PlayerMetaData) -> (r: bool)
    ensures
        r == match (player.player_entity_id, special_ids.is_airborn) {
            (Some(pe), Some(id)) => spec_prop_from_ent(entities@, id, pe) == Ok::<
                PropValueView,
                PropCollectionError,
            >(PropValueView::U32(IS_AIRBORNE_CONST)),
            _ => false,
        },
{
    if let Some(player_entity_id) = &player.player_entity_id {
        if let Some(id) = special_ids.is_airborn {
            if let Ok(PropValue::U32(airborn_h)) = get_prop_from_ent(entities, &id, player_entity_id) {
                return airborn_h == IS_AIRBORNE_CONST;
            }
        }
    }
    false
}

/// The class name of entity `entity_id`, for a grenade its kind.
pub fn find_grenade_type(entities: &[Option<Entity>], cls_by_id: &[Class], entity_id: &i32) -> (r: Option<String>)
    ensures
        match entity_at(entities@, *entity_id) {
            Some(e) => if (e.cls_id as int) < cls_by_id@.len() {
                r matches Some(n) && n@ == cls_by_id@[e.cls_id as int].name@
            } else {
                r is None
            },
            None => r is None,
        },
{
    if *entity_id < 0 || *entity_id as usize >= entities.len() {
        return None;
    }
    if let Some(ent) = &entities[*entity_id as usize] {
        if (ent.cls_id as usize) < cls_by_id.len() {
            return Some(cls_by_id[ent.cls_id as usize].name.clone());
        }
    }
    None
}

/// The first player (in the order of `players`) whose controller is
/// `controller_id`.
pub open spec fn player_by_controller(ps: Seq<(i32, PlayerMetaData)>, controller_id: i32) -> Option<PlayerMetaData>
    decreases ps.len(),
{
    if ps.len() == 0 {
        None
    } else if ps[0].1.controller_entid == Some(controller_id) {
        Some(ps[0].1)
    } else {
        player_by_controller(ps.drop_first(), controller_id)
    }
}

pub fn find_user_by_controller_id(players: &[(i32, PlayerMetaData)], userid: i32) -> (r: Option<&PlayerMetaData>)
    ensures
        match player_by_controller(players@, userid) {
            Some(p) => r == Some(&p),
            None => r is None,
        },
{
    let mut i: usize = 0;
    assert(players@.skip(0) =~= players@);
    while i < players.len()
        invariant
            i <= players@.len(),
            player_by_controller(players@, userid) == player_by_controller(players@.skip(i as int), userid),
        decreases players@.len() - i,
    {
        assert(players@.skip(i as int).drop_first() =~= players@.skip(i + 1));
        if players[i].1.controller_entid == Some(userid) {
            return Some(&players[i].1);
        }
        i += 1;
    }
    None
}

/// The steamids of the players whose controllers are named by the bits of
/// `mask`: bit `i` (of the low 16) stands for controller `i + 1`; a player
/// without a steamid counts as 0.
pub open spec fn steamids_of_mask(ps: Seq<(i32, PlayerMetaData)>, mask: u32, i: int) -> Seq<u64>
    decreases 16 - i,
{
    if i < 0 || i >= 16 {
        Seq::empty()
    } else {
        let rest = steamids_of_mask(ps, mask, i + 1);
        if (mask & (1u32 << (i as u32))) != 0 {
            match player_by_controller(ps, (i + 1) as i32) {
                Some(p) => seq![match p.steamid {
                    Some(s) => s,
                    None => 0u64,
                }] + rest,
                None => rest,
            }
        } else {
            rest
        }
    }
}

pub fn steamids_from_mask(players: &[(i32, PlayerMetaData)], uid: u32) -> (r: Vec<u64>)
    ensures
        r@ == steamids_of_mask(players@, uid, 0),
{
    let mut steamids: Vec<u64> = Vec::new();
    let mut i: u32 = 0;
    while i < 16
        invariant
            i <= 16,
            steamids@ + steamids_of_mask(players@, uid, i as int) == steamids_of_mask(players@, uid, 0),
        decreases 16 - i,
    {
        let ghost before = steamids@;
        if (uid & (1u32 << i)) != 0 {
            if let Some(user) = find_user_by_controller_id(players, (i + 1) as i32) {
                steamids.push(
                    match user.steamid {
                        Some(s) => s,
                        None => 0,
                    },
                );
                assert(steamids@ + steamids_of_mask(players@, uid, i + 1) =~= before + steamids_of_mask(
                    players@,
                    uid,
                    i as int,
                ));
            }
        }
        i += 1;
    }
    assert(steamids@ =~= steamids@ + steamids_of_mask(players@, uid, 16));
    steamids
}

// ---------------------------------------------------------------------------
// Weapons, buttons and throwers.

/// Property `prop` of the active weapon of player `player_entid`: the low 11
/// bits of the player's weapon handle name the weapon entity; a weapon
/// entity or property that is not there has an error of its own.
pub open spec fn spec_weapon_prop(ents: Seq<Option<Entity>>, ids: SpecialIDs, prop: u32, player_entid: i32) -> Result<
    PropValueView,
    PropCollectionError,
> {
    match ids.active_weapon {
        None => Err(PropCollectionError::SpecialidsActiveWeaponNotSet),
        Some(p) => match spec_prop_from_ent(ents, p, player_entid) {
            Ok(PropValueView::U32(h)) => match spec_prop_from_ent(ents, prop, (h & 0x7FF) as i32) {
                Ok(v) => Ok(v),
                Err(PropCollectionError::GetPropFromEntEntityNotFound) => Err(PropCollectionError::WeaponEntityNotFound),
                Err(PropCollectionError::GetPropFromEntPropNotFound) => Err(
                    PropCollectionError::WeaponEntityWantedPropNotFound,
                ),
                Err(e) => Err(e),
            },
            Ok(_) => Err(PropCollectionError::WeaponHandleIncorrectVariant),
            Err(e) => Err(e),
        },
    }
}

pub fn find_weapon_prop(entities: &[Option<Entity>], special_ids: &SpecialIDs, prop: &u32, player_entid: &i32) -> (r:
    Result<PropValue, PropCollectionError>)
    ensures
        prop_result_view(r) == spec_weapon_prop(entities@, *special_ids, *prop, *player_entid),
{
    let p = match special_ids.active_weapon {
        Some(p) => p,
        None => return Err(PropCollectionError::SpecialidsActiveWeaponNotSet),
    };
    match get_prop_from_ent(entities, &p, player_entid) {
        Ok(PropValue::U32(weap_handle)) => {
            let weapon_entity_id = (weap_handle & 0x7FF) as i32;
            match get_prop_from_ent(entities, prop, &weapon_entity_id) {
                Ok(p) => Ok(p),
                Err(e) => match e {
                    PropCollectionError::GetPropFromEntEntityNotFound => Err(PropCollectionError::WeaponEntityNotFound),
                    PropCollectionError::GetPropFromEntPropNotFound => Err(
                        PropCollectionError::WeaponEntityWantedPropNotFound,
                    ),
                    _ => Err(e),
                },
            }
        },
        Ok(_) => Err(PropCollectionError::WeaponHandleIncorrectVariant),
        Err(e) => Err(e),
    }
}

/// The name of the active weapon of player `entity_id`: its definition
/// index looked up in `weapon_names`.
pub open spec fn spec_weapon_name(
    ents: Seq<Option<Entity>>,
    ids: SpecialIDs,
    weapon_names: Seq<(u32, String)>,
    entity_id: i32,
) -> Result<Seq<char>, PropCollectionError> {
    match ids.item_def {
        None => Err(PropCollectionError::SpecialidsItemDefNotSet),
        Some(item_def_id) => match spec_weapon_prop(ents, ids, item_def_id, entity_id) {
            Ok(PropValueView::U32(def_idx)) => match crate::game_events::weapon_name(weapon_names, def_idx) {
                Some(n) => Ok(n),
                None => Err(PropCollectionError::WeaponIdxMappingNotFound),
            },
            Ok(_) => Err(PropCollectionError::WeaponDefVariantWrongType),
            Err(e) => Err(e),
        },
    }
}

pub fn find_weapon_name(
    entities: &[Option<Entity>],
    special_ids: &SpecialIDs,
    weapon_names: &[(u32, String)],
    entity_id: &i32,
) -> (r: Result<String, PropCollectionError>)
    ensures
        match (r, spec_weapon_name(entities@, *special_ids, weapon_names@, *entity_id)) {
            (Ok(n), Ok(m)) => n@ == m,
            (Err(e), Err(f)) => e == f,
            _ => false,
        },
{
    let item_def_id = match special_ids.item_def {
        Some(x) => x,
        None => return Err(PropCollectionError::SpecialidsItemDefNotSet),
    };
    match find_weapon_prop(entities, special_ids, &item_def_id, entity_id) {
        Ok(PropValue::U32(def_idx)) => {
            match crate::game_events::lookup_weapon_name(weapon_names, def_idx) {
                Some(v) => return Ok(v),
                None => return Err(PropCollectionError::WeaponIdxMappingNotFound),
            };
        },
        Ok(_) => return Err(PropCollectionError::WeaponDefVariantWrongType),
        Err(e) => Err(e),
    }
}

/// Whether button `prop_name` is held by player `entity_id`: its flag (from
/// `button_flags`) is set in the player's button mask.
pub open spec fn spec_button_prop(
    ents: Seq<Option<Entity>>,
    ids: SpecialIDs,
    button_flags: Seq<(String, u64)>,
    prop_name: Seq<char>,
    entity_id: i32,
) -> Result<bool, PropCollectionError> {
    match ids.buttons {
        None => Err(PropCollectionError::ButtonsSpecialIDNone),
        Some(button_id) => match spec_prop_from_ent(ents, button_id, entity_id) {
            Ok(PropValueView::U64(mask)) => match text_lookup(button_flags, prop_name) {
                Some(flag) => Ok(mask & flag != 0),
                None => Err(PropCollectionError::ButtonsMapNoEntryFound),
            },
            Ok(_) => Err(PropCollectionError::ButtonMaskNotU64Variant),
            Err(e) => Err(e),
        },
    }
}

pub fn get_button_prop(
    entities: &[Option<Entity>],
    special_ids: &SpecialIDs,
    button_flags: &[(String, u64)],
    prop_name: &str,
    entity_id: &i32,
) -> (r: Result<bool, PropCollectionError>)
    ensures
        r == spec_button_prop(entities@, *special_ids, button_flags@, prop_name@, *entity_id),
{
    match special_ids.buttons {
        None => Err(PropCollectionError::ButtonsSpecialIDNone),
        Some(button_id) => match get_prop_from_ent(entities, &button_id, entity_id) {
            Ok(PropValue::U64(button_mask)) => match crate::prop_controller::lookup_text(button_flags, prop_name) {
                Some(button_flag) => Ok(button_mask & button_flag != 0),
                None => return Err(PropCollectionError::ButtonsMapNoEntryFound),
            },
            Ok(_) => return Err(PropCollectionError::ButtonMaskNotU64Variant),
            Err(e) => Err(e),
        },
    }
}

/// The player kept under key `entity_id`.
pub fn find_player_metadata(players: &[(i32, PlayerMetaData)], entity_id: i32) -> (r: Result<
    &PlayerMetaData,
    PropCollectionError,
>)
    ensures
        match player_lookup(players@, entity_id) {
            Some(p) => r == Ok::<&PlayerMetaData, PropCollectionError>(&p),
            None => r == Err::<&PlayerMetaData, PropCollectionError>(PropCollectionError::PlayerNotFound),
        },
{
    match find_player(players, entity_id) {
        Some(i) => Ok(&players[i].1),
        None => Err(PropCollectionError::PlayerNotFound),
    }
}

/// The thrower of grenade `entity_id` as a player: its owner entity as key.
pub open spec fn spec_thrower(
    ents: Seq<Option<Entity>>,
    ids: SpecialIDs,
    players: Seq<(i32, PlayerMetaData)>,
    entity_id: i32,
) -> Result<PlayerMetaData, PropCollectionError> {
    match ids.grenade_owner_id {
        None => Err(PropCollectionError::GrenadeOwnerIdNotSet),
        Some(owner_id) => match spec_prop_from_ent(ents, owner_id, entity_id) {
            Ok(PropValueView::U32(h)) => match player_lookup(players, (h & 0x7FF) as i32) {
                Some(p) => Ok(p),
                None => Err(PropCollectionError::PlayerNotFound),
            },
            Ok(_) => Err(PropCollectionError::GrenadeOwnerIdPropIncorrectVariant),
            Err(e) => Err(e),
        },
    }
}

/// The steamid of the thrower of grenade `entity_id` (0 where unknown).
pub fn find_thrower_steamid(
    entities: &[Option<Entity>],
    special_ids: &SpecialIDs,
    players: &[(i32, PlayerMetaData)],
    entity_id: &i32,
) -> (r: Result<u64, PropCollectionError>)
    ensures
        r == match spec_thrower(entities@, *special_ids, players@, *entity_id) {
            Ok(p) => Ok(
                match p.steamid {
                    Some(s) => s,
                    None => 0u64,
                },
            ),
            Err(e) => Err(e),
        },
{
    let owner_entid = find_owner_entid(entities, special_ids, entity_id)?;
    let metadata = find_player_metadata(players, owner_entid as i32)?;
    match metadata.steamid {
        Some(s) => Ok(s),
        None => Ok(0),
    }
}

/// The name of the thrower of grenade `entity_id`.
pub fn find_thrower_name(
    entities: &[Option<Entity>],
    special_ids: &SpecialIDs,
    players: &[(i32, PlayerMetaData)],
    entity_id: &i32,
) -> (r: Result<String, PropCollectionError>)
    ensures
        match spec_thrower(entities@, *special_ids, players@, *entity_id) {
            Ok(p) => match p.name {
                Some(n) => r matches Ok(s) && s@ == n@,
                None => r == Err::<String, PropCollectionError>(PropCollectionError::PlayerMetaDataNameNone),
            },
            Err(e) => r == Err::<String, PropCollectionError>(e),
        },
{
    let owner_entid = find_owner_entid(entities, special_ids, entity_id)?;
    let metadata = find_player_metadata(players, owner_entid as i32)?;
    match &metadata.name {
        Some(s) => Ok(s.clone()),
        None => Err(PropCollectionError::PlayerMetaDataNameNone),
    }
}

/// The steamid of `player`, 0 where it is unknown.
pub fn create_steamid(player: &PlayerMetaData) -> (r: PropValue)
    ensures
        prop_value_view(r) == PropValueView::U64(
            match player.steamid {
                Some(s) => s,
                None => 0u64,
            },
        ),
{
    match player.steamid {
        Some(steamid) => PropValue::U64(steamid),
        _ => PropValue::U64(0),
    }
}

/// The name of `player`.
pub fn create_name(player: &PlayerMetaData) -> (r: Result<PropValue, PropCollectionError>)
    ensures
        prop_result_view(r) == match player.name {
            Some(n) => Ok(PropValueView::Str(n@)),
            None => Err(PropCollectionError::PlayerMetaDataNameNone),
        },
{
    match &player.name {
        Some(name) => Ok(PropValue::Str(name.clone())),
        _ => Err(PropCollectionError::PlayerMetaDataNameNone),
    }
}

// ---------------------------------------------------------------------------
// Wanted properties by kind.

/// The state that a wanted property is read from: the entities, the special
/// property ids, the teams, the game rules entity, the button flags and the
/// current tick.
pub struct PropSources<'a> {
    pub entities: &'a [Option<Entity>],
    pub special_ids: &'a SpecialIDs,
    pub teams: &'a Teams,
    pub rules_entity_id: Option<i32>,
    pub button_flags: &'a [(String, u64)],
    pub tick: i32,
}

/// The value of the wanted property `info` for the player `player` (whose
/// entity is `entity_id`), by the kind of the property; `custom` is the value
/// of a custom property.
pub open spec fn spec_find_prop(
    src: PropSources,
    info: crate::prop_controller::PropInfo,
    entity_id: i32,
    player: PlayerMetaData,
    custom: Result<PropValueView, PropCollectionError>,
) -> Result<PropValueView, PropCollectionError> {
    let ents = src.entities@;
    match info.prop_type {
        crate::collect_data::PropType::Tick => Ok(PropValueView::I32(src.tick)),
        crate::collect_data::PropType::Name => match player.name {
            Some(n) => Ok(PropValueView::Str(n@)),
            None => Err(PropCollectionError::PlayerMetaDataNameNone),
        },
        crate::collect_data::PropType::Steamid => Ok(PropValueView::U64(
            match player.steamid {
                Some(s) => s,
                None => 0u64,
            },
        )),
        crate::collect_data::PropType::Player => spec_prop_from_ent(ents, info.id, entity_id),
        crate::collect_data::PropType::Team => spec_team_prop(ents, *src.special_ids, *src.teams, info.id, entity_id),
        crate::collect_data::PropType::Custom => custom,
        crate::collect_data::PropType::Weapon => spec_weapon_prop(ents, *src.special_ids, info.id, entity_id),
        crate::collect_data::PropType::Button => match spec_button_prop(
            ents,
            *src.special_ids,
            src.button_flags@,
            info.prop_name@,
            entity_id,
        ) {
            Ok(b) => Ok(PropValueView::Bool(b)),
            Err(e) => Err(e),
        },
        crate::collect_data::PropType::Controller => match player.controller_entid {
            Some(c) => spec_prop_from_ent(ents, info.id, c),
            None => Err(PropCollectionError::ControllerEntityIdNotSet),
        },
        crate::collect_data::PropType::Rules => match src.rules_entity_id {
            Some(r) => spec_prop_from_ent(ents, info.id, r),
            None => Err(PropCollectionError::RulesEntityIdNotSet),
        },
        crate::collect_data::PropType::GameTime => Err(PropCollectionError::PlayerNotFound),
    }
}

/// Reads the wanted property `prop_info` for the player `player` (whose
/// entity is `entity_id`) by its kind (`spec_find_prop`). A custom property
/// is computed from floating-point properties, so its value comes in as
/// `custom`. The game time is no property of a player.
pub fn find_prop(
    src: &PropSources,
    prop_info: &crate::prop_controller::PropInfo,
    entity_id: &i32,
    player: &PlayerMetaData,
    custom: Result<PropValue, PropCollectionError>,
) -> (r: Result<PropValue, PropCollectionError>)
    requires
        !(prop_info.prop_type is GameTime),
    ensures
        prop_result_view(r) == spec_find_prop(*src, *prop_info, *entity_id, *player, prop_result_view(custom)),
{
    match prop_info.prop_type {
        crate::collect_data::PropType::Tick => Ok(PropValue::I32(src.tick)),
        crate::collect_data::PropType::Name => create_name(player),
        crate::collect_data::PropType::Steamid => Ok(create_steamid(player)),
        crate::collect_data::PropType::Player => get_prop_from_ent(src.entities, &prop_info.id, entity_id),
        crate::collect_data::PropType::Team => find_team_prop(
            src.entities,
            src.special_ids,
            src.teams,
            &prop_info.id,
            entity_id,
        ),
        crate::collect_data::PropType::Custom => custom,
        crate::collect_data::PropType::Weapon => find_weapon_prop(src.entities, src.special_ids, &prop_info.id, entity_id),
        crate::collect_data::PropType::Button => match get_button_prop(
            src.entities,
            src.special_ids,
            src.button_flags,
            prop_info.prop_name.as_str(),
            entity_id,
        ) {
            Ok(b) => Ok(PropValue::Bool(b)),
            Err(e) => Err(e),
        },
        crate::collect_data::PropType::Controller => get_controller_prop(src.entities, &prop_info.id, player),
        crate::collect_data::PropType::Rules => get_rules_prop(src.entities, src.rules_entity_id, &prop_info.id),
        crate::collect_data::PropType::GameTime => Err(PropCollectionError::PlayerNotFound),
    }
}

// ---------------------------------------------------------------------------
// Entries of a packet-entities message.

/// What one entry of a packet-entities message does to its entity.
#[derive(Debug, Clone, Copy, PartialEq, Eq, Structural)]
pub enum EntityCmd {
    Delete,
    CreateAndUpdate,
    Update,
}

/// The header of one entry: the entity it is for, what is done to it, and,
/// for an update, whether the visibility bits mark it as unchanged (then
/// nothing follows for it).
#[derive(Debug, Clone, Copy, PartialEq, Eq, Structural)]
pub struct EntryHeader {
    pub entity_id: i32,
    pub cmd: EntityCmd,
    pub unchanged: bool,
}

/// The command coded by the two command bits `c`: `0b10` creates and
/// updates, `0b00` updates, `0b01` and `0b11` delete.
pub open spec fn entity_cmd_of(c: u32) -> EntityCmd {
    if c == 2 {
        EntityCmd::CreateAndUpdate
    } else if c == 0 {
        EntityCmd::Update
    } else {
        EntityCmd::Delete
    }
}

/// The id of the entity after `prev`, `delta` further on (a 32-bit
/// two's-complement step).
pub open spec fn next_entity_id(prev: i32, delta: u32) -> i32 {
    (prev as int + 1 + (delta as i32) as int) as i32
}

/// Reading the header of the entry after the one for entity `prev` from
/// `bits`: the id step, the two command bits and, for an update of a
/// message with visibility bits, two more bits whose low bit marks the
/// entity as unchanged.
pub open spec fn spec_entry_header(bits: Seq<bool>, prev: i32, has_pvs_vis_bits: bool) -> crate::read_bits::BitRead<
    EntryHeader,
> {
    let (r1, b1) = crate::read_bits::sp_u_bit_var(bits);
    match r1 {
        Err(e) => (Err(e), b1),
        Ok(delta) => {
            let id = next_entity_id(prev, delta);
            let (r2, b2) = crate::read_bits::sp_nbits(b1, 2);
            match r2 {
                Err(e) => (Err(e), b2),
                Ok(c) => {
                    let cmd = entity_cmd_of(c);
                    if cmd == EntityCmd::Update && has_pvs_vis_bits {
                        let (r3, b3) = crate::read_bits::sp_nbits(b2, 2);
                        match r3 {
                            Err(e) => (Err(e), b3),
                            Ok(v) => (Ok(EntryHeader { entity_id: id, cmd, unchanged: v & 1 == 1 }), b3),
                        }
                    } else {
                        (Ok(EntryHeader { entity_id: id, cmd, unchanged: false }), b2)
                    }
                },
            }
        },
    }
}

/// The command of an entry is given by its two command bits, the first read
/// being the lowest: whenever the first is set the entity is deleted; `0b10`
/// (first clear, second set) creates and updates it; `0b00` updates it.
/// The entity id is the previous one plus one plus the id step, where that
/// sum fits. An update in a message with visibility bits is marked unchanged
/// exactly when the first of its two visibility bits is set.
pub proof fn law_entry_command_bits(bits: Seq<bool>, prev: i32, has_pvs_vis_bits: bool)
    requires
        crate::read_bits::sp_u_bit_var(bits).0 is Ok,
        crate::read_bits::sp_u_bit_var(bits).1.len() >= 2,
    ensures
        ({
            let (r1, b1) = crate::read_bits::sp_u_bit_var(bits);
            let delta = r1->Ok_0;
            match spec_entry_header(bits, prev, has_pvs_vis_bits).0 {
                Ok(h) => {
                    &&& (h.cmd == EntityCmd::Delete <==> b1[0])
                    &&& (h.cmd == EntityCmd::CreateAndUpdate <==> (!b1[0] && b1[1]))
                    &&& (h.cmd == EntityCmd::Update <==> (!b1[0] && !b1[1]))
                    &&& (delta < 0x8000_0000 && prev + 1 + delta <= i32::MAX) ==> h.entity_id == prev + 1 + delta
                    &&& (h.cmd != EntityCmd::Update || !has_pvs_vis_bits) ==> !h.unchanged
                    &&& (h.cmd == EntityCmd::Update && has_pvs_vis_bits) ==> (h.unchanged <==> b1[2])
                },
                Err(_) => h_needs_more_bits(b1, has_pvs_vis_bits),
            }
        }),
{
    let (r1, b1) = crate::read_bits::sp_u_bit_var(bits);
    let c = crate::read_bits::bits_value(b1.take(2));
    assert(b1.take(2).drop_first().drop_first() =~= Seq::<bool>::empty());
    assert(b1.take(2).drop_first()[0] == b1[1]);
    reveal_with_fuel(crate::read_bits::bits_value, 3);
    assert(c == (if b1[0] { 1nat } else { 0nat }) + 2 * (if b1[1] { 1nat } else { 0nat }));
    if b1.len() >= 4 {
        let b2 = b1.skip(2);
        let v = crate::read_bits::bits_value(b2.take(2));
        assert(b2.take(2).drop_first().drop_first() =~= Seq::<bool>::empty());
        assert(b2.take(2)[0] == b1[2]);
        assert(v == (if b1[2] { 1nat } else { 0nat }) + 2 * (if b1[3] { 1nat } else { 0nat }));
        let vv: u32 = v as u32;
        assert(vv == 0 || vv == 1 || vv == 2 || vv == 3);
        assert(vv & 1u32 == 1u32 <==> (vv == 1 || vv == 3)) by (bit_vector)
            requires
                vv == 0 || vv == 1 || vv == 2 || vv == 3,
        ;
        assert(b1[2] <==> (vv == 1 || vv == 3));
    }
}

/// An entry header can only fail to be read, once its id step and command
/// bits are there, when an update in a message with visibility bits lacks
/// its two visibility bits.
pub open spec fn h_needs_more_bits(b1: Seq<bool>, has_pvs_vis_bits: bool) -> bool {
    has_pvs_vis_bits && !b1[0] && !b1[1] && b1.len() < 4
}

/// Reads the header of the entry after the one for entity `prev`
/// (`spec_entry_header`).
pub fn read_entry_header(bitreader: &mut crate::read_bits::Bitreader, prev: i32, has_pvs_vis_bits: bool) -> (res:
    Result<EntryHeader, DemoParserError>)
    ensures
        (res, final(bitreader).bits()) == spec_entry_header(old(bitreader).bits(), prev, has_pvs_vis_bits),
{
    let delta = bitreader.read_u_bit_var()?;
    let step: i64 = 1 + (delta as i32) as i64;
    let id: i32 = #[verifier::truncate] ((prev as i64 + step) as i32);
    let c = bitreader.read_nbits(2)?;
    let cmd = if c == 2 {
        EntityCmd::CreateAndUpdate
    } else if c == 0 {
        EntityCmd::Update
    } else {
        EntityCmd::Delete
    };
    if cmd == EntityCmd::Update && has_pvs_vis_bits {
        let v = bitreader.read_nbits(2)?;
        return Ok(EntryHeader { entity_id: id, cmd, unchanged: v & 1 == 1 });
    }
    Ok(EntryHeader { entity_id: id, cmd, unchanged: false })
}

/// Deletes entity `entity_id`: its slot becomes empty where it exists, and
/// nothing changes where it does not.
pub fn delete_entity(entities: &mut Vec<Option<Entity>>, entity_id: i32)
    ensures
        final(entities)@ == if 0 <= entity_id < old(entities)@.len() {
            old(entities)@.update(entity_id as int, None)
        } else {
            old(entities)@
        },
{
    if entity_id >= 0 && (entity_id as usize) < entities.len() {
        entities.set(entity_id as usize, None);
    }
}

} // verus!
