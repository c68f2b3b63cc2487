use demoparser::collect_data::{PropCollectionError, PropType};
use demoparser::entities::{find_prop, Entity, EntityType, PlayerMetaData, PropSources, PropValue};
use demoparser::parser_settings::{SpecialIDs, Teams};
use demoparser::prop_controller::PropInfo;

const PLAYER_ENTITY_ID: i32 = 1;
const WANTED_PROP_ID: u32 = 2;
const THIS_PLAYERS_CONTROLLER_ID: i32 = 3;
const RULES_ENTITY_ID: i32 = 4;
const BUTTONS_SPECIAL_ID: u32 = 5;
const PLAYER_TEAM_POINTER_SPECIAL_ID: u32 = 6;
const TEAM_ENTITY_ID: i32 = 7;
const PLAYER_STEAMID: u64 = 76511234567899874;
const PLAYER_NAME: &str = "PLAYER_NAME";

fn default_player() -> PlayerMetaData {
    PlayerMetaData {
        controller_entid: Some(THIS_PLAYERS_CONTROLLER_ID),
        name: Some(PLAYER_NAME.to_string()),
        player_entity_id: Some(PLAYER_ENTITY_ID),
        steamid: Some(PLAYER_STEAMID),
        team_num: Some(3),
    }
}

fn entity(entity_id: i32, props: Vec<(u32, PropValue)>) -> Entity {
    Entity { cls_id: 0, entity_id, props: props.into_iter().collect(), entity_type: EntityType::Normal }
}

/// The entity table, indexed by entity id, holding `ents`.
fn table(ents: Vec<Entity>) -> Vec<Option<Entity>> {
    let mut t: Vec<Option<Entity>> = (0..8).map(|_| None).collect();
    for e in ents {
        let i = e.entity_id as usize;
        t[i] = Some(e);
    }
    t
}

fn button_flags() -> Vec<(String, u64)> {
    vec![("Attack".to_string(), 1), ("A".to_string(), 1 << 9), ("D".to_string(), 1 << 10)]
}

fn prop_info(id: u32, prop_type: PropType, name: &str) -> PropInfo {
    PropInfo {
        id,
        prop_type,
        prop_name: name.to_string(),
        prop_friendly_name: name.to_string(),
        is_player_prop: true,
    }
}

/// Reads `info` for the default player at entity `entity_id`, with the
/// given state.
fn read(
    entities: &[Option<Entity>],
    special_ids: &SpecialIDs,
    teams: &Teams,
    rules_entity_id: Option<i32>,
    tick: i32,
    info: &PropInfo,
    entity_id: i32,
) -> Result<PropValue, PropCollectionError> {
    let flags = button_flags();
    let src = PropSources { entities, special_ids, teams, rules_entity_id, button_flags: &flags, tick };
    find_prop(&src, info, &entity_id, &default_player(), Err(PropCollectionError::GetPropFromEntPropNotFound))
}

#[test]
fn test_create_tick() {
    let entities = table(vec![]);
    let info = prop_info(WANTED_PROP_ID, PropType::Tick, "tick");
    let prop = read(&entities, &SpecialIDs::new(), &Teams::new(), None, 5555555, &info, 69);
    assert!(matches!(prop, Ok(PropValue::I32(5555555))));
}

#[test]
fn test_create_steamid() {
    let entities = table(vec![]);
    let info = prop_info(WANTED_PROP_ID, PropType::Steamid, "steamid");
    let prop = read(&entities, &SpecialIDs::new(), &Teams::new(), None, 0, &info, 69);
    assert!(matches!(prop, Ok(PropValue::U64(PLAYER_STEAMID))));
}

#[test]
fn test_create_name() {
    let entities = table(vec![]);
    let info = prop_info(WANTED_PROP_ID, PropType::Name, "name");
    let prop = read(&entities, &SpecialIDs::new(), &Teams::new(), None, 0, &info, 69);
    assert!(matches!(prop, Ok(PropValue::Str(ref s)) if s == PLAYER_NAME));
}

#[test]
fn test_get_prop_from_ent_no_entity_found() {
    let entities = table(vec![]);
    let info = prop_info(WANTED_PROP_ID, PropType::Controller, "WINS");
    let prop = read(&entities, &SpecialIDs::new(), &Teams::new(), None, 0, &info, 999999);
    assert!(matches!(prop, Err(PropCollectionError::GetPropFromEntEntityNotFound)));
}

#[test]
fn test_get_prop_from_ent_no_prop_found() {
    let player = entity(PLAYER_ENTITY_ID, vec![]);
    let entities = table(vec![player]);
    let info = prop_info(WANTED_PROP_ID, PropType::Player, "WINS");
    let prop = read(&entities, &SpecialIDs::new(), &Teams::new(), None, 0, &info, PLAYER_ENTITY_ID);
    assert!(matches!(prop, Err(PropCollectionError::GetPropFromEntPropNotFound)));
}

#[test]
fn test_controller_prop_found() {
    let player = entity(PLAYER_ENTITY_ID, vec![]);
    let controller = entity(THIS_PLAYERS_CONTROLLER_ID, vec![(WANTED_PROP_ID, PropValue::I32(555))]);
    let entities = table(vec![player, controller]);
    let info = prop_info(WANTED_PROP_ID, PropType::Controller, "WINS");
    let prop = read(&entities, &SpecialIDs::new(), &Teams::new(), None, 0, &info, PLAYER_ENTITY_ID);
    assert!(matches!(prop, Ok(PropValue::I32(555))));
}

#[test]
fn test_controller_prop_not_found() {
    let player = entity(PLAYER_ENTITY_ID, vec![]);
    let controller = entity(THIS_PLAYERS_CONTROLLER_ID, vec![]);
    let entities = table(vec![player, controller]);
    let info = prop_info(WANTED_PROP_ID, PropType::Controller, "WINS");
    let prop = read(&entities, &SpecialIDs::new(), &Teams::new(), None, 0, &info, PLAYER_ENTITY_ID);
    assert!(matches!(prop, Err(PropCollectionError::GetPropFromEntPropNotFound)));
}

#[test]
fn test_rules_prop_found() {
    let player = entity(PLAYER_ENTITY_ID, vec![]);
    let rules = entity(RULES_ENTITY_ID, vec![(WANTED_PROP_ID, PropValue::U32(33333))]);
    let entities = table(vec![player, rules]);
    let info = prop_info(WANTED_PROP_ID, PropType::Rules, "WINS");
    let prop = read(&entities, &SpecialIDs::new(), &Teams::new(), Some(RULES_ENTITY_ID), 0, &info, PLAYER_ENTITY_ID);
    assert!(matches!(prop, Ok(PropValue::U32(33333))));
}

#[test]
fn test_button_prop_found() {
    let mut special_ids = SpecialIDs::new();
    special_ids.buttons = Some(BUTTONS_SPECIAL_ID);
    let flag = button_flags().iter().find(|(name, _)| name == "A").unwrap().1;
    let player = entity(PLAYER_ENTITY_ID, vec![(BUTTONS_SPECIAL_ID, PropValue::U64(flag))]);
    let entities = table(vec![player]);
    let info = prop_info(BUTTONS_SPECIAL_ID, PropType::Button, "A");
    let prop = read(&entities, &special_ids, &Teams::new(), None, 0, &info, PLAYER_ENTITY_ID);
    assert!(matches!(prop, Ok(PropValue::Bool(true))));
}

fn team_setup(team_pointer: PropValue) -> Vec<Option<Entity>> {
    let player = entity(PLAYER_ENTITY_ID, vec![(PLAYER_TEAM_POINTER_SPECIAL_ID, team_pointer)]);
    let team = entity(TEAM_ENTITY_ID, vec![(WANTED_PROP_ID, PropValue::FloatBits(55.6484211f32.to_bits()))]);
    table(vec![player, team])
}

fn team_ids() -> SpecialIDs {
    let mut special_ids = SpecialIDs::new();
    special_ids.player_team_pointer = Some(PLAYER_TEAM_POINTER_SPECIAL_ID);
    special_ids
}

fn team3() -> Teams {
    let mut teams = Teams::new();
    teams.team3_entid = Some(TEAM_ENTITY_ID);
    teams
}

#[test]
fn test_team_prop_found() {
    let entities = team_setup(PropValue::U32(3));
    let info = prop_info(WANTED_PROP_ID, PropType::Team, "someprop");
    let prop = read(&entities, &team_ids(), &team3(), None, 0, &info, PLAYER_ENTITY_ID);
    let expected = 55.6484211f32.to_bits();
    assert!(matches!(prop, Ok(PropValue::FloatBits(b)) if b == expected));
}

#[test]
fn test_team_prop_not_found_team_incorrect_variant() {
    let entities = team_setup(PropValue::Bool(false));
    let info = prop_info(WANTED_PROP_ID, PropType::Team, "someprop");
    let prop = read(&entities, &team_ids(), &team3(), None, 0, &info, PLAYER_ENTITY_ID);
    assert!(matches!(prop, Err(PropCollectionError::TeamNumIncorrectVariant)));
}

#[test]
fn test_team_prop_not_found_player_pointer_not_set() {
    let entities = team_setup(PropValue::U32(3));
    let info = prop_info(WANTED_PROP_ID, PropType::Team, "someprop");
    let prop = read(&entities, &SpecialIDs::new(), &team3(), None, 0, &info, PLAYER_ENTITY_ID);
    assert!(matches!(prop, Err(PropCollectionError::SpecialidsPlayerTeamPointerNotSet)));
}

#[test]
fn test_team_prop_not_found_team_entity_id_not_set() {
    let entities = team_setup(PropValue::U32(3));
    let info = prop_info(WANTED_PROP_ID, PropType::Team, "someprop");
    let prop = read(&entities, &team_ids(), &Teams::new(), None, 0, &info, PLAYER_ENTITY_ID);
    assert!(matches!(prop, Err(PropCollectionError::TeamEntityIdNotSet)));
}

#[test]
fn test_team_prop_not_found_illegal_team_num() {
    let entities = team_setup(PropValue::U32(4));
    let info = prop_info(WANTED_PROP_ID, PropType::Team, "someprop");
    let prop = read(&entities, &team_ids(), &Teams::new(), None, 0, &info, PLAYER_ENTITY_ID);
    assert!(matches!(prop, Err(PropCollectionError::IllegalTeamValue)));
}

#[test]
fn test_player_prop_found() {
    let player = entity(PLAYER_ENTITY_ID, vec![(WANTED_PROP_ID, PropValue::U8(47))]);
    let entities = table(vec![player]);
    let info = prop_info(WANTED_PROP_ID, PropType::Player, "player_prop");
    let prop = read(&entities, &SpecialIDs::new(), &Teams::new(), None, 0, &info, PLAYER_ENTITY_ID);
    assert!(matches!(prop, Ok(PropValue::U8(47))));
}

#[test]
fn find_prop_custom_passes_the_given_value() {
    let entities = table(vec![]);
    let info = prop_info(WANTED_PROP_ID, PropType::Custom, "X");
    let flags = button_flags();
    let src = PropSources {
        entities: &entities,
        special_ids: &SpecialIDs::new(),
        teams: &Teams::new(),
        rules_entity_id: None,
        button_flags: &flags,
        tick: 0,
    };
    let prop = find_prop(&src, &info, &PLAYER_ENTITY_ID, &default_player(), Ok(PropValue::U32(12)));
    assert!(matches!(prop, Ok(PropValue::U32(12))));
}
