use demoparser::entities::{delete_entity, read_entry_header, EntityCmd, EntryHeader};
use demoparser::read_bits::Bitreader;
use demoparser::collect_data::PropCollectionError;
use demoparser::entities::{
    create_name, create_steamid, find_c4_owner, find_player_metadata, find_thrower_name, find_thrower_steamid,
    find_weapon_name, find_weapon_prop, get_button_prop, find_is_airborne, find_is_alive, find_owner_entid, find_team_prop, find_user_by_controller_id,
    gather_extra_info, get_controller_prop, get_prop_from_ent, get_rules_prop, steamids_from_mask, Entity, EntityType,
    PlayerMetaData, PropValue, IS_AIRBORNE_CONST,
};
use demoparser::error::DemoParserError;
use demoparser::parser_settings::{SpecialIDs, Teams};
use ahash::AHashMap;

fn props_of(v: Vec<(u32, PropValue)>) -> AHashMap<u32, PropValue> {
    v.into_iter().collect()
}

fn ids() -> SpecialIDs {
    let mut ids = SpecialIDs::new();
    ids.teamnum = Some(1);
    ids.player_name = Some(2);
    ids.steamid = Some(3);
    ids.player_pawn = Some(4);
    ids.team_team_num = Some(5);
    ids
}

fn controller(id: i32, team: u32, name: &str, steamid: u64, pawn_handle: u32) -> Entity {
    Entity {
        cls_id: 0,
        entity_id: id,
        props: props_of(vec![
            (1, PropValue::U32(team)),
            (2, PropValue::Str(name.to_string())),
            (3, PropValue::U64(steamid)),
            (4, PropValue::U32(pawn_handle)),
        ]),
        entity_type: EntityType::PlayerController,
    }
}

#[test]
fn props_of_entities() {
    let ents = vec![None, Some(controller(1, 2, "a", 7, 0x1005))];
    assert!(matches!(get_prop_from_ent(&ents, &3, &1), Ok(PropValue::U64(7))));
    assert!(matches!(get_prop_from_ent(&ents, &9, &1), Err(PropCollectionError::GetPropFromEntPropNotFound)));
    assert!(matches!(get_prop_from_ent(&ents, &3, &0), Err(PropCollectionError::GetPropFromEntEntityNotFound)));
    assert!(matches!(get_prop_from_ent(&ents, &3, &-1), Err(PropCollectionError::GetPropFromEntEntityNotFound)));
}

#[test]
fn controllers_record_players() {
    let ents = vec![
        None,
        Some(controller(1, 2, "alice", 7, 0x1005)),
        Some(controller(2, 3, "alice2", 7, 0x0009)),
        Some(controller(3, 1, "spec", 8, 0x000A)),
        Some(Entity { cls_id: 0, entity_id: 4, props: props_of(vec![(5, PropValue::U32(3))]), entity_type: EntityType::Team }),
    ];
    let mut players: Vec<(i32, PlayerMetaData)> = Vec::new();
    let mut teams = Teams::new();
    gather_extra_info(&ents, &ids(), &mut players, &mut teams, &1, false).unwrap();
    assert_eq!(players.len(), 1);
    assert_eq!(players[0].0, 5);
    assert_eq!(players[0].1.name, Some("alice".to_string()));
    assert_eq!(players[0].1.controller_entid, Some(1));
    // Same steamid: the old entry goes.
    gather_extra_info(&ents, &ids(), &mut players, &mut teams, &2, false).unwrap();
    assert_eq!(players.len(), 1);
    assert_eq!(players[0].0, 9);
    assert_eq!(players[0].1.team_num, Some(3));
    // Spectators are not recorded.
    gather_extra_info(&ents, &ids(), &mut players, &mut teams, &3, false).unwrap();
    assert_eq!(players.len(), 1);
    gather_extra_info(&ents, &ids(), &mut players, &mut teams, &4, false).unwrap();
    assert_eq!(teams.team3_entid, Some(4));
    assert_eq!(gather_extra_info(&ents, &ids(), &mut players, &mut teams, &0, false), Err(DemoParserError::EntityNotFound));
}

#[test]
fn wrong_kind_of_metadata() {
    let mut bad = controller(1, 2, "x", 7, 5);
    bad.props.insert(2, PropValue::U32(1));
    let ents = vec![None, Some(bad)];
    let mut players: Vec<(i32, PlayerMetaData)> = Vec::new();
    let mut teams = Teams::new();
    assert_eq!(
        gather_extra_info(&ents, &ids(), &mut players, &mut teams, &1, false),
        Err(DemoParserError::IncorrectMetaDataProp)
    );
    assert!(players.is_empty());
}

#[test]
fn players_stay_in_key_order() {
    let ents = vec![
        None,
        Some(controller(1, 2, "a", 11, 0x30)),
        Some(controller(2, 2, "b", 12, 0x10)),
        Some(controller(3, 3, "c", 13, 0x20)),
    ];
    let mut players: Vec<(i32, PlayerMetaData)> = Vec::new();
    let mut teams = Teams::new();
    for id in [1, 2, 3] {
        gather_extra_info(&ents, &ids(), &mut players, &mut teams, &id, true).unwrap();
    }
    let keys: Vec<i32> = players.iter().map(|p| p.0).collect();
    assert_eq!(keys, vec![0x10, 0x20, 0x30]);
    assert_eq!(find_user_by_controller_id(&players, 3).unwrap().steamid, Some(13));
    assert!(find_user_by_controller_id(&players, 9).is_none());
    assert_eq!(steamids_from_mask(&players, 0b101), vec![11, 13]);
    assert_eq!(steamids_from_mask(&players, 0), Vec::<u64>::new());
}

#[test]
fn team_and_other_props() {
    let mut s = ids();
    s.player_team_pointer = Some(10);
    s.life_state = Some(11);
    s.grenade_owner_id = Some(12);
    s.h_owner_entity = Some(13);
    s.is_airborn = Some(14);
    let player = Entity {
        cls_id: 0,
        entity_id: 1,
        props: props_of(vec![(10, PropValue::U32(2)), (11, PropValue::U32(0)), (14, PropValue::U32(IS_AIRBORNE_CONST))]),
        entity_type: EntityType::Normal,
    };
    let team = Entity { cls_id: 0, entity_id: 2, props: props_of(vec![(99, PropValue::I32(16))]), entity_type: EntityType::Team };
    let nade = Entity { cls_id: 0, entity_id: 3, props: props_of(vec![(12, PropValue::U32(0x1801)), (13, PropValue::U32(0x802))]), entity_type: EntityType::Normal };
    let ents = vec![None, Some(player), Some(team), Some(nade)];
    let mut teams = Teams::new();
    assert_eq!(find_team_prop(&ents, &s, &teams, &99, &1).unwrap_err(), PropCollectionError::TeamEntityIdNotSet);
    teams.team2_entid = Some(2);
    assert!(matches!(find_team_prop(&ents, &s, &teams, &99, &1), Ok(PropValue::I32(16))));
    assert!(find_is_alive(&ents, &s, &1));
    assert!(!find_is_alive(&ents, &s, &2));
    assert_eq!(find_owner_entid(&ents, &s, &3), Ok(1));
    assert_eq!(find_c4_owner(&ents, &s, Some(3)), Some(2));
    assert_eq!(find_c4_owner(&ents, &s, None), None);
    let meta = PlayerMetaData { player_entity_id: Some(1), steamid: None, controller_entid: Some(2), name: None, team_num: None };
    assert!(find_is_airborne(&ents, &s, &meta));
    assert!(matches!(get_controller_prop(&ents, &99, &meta), Ok(PropValue::I32(16))));
    assert!(matches!(get_rules_prop(&ents, None, &99), Err(PropCollectionError::RulesEntityIdNotSet)));
}

#[test]
fn weapons_buttons_and_throwers() {
    let mut s = ids();
    s.active_weapon = Some(20);
    s.item_def = Some(21);
    s.buttons = Some(22);
    s.grenade_owner_id = Some(23);
    let player = Entity {
        cls_id: 0,
        entity_id: 1,
        props: props_of(vec![(20, PropValue::U32(0x1002)), (22, PropValue::U64(0b110))]),
        entity_type: EntityType::Normal,
    };
    let weapon = Entity { cls_id: 0, entity_id: 2, props: props_of(vec![(21, PropValue::U32(7))]), entity_type: EntityType::Normal };
    let nade = Entity { cls_id: 0, entity_id: 3, props: props_of(vec![(23, PropValue::U32(0x805))]), entity_type: EntityType::Normal };
    let ents = vec![None, Some(player), Some(weapon), Some(nade)];
    assert!(matches!(find_weapon_prop(&ents, &s, &21, &1), Ok(PropValue::U32(7))));
    assert_eq!(find_weapon_prop(&ents, &s, &99, &1).unwrap_err(), PropCollectionError::WeaponEntityWantedPropNotFound);
    let names = vec![(7u32, "ak47".to_string())];
    assert_eq!(find_weapon_name(&ents, &s, &names, &1), Ok("ak47".to_string()));
    assert_eq!(find_weapon_name(&ents, &s, &[], &1), Err(PropCollectionError::WeaponIdxMappingNotFound));
    let flags = vec![("FORWARD".to_string(), 0b10u64), ("JUMP".to_string(), 0b1000u64)];
    assert_eq!(get_button_prop(&ents, &s, &flags, "FORWARD", &1), Ok(true));
    assert_eq!(get_button_prop(&ents, &s, &flags, "JUMP", &1), Ok(false));
    assert_eq!(get_button_prop(&ents, &s, &flags, "USE", &1), Err(PropCollectionError::ButtonsMapNoEntryFound));
    let players = vec![(5, PlayerMetaData { player_entity_id: Some(5), steamid: None, controller_entid: None, name: Some("t".to_string()), team_num: None })];
    assert_eq!(find_thrower_steamid(&ents, &s, &players, &3), Ok(0));
    assert_eq!(find_thrower_name(&ents, &s, &players, &3), Ok("t".to_string()));
    assert_eq!(find_player_metadata(&players, 6).unwrap_err(), PropCollectionError::PlayerNotFound);
    assert!(matches!(create_steamid(&players[0].1), PropValue::U64(0)));
    assert!(matches!(create_name(&players[0].1), Ok(PropValue::Str(n)) if n == "t"));
}

#[test]
fn entry_header_create_after_start() {
    let bytes = [0x80u8];
    let mut br = Bitreader::new(&bytes);
    let h = read_entry_header(&mut br, -1, false).unwrap();
    assert_eq!(h, EntryHeader { entity_id: 0, cmd: EntityCmd::CreateAndUpdate, unchanged: false });
}

#[test]
fn entry_header_update_marked_unchanged() {
    let bytes = [0x03u8, 0x01];
    let mut br = Bitreader::new(&bytes);
    let h = read_entry_header(&mut br, 5, true).unwrap();
    assert_eq!(h, EntryHeader { entity_id: 9, cmd: EntityCmd::Update, unchanged: true });
    // Without visibility bits the same entry is a plain update.
    let mut br = Bitreader::new(&bytes);
    let h = read_entry_header(&mut br, 5, false).unwrap();
    assert_eq!(h, EntryHeader { entity_id: 9, cmd: EntityCmd::Update, unchanged: false });
}

#[test]
fn entry_header_delete_and_out_of_bits() {
    let bytes = [0x40u8];
    let mut br = Bitreader::new(&bytes);
    let h = read_entry_header(&mut br, 0, true).unwrap();
    assert_eq!(h, EntryHeader { entity_id: 1, cmd: EntityCmd::Delete, unchanged: false });
    let empty: [u8; 0] = [];
    let mut br = Bitreader::new(&empty);
    assert_eq!(read_entry_header(&mut br, 0, true), Err(DemoParserError::OutOfBitsError));
}

#[test]
fn delete_entity_empties_the_slot() {
    let mut ents = vec![None, Some(controller(1, 2, "a", 7, 5)), Some(controller(2, 2, "b", 8, 6))];
    delete_entity(&mut ents, 1);
    assert!(ents[1].is_none());
    assert!(ents[2].is_some());
    delete_entity(&mut ents, 7);
    delete_entity(&mut ents, -1);
    assert_eq!(ents.len(), 3);
    assert!(ents[2].is_some());
}
