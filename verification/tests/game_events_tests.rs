use demoparser::game_events::{
    combine_purchase_events, create_custom_event_weapon_purchase, contains_freeze_period_start, contains_match_end, contains_round_end_event,
    contains_weapon_create, extract_round_end, extract_win_reason, extract_winner, EventValue, GameEventInfo,
    PlayerExtraFields, PurchaseEvent, RoundEnd, RoundWinReason, WeaponSkin, ENTITYIDNONE,
};
use demoparser::entities::{Entity, EntityType, PlayerMetaData, PropValue};
use demoparser::parse_demo::EventField;
use demoparser::parser_settings::SpecialIDs;
use demoparser::prop_controller::{ITEM_PURCHASE_DEF_IDX, WEAPON_PAINT_SEED};
use ahash::AHashMap;

fn props_of(v: Vec<(u32, PropValue)>) -> AHashMap<u32, PropValue> {
    v.into_iter().collect()
}

fn names() -> Vec<(u32, String)> {
    vec![(7, "ak47".to_string()), (9, "awp".to_string())]
}

#[test]
fn purchase_with_handle() {
    let events = vec![
        GameEventInfo::WeaponCreateDefIdx((EventValue::U32(7), 3, ITEM_PURCHASE_DEF_IDX + 2)),
        GameEventInfo::RoundWinReason(RoundWinReason { reason: 1 }),
        GameEventInfo::WeaponCreateNCost((EventValue::I32(2700), 3)),
        GameEventInfo::WeaponCreateHitem((EventValue::U64(0x1234_5805), 3)),
    ];
    let p = combine_purchase_events(&events, &names());
    assert_eq!(
        p,
        vec![PurchaseEvent { entid: 3, cost: 2700, name: Some("ak47".to_string()), weapon_entid: 0x005, inventory_slot: 2 }]
    );
}

#[test]
fn purchase_without_handle_and_unknown_weapon() {
    let events = vec![
        GameEventInfo::WeaponCreateDefIdx((EventValue::U32(99), 4, ITEM_PURCHASE_DEF_IDX)),
        GameEventInfo::WeaponCreateNCost((EventValue::I32(50), 4)),
        GameEventInfo::WeaponCreateDefIdx((EventValue::U32(9), 5, ITEM_PURCHASE_DEF_IDX + 1)),
        GameEventInfo::WeaponCreateNCost((EventValue::I32(4750), 5)),
    ];
    let p = combine_purchase_events(&events, &names());
    assert_eq!(
        p,
        vec![
            PurchaseEvent { entid: 4, cost: 50, name: None, weapon_entid: ENTITYIDNONE, inventory_slot: 0 },
            PurchaseEvent { entid: 5, cost: 4750, name: Some("awp".to_string()), weapon_entid: ENTITYIDNONE, inventory_slot: 1 },
        ]
    );
}

#[test]
fn incomplete_purchases_are_skipped() {
    let events = vec![
        GameEventInfo::WeaponCreateNCost((EventValue::I32(50), 4)),
        GameEventInfo::WeaponCreateDefIdx((EventValue::U32(7), 4, ITEM_PURCHASE_DEF_IDX)),
        GameEventInfo::WeaponCreateHitem((EventValue::U64(1), 4)),
        GameEventInfo::WeaponCreateDefIdx((EventValue::Other, 4, ITEM_PURCHASE_DEF_IDX)),
        GameEventInfo::WeaponCreateNCost((EventValue::I32(50), 4)),
        GameEventInfo::MatchEnd(),
    ];
    assert!(combine_purchase_events(&events, &names()).is_empty());
    assert!(combine_purchase_events(&[], &names()).is_empty());
}

fn tick_events() -> Vec<GameEventInfo> {
    vec![
        GameEventInfo::FreezePeriodStart(true),
        GameEventInfo::RoundWinReason(RoundWinReason { reason: 9 }),
        GameEventInfo::RoundEnd(RoundEnd { old_value: Some(EventValue::U32(3)), new_value: Some(EventValue::U32(4)) }),
        GameEventInfo::RoundWinReason(RoundWinReason { reason: 8 }),
        GameEventInfo::RoundEnd(RoundEnd { old_value: None, new_value: None }),
    ]
}

#[test]
fn which_changes_a_tick_holds() {
    let events = tick_events();
    assert!(contains_round_end_event(&events));
    assert!(contains_freeze_period_start(&events));
    assert!(!contains_match_end(&events));
    assert!(!contains_weapon_create(&events));
    let more = vec![GameEventInfo::MatchEnd(), GameEventInfo::WeaponCreateDefIdx((EventValue::Other, 1, 2))];
    assert!(contains_match_end(&more));
    assert!(contains_weapon_create(&more));
    assert!(!contains_round_end_event(&more));
    assert!(!contains_freeze_period_start(&[]));
}

#[test]
fn first_round_end_is_taken() {
    let r = extract_round_end(&tick_events()).unwrap();
    assert_eq!(r.old_value, Some(EventValue::U32(3)));
    assert_eq!(r.new_value, Some(EventValue::U32(4)));
    assert!(extract_round_end(&[GameEventInfo::MatchEnd()]).is_none());
}

#[test]
fn win_reason_and_winner_by_table_or_code() {
    let reasons = vec![(9, "t_killed".to_string()), (8, "ct_killed".to_string())];
    let winners = vec![(9, "CT".to_string())];
    assert_eq!(extract_win_reason(&tick_events(), &reasons), Some("t_killed".to_string()));
    assert_eq!(extract_winner(&tick_events(), &winners), Some("CT".to_string()));
    let other = vec![GameEventInfo::RoundWinReason(RoundWinReason { reason: -12 })];
    assert_eq!(extract_winner(&other, &winners), Some("-12".to_string()));
    assert_eq!(extract_win_reason(&[GameEventInfo::MatchEnd()], &reasons), None);
}

fn buyer(id: i32, in_zone: bool) -> Option<Entity> {
    Some(Entity { cls_id: 0, entity_id: id, props: props_of(vec![(77, PropValue::Bool(in_zone))]), entity_type: EntityType::Normal })
}

#[test]
fn purchase_events_in_buy_zone() {
    let events = vec![
        GameEventInfo::WeaponCreateDefIdx((EventValue::U32(7), 1, ITEM_PURCHASE_DEF_IDX + 2)),
        GameEventInfo::WeaponCreateNCost((EventValue::I32(2700), 1)),
        GameEventInfo::WeaponCreateHitem((EventValue::U64(0x805), 1)),
        GameEventInfo::WeaponCreateDefIdx((EventValue::U32(9), 2, ITEM_PURCHASE_DEF_IDX)),
        GameEventInfo::WeaponCreateNCost((EventValue::I32(4750), 2)),
    ];
    let mut ents = vec![None, buyer(1, true), buyer(2, false), None, None];
    ents.push(Some(Entity {
        cls_id: 0,
        entity_id: 5,
        props: props_of(vec![(WEAPON_PAINT_SEED, PropValue::U32(661)), (88, PropValue::Str("Old Faithful".to_string()))]),
        entity_type: EntityType::Normal,
    }));
    let mut ids = SpecialIDs::new();
    ids.in_buy_zone = Some(77);
    ids.custom_name = Some(88);
    let skins = vec![
        WeaponSkin { weapon_entid: 6, skin: None, skin_id: Some(PropValue::U32(1)), stickers: None },
        WeaponSkin {
            weapon_entid: 5,
            skin: Some(PropValue::Str("Redline".to_string())),
            skin_id: Some(PropValue::U32(282)),
            stickers: None,
        },
    ];
    let players = vec![(
        1,
        PlayerMetaData {
            player_entity_id: Some(1),
            steamid: Some(42),
            controller_entid: Some(3),
            name: Some("p1".to_string()),
            team_num: Some(2),
        },
    )];
    let extras = vec![
        PlayerExtraFields {
            entid: 2,
            fields: vec![EventField { name: "user_health".to_string(), data: Some(PropValue::I32(10)) }],
        },
        PlayerExtraFields {
            entid: 1,
            fields: vec![EventField { name: "user_health".to_string(), data: Some(PropValue::I32(87)) }],
        },
    ];
    let others = vec![EventField { name: "total_rounds_played".to_string(), data: Some(PropValue::I32(4)) }];
    let mut counter: Vec<String> = vec![];
    let wanted = vec!["all".to_string()];
    let r = create_custom_event_weapon_purchase(&events, &names(), &ents, &ids, &players, &wanted, 640, &skins, &extras, &others, &mut counter);
    assert_eq!(counter, vec!["item_purchase".to_string()]);
    assert_eq!(r.len(), 1);
    let (ev, p) = &r[0];
    assert_eq!(ev.name, "item_purchase");
    assert_eq!(ev.tick, 640);
    assert_eq!(p.weapon_entid, 5);
    let names_of: Vec<&str> = ev.fields.iter().map(|f| f.name.as_str()).collect();
    assert_eq!(
        names_of,
        vec![
            "item_name",
            "name",
            "steamid",
            "inventory_slot",
            "cost",
            "tick",
            "float",
            "skin",
            "skin_id",
            "paint_seed",
            "stickers",
            "custom_name",
            "user_health",
            "total_rounds_played"
        ]
    );
    assert!(matches!(&ev.fields[0].data, Some(PropValue::Str(s)) if s == "ak47"));
    assert!(matches!(&ev.fields[1].data, Some(PropValue::Str(s)) if s == "p1"));
    assert!(matches!(ev.fields[2].data, Some(PropValue::U64(42))));
    assert!(matches!(ev.fields[3].data, Some(PropValue::U32(2))));
    assert!(matches!(ev.fields[4].data, Some(PropValue::I32(2700))));
    assert!(matches!(ev.fields[5].data, Some(PropValue::I32(640))));
    assert!(ev.fields[6].data.is_none());
    assert!(matches!(&ev.fields[7].data, Some(PropValue::Str(s)) if s == "Redline"));
    assert!(matches!(ev.fields[8].data, Some(PropValue::U32(282))));
    assert!(matches!(ev.fields[9].data, Some(PropValue::U32(661))));
    assert!(ev.fields[10].data.is_none());
    assert!(matches!(&ev.fields[11].data, Some(PropValue::Str(s)) if s == "Old Faithful"));
    assert!(matches!(ev.fields[12].data, Some(PropValue::I32(87))));
    assert!(matches!(ev.fields[13].data, Some(PropValue::I32(4))));
    // Not wanted: nothing, but still noted.
    let r2 = create_custom_event_weapon_purchase(&events, &names(), &ents, &ids, &players, &[], 640, &skins, &extras, &others, &mut counter);
    assert!(r2.is_empty());
    assert_eq!(counter.len(), 1);
}
