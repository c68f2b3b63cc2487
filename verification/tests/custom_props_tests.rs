use demoparser::collect_data::PropType;
use demoparser::game_events::EventValue;
use demoparser::prop_controller::{
    set_custom_propinfos, PropInfo, WantedPropStateInfo, BUTTONS_BASEID, GAME_TIME_ID, NAME_ID, STEAMID_ID, TICK_ID,
};

fn s(x: &str) -> String {
    x.to_string()
}

#[test]
fn custom_infos_in_order() {
    let mut infos: Vec<PropInfo> = Vec::new();
    let mut states: Vec<WantedPropStateInfo> = Vec::new();
    let wanted = vec![s("FORWARD"), s("RIGHT"), s("is_alive"), s("game_time")];
    let other: Vec<String> = vec![];
    let wanted_states = vec![(s("RIGHT"), EventValue::Bool(true)), (s("is_alive"), EventValue::Bool(false))];
    let og = vec![(s("is_alive"), s("alive"))];
    let buttons = vec![s("FORWARD"), s("BACK"), s("RIGHT")];
    let customs = vec![(s("is_alive"), 100000001u32), (s("velocity"), 100000007u32)];
    let types = vec![(s("velocity"), PropType::Player)];
    set_custom_propinfos(&mut infos, &mut states, &wanted, &other, &wanted_states, &og, &buttons, &customs, &types, false);
    let got: Vec<(u32, PropType, String, String, bool)> = infos
        .iter()
        .map(|p| (p.id, p.prop_type, p.prop_name.clone(), p.prop_friendly_name.clone(), p.is_player_prop))
        .collect();
    assert_eq!(
        got,
        vec![
            (BUTTONS_BASEID, PropType::Button, s("FORWARD"), s("FORWARD"), true),
            (BUTTONS_BASEID + 1, PropType::Button, s("RIGHT"), s("RIGHT"), true),
            (100000001, PropType::Custom, s("is_alive"), s("alive"), true),
            (GAME_TIME_ID, PropType::GameTime, s("game_time"), s("game_time"), true),
            (TICK_ID, PropType::Tick, s("tick"), s("tick"), true),
            (STEAMID_ID, PropType::Steamid, s("steamid"), s("steamid"), true),
            (NAME_ID, PropType::Name, s("name"), s("name"), true),
        ]
    );
    assert_eq!(states.len(), 2);
    assert_eq!(states[0].base.id, BUTTONS_BASEID);
    assert_eq!(states[0].base.prop_name, "RIGHT");
    assert_eq!(states[0].wanted_prop_state, EventValue::Bool(true));
    assert_eq!(states[1].base.id, 100000001);
    assert_eq!(states[1].base.prop_friendly_name, "alive");
}

#[test]
fn grenades_and_other_game_time() {
    let mut infos: Vec<PropInfo> = Vec::new();
    let mut states: Vec<WantedPropStateInfo> = Vec::new();
    let other = vec![s("game_time")];
    set_custom_propinfos(&mut infos, &mut states, &[], &other, &[], &[], &[], &[], &[], true);
    let names: Vec<&str> = infos.iter().map(|p| p.prop_name.as_str()).collect();
    assert_eq!(names, vec!["game_time", "grenade_type", "grenade_entity_id", "x", "y", "z", "tick", "steamid", "name"]);
    assert!(!infos[0].is_player_prop);
    assert!(states.is_empty());
}
