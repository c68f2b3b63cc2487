use demoparser::parser_settings::{
    check_multithreadability, contains_usercmd_prop, needs_velocity, rm_user_friendly_names, wanted_props, SpecialIDs,
    Teams,
};

fn strings(v: &[&str]) -> Vec<String> {
    v.iter().map(|s| s.to_string()).collect()
}

#[test]
fn velocity_needed_when_asked() {
    assert!(needs_velocity(&strings(&["X", "velocity_X"])));
    assert!(!needs_velocity(&strings(&["X", "Y"])));
    assert!(!needs_velocity(&[]));
}

#[test]
fn usercmd_props() {
    assert!(contains_usercmd_prop(&strings(&["usercmd_mouse_dx"])));
    assert!(!contains_usercmd_prop(&strings(&["health"])));
}

#[test]
fn multithreadability() {
    let blocked = strings(&["balance", "armor_value"]);
    assert!(check_multithreadability(&strings(&["X", "Y"]), &blocked));
    assert!(!check_multithreadability(&strings(&["X", "balance"]), &blocked));
    assert!(check_multithreadability(&[], &blocked));
}

#[test]
fn friendly_names_are_replaced() {
    let mapping = vec![
        ("ammo".to_string(), "m_iClip1".to_string()),
        ("health".to_string(), "CCSPlayerPawn.m_iHealth".to_string()),
    ];
    let names = strings(&["health", "Weapon.ammo", "Grenade.ammo", "unknown", "Weapon.other"]);
    let real = rm_user_friendly_names(&names, &mapping).unwrap();
    assert_eq!(real, strings(&["CCSPlayerPawn.m_iHealth", "m_iClip1", "m_iClip1", "unknown", "other"]));
}

#[test]
fn friendly_names_empty() {
    let real = rm_user_friendly_names(&vec![], &[]).unwrap();
    assert!(real.is_empty());
}

#[test]
fn typical_props_list() {
    let v = wanted_props();
    assert_eq!(v.len(), 22);
    assert_eq!(v[0], "tick");
    assert_eq!(v[8], "CCSPlayerPawn.m_angEyeAngles");
    assert_eq!(v[21], "balance");
}

#[test]
fn teams_start_unknown() {
    let t = Teams::new();
    assert_eq!(t.team1_entid, None);
    assert_eq!(t.team2_entid, None);
    assert_eq!(t.team3_entid, None);
}

#[test]
fn special_ids_start_unknown() {
    let s = SpecialIDs::new();
    assert_eq!(s.teamnum, None);
    assert_eq!(s.player_name, None);
    assert_eq!(s.steamid, None);
}
