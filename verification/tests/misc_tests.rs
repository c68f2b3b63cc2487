use demoparser::demo_cmd::{demo_cmd_type_from_int, EDemoCommands};
use demoparser::entities::{check_entity_type, Class, EntityType};
use demoparser::error::DemoParserError;
use demoparser::sendtables::Serializer;
use demoparser::prop_controller::{is_grenade_or_weapon, split_weapon_prefix_from_prop_name};
use demoparser::strings::{find_first_dot, split_at_first_dot, str_contains, str_eq, str_starts_with, strip_prefix};
use demoparser::variants::filter_to_vec;
use demoparser::voice_data::generate_wav_header;

#[test]
fn wav_header_layout() {
    let h = generate_wav_header(1, 48000, 16, 1000);
    assert_eq!(h.len(), 44);
    assert_eq!(&h[0..4], b"RIFF");
    assert_eq!(&h[4..8], &1036u32.to_le_bytes());
    assert_eq!(&h[8..12], b"WAVE");
    assert_eq!(&h[12..16], b"fmt ");
    assert_eq!(&h[16..20], &16u32.to_le_bytes());
    assert_eq!(&h[20..22], &1u16.to_le_bytes());
    assert_eq!(&h[22..24], &1u16.to_le_bytes());
    assert_eq!(&h[24..28], &48000u32.to_le_bytes());
    assert_eq!(&h[28..32], &96000u32.to_le_bytes());
    assert_eq!(&h[32..34], &2u16.to_le_bytes());
    assert_eq!(&h[34..36], &16u16.to_le_bytes());
    assert_eq!(&h[36..40], b"data");
    assert_eq!(&h[40..44], &1000u32.to_le_bytes());
}

#[test]
fn wav_header_stereo() {
    let h = generate_wav_header(2, 44100, 16, 0);
    assert_eq!(&h[4..8], &36u32.to_le_bytes());
    assert_eq!(&h[28..32], &176400u32.to_le_bytes());
    assert_eq!(&h[32..34], &4u16.to_le_bytes());
}

#[test]
fn filter_keeps_converted_items_in_order() {
    let items: Vec<Option<u8>> = vec![Some(1), None, Some(3), None, Some(2)];
    assert_eq!(filter_to_vec(items), vec![1, 3, 2]);
    let converted: Vec<Option<u8>> = [300i32, 5, -1, 255].iter().map(|x| u8::try_from(*x).ok()).collect();
    assert_eq!(filter_to_vec(converted), vec![5, 255]);
    let none: Vec<Option<String>> = vec![None, None];
    assert!(filter_to_vec(none).is_empty());
}

#[test]
fn demo_commands_from_numbers() {
    assert_eq!(demo_cmd_type_from_int(13), Ok(EDemoCommands::DemFullPacket));
    assert_eq!(demo_cmd_type_from_int(7), Ok(EDemoCommands::DemPacket));
    assert_eq!(demo_cmd_type_from_int(-1), Ok(EDemoCommands::DemError));
    assert_eq!(demo_cmd_type_from_int(64), Ok(EDemoCommands::DemIsCompressed));
    assert_eq!(demo_cmd_type_from_int(18), Err(DemoParserError::UnknownDemoCmd(18)));
}

#[test]
fn weapon_props() {
    assert!(is_grenade_or_weapon("CAK47.m_iClip1"));
    assert!(is_grenade_or_weapon("CWeaponM4A1.m_iClip1"));
    assert!(is_grenade_or_weapon("CFlashbangProjectile.m_nBounces"));
    assert!(!is_grenade_or_weapon("CCSPlayerPawn.m_iHealth"));
    assert!(!is_grenade_or_weapon("CCSPlayerPawn.CWeapon.x"));
    assert_eq!(split_weapon_prefix_from_prop_name("CAK47.m_iClip1"), "m_iClip1");
    assert_eq!(split_weapon_prefix_from_prop_name("CCSPlayerPawn.m_iHealth"), "CCSPlayerPawn.m_iHealth");
}

#[test]
fn string_helpers() {
    assert!(str_eq("abc", "abc"));
    assert!(!str_eq("abc", "abd"));
    assert!(str_contains("velocity_X", "velo"));
    assert!(!str_contains("vel", "velo"));
    assert!(str_contains("abc", ""));
    assert!(str_starts_with("Weapon.ammo", "Weapon."));
    assert_eq!(strip_prefix("Weapon.ammo", "Weapon."), Some("ammo"));
    assert_eq!(strip_prefix("ammo", "Weapon."), None);
    assert_eq!(find_first_dot("a.b.c"), Some(1));
    assert_eq!(find_first_dot("abc"), None);
    assert_eq!(split_at_first_dot("a.b.c"), ("a", "b.c"));
    assert_eq!(split_at_first_dot("abc"), ("abc", ""));
}

fn class(id: i32, name: &str) -> Class {
    Class { class_id: id, name: name.to_string(), serializer: Serializer { name: name.to_string(), fields: vec![] } }
}

#[test]
fn entity_kinds_by_class_name() {
    let classes = vec![
        class(0, "CCSPlayerController"),
        class(1, "CCSGameRulesProxy"),
        class(2, "CCSTeam"),
        class(3, "CC4"),
        class(4, "CSmokeGrenadeProjectile"),
        class(5, "CIncendiaryGrenade"),
        class(6, "CCSPlayerPawn"),
    ];
    let kinds: Vec<EntityType> = (0u32..7).map(|i| check_entity_type(&classes, &i).unwrap()).collect();
    assert_eq!(
        kinds,
        vec![
            EntityType::PlayerController,
            EntityType::Rules,
            EntityType::Team,
            EntityType::C4,
            EntityType::Projectile,
            EntityType::Projectile,
            EntityType::Normal,
        ]
    );
    assert_eq!(check_entity_type(&classes, &7), Err(DemoParserError::ClassNotFound));
}
