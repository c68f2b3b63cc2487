use vstd::prelude::*;

use crate::collect_data::PropType;
use crate::game_events::EventValue;
use crate::strings::{after_first_dot, bytes_contain, first_segment, split_at_first_dot, str_contains, str_eq};
use vstd::utf8::encode_utf8;

verus! {

pub const PLAYER_ENTITY_HANDLE_MISSING: i32 = 2047;
pub const SPECTATOR_TEAM_NUM: u32 = 1;
pub const BUTTONS_BASEID: u32 = 100000;
pub const NORMAL_PROP_BASEID: u32 = 1000;
pub const WEAPON_SKIN_NAME: u32 = 420420420;
pub const WEAPON_ORIGINGAL_OWNER_ID: u32 = 6942000;
pub const MY_WEAPONS_OFFSET: u32 = 500000;
pub const GRENADE_AMMO_ID: u32 = 1111111;
pub const INVENTORY_ID: u32 = 100000000;
pub const IS_ALIVE_ID: u32 = 100000001;
pub const GAME_TIME_ID: u32 = 100000002;
pub const ENTITY_ID_ID: u32 = 100000003;
pub const VELOCITY_X_ID: u32 = 100000004;
pub const VELOCITY_Y_ID: u32 = 100000005;
pub const VELOCITY_Z_ID: u32 = 100000006;
pub const VELOCITY_ID: u32 = 100000007;
pub const USERID_ID: u32 = 100000008;
pub const AGENT_SKIN_ID: u32 = 100000009;
pub const WEAPON_NAME_ID: u32 = 100000010;
pub const YAW_ID: u32 = 100000111;
pub const PITCH_ID: u32 = 100000012;
pub const TICK_ID: u32 = 100000013;
pub const STEAMID_ID: u32 = 100000014;
pub const NAME_ID: u32 = 100000015;
pub const PLAYER_X_ID: u32 = 100000016;
pub const PLAYER_Y_ID: u32 = 100000017;
pub const PLAYER_Z_ID: u32 = 100000018;
pub const WEAPON_STICKERS_ID: u32 = 100000019;

pub const WEAPON_SKIN_ID: u32 = 10000000;
pub const WEAPON_PAINT_SEED: u32 = 10000001;
pub const WEAPON_FLOAT: u32 = 10000002;
pub const ITEM_PURCHASE_COUNT: u32 = 200000000;
pub const ITEM_PURCHASE_DEF_IDX: u32 = 300000000;
pub const ITEM_PURCHASE_COST: u32 = 400000000;
pub const ITEM_PURCHASE_HANDLE: u32 = 500000000;
pub const ITEM_PURCHASE_NEW_DEF_IDX: u32 = 600000000;
pub const FLATTENED_VEC_MAX_LEN: u32 = 100000;

pub const GLOVE_PAINT_ID: u32 = 20000000;
pub const GLOVE_PAINT_SEED: u32 = 20000001;
pub const GLOVE_PAINT_FLOAT: u32 = 20000002;

pub const USERCMD_VIEWANGLE_X: u32 = 100000022;
pub const USERCMD_VIEWANGLE_Y: u32 = 100000023;
pub const USERCMD_VIEWANGLE_Z: u32 = 100000024;
pub const USERCMD_FORWARDMOVE: u32 = 100000025;
pub const USERCMD_IMPULSE: u32 = 100000026;
pub const USERCMD_MOUSE_DX: u32 = 100000027;
pub const USERCMD_MOUSE_DY: u32 = 100000028;
pub const USERCMD_BUTTONSTATE_1: u32 = 100000029;
pub const USERCMD_BUTTONSTATE_2: u32 = 100000030;
pub const USERCMD_BUTTONSTATE_3: u32 = 100000031;
pub const USERCMD_CONSUMED_SERVER_ANGLE_CHANGES: u32 = 100000032;
pub const USERCMD_LEFTMOVE: u32 = 100000033;
pub const USERCMD_WEAPON_SELECT: u32 = 100000034;
pub const USERCMD_SUBTICK_MOVE_ANALOG_FORWARD_DELTA: u32 = 100000035;
pub const USERCMD_SUBTICK_MOVE_ANALOG_LEFT_DELTA: u32 = 100000036;
pub const USERCMD_SUBTICK_MOVE_BUTTON: u32 = 100000037;
pub const USERCMD_SUBTICK_MOVE_WHEN: u32 = 100000038;
pub const USERCMD_SUBTICK_LEFT_HAND_DESIRED: u32 = 100000039;

pub const USERCMD_ATTACK_START_HISTORY_INDEX_1: u32 = 100000040;
pub const USERCMD_ATTACK_START_HISTORY_INDEX_2: u32 = 100000041;
pub const USERCMD_ATTACK_START_HISTORY_INDEX_3: u32 = 100000042;

pub const USERCMD_INPUT_HISTORY_BASEID: u32 = 100001000;
pub const INPUT_HISTORY_X_OFFSET: u32 = 0;
pub const INPUT_HISTORY_Y_OFFSET: u32 = 1;
pub const INPUT_HISTORY_Z_OFFSET: u32 = 2;
pub const INPUT_HISTORY_RENDER_TICK_COUNT_OFFSET: u32 = 3;
pub const INPUT_HISTORY_RENDER_TICK_FRACTION_OFFSET: u32 = 4;
pub const INPUT_HISTORY_PLAYER_TICK_COUNT_OFFSET: u32 = 5;
pub const INPUT_HISTORY_PLAYER_TICK_FRACTION_OFFSET: u32 = 6;

pub const INVENTORY_AS_IDS_ID: u32 = 100100020;
pub const IS_AIRBORNE_ID: u32 = 100100021;
pub const GRENADE_TYPE_ID: u32 = 100100022;
pub const GRENADE_X: u32 = 100100023;
pub const GRENADE_Y: u32 = 100100024;
pub const GRENADE_Z: u32 = 100100025;
pub const INVENTORY_AS_IDS_BITMASK: u32 = 100100026;

/// A property that the caller asked for, with the id under which its values
/// are collected.
#[derive(Debug, Clone)]
pub struct PropInfo {
    pub id: u32,
    pub prop_type: PropType,
    pub prop_name: String,
    pub prop_friendly_name: String,
    pub is_player_prop: bool,
}

/// The kinds of entity that properties are collected from.
pub enum PropCollectionType {
    Player,
    Rules,
    Team,
}


/// The text `pat` occurs in the text `s`.
pub open spec fn text_contains(s: Seq<char>, pat: Seq<char>) -> bool {
    bytes_contain(encode_utf8(s), encode_utf8(pat))
}

/// Whether a property path belongs to a weapon or a grenade: decided by the
/// class name (the text before the first '.').
pub open spec fn spec_is_grenade_or_weapon(full_name: Seq<char>) -> bool {
    let seg = first_segment(full_name);
    let is_weapon_prop = (text_contains(seg, "Weapon"@) || text_contains(seg, "AK"@)) && !text_contains(seg, "Player"@)
        || text_contains(seg, "Knife"@) || text_contains(seg, "CDEagle"@) || text_contains(seg, "C4"@)
        || text_contains(seg, "Molo"@) || text_contains(seg, "Inc"@) || text_contains(seg, "Infer"@);
    let is_projectile_prop = (text_contains(seg, "Projectile"@) || text_contains(seg, "Grenade"@)
        || text_contains(seg, "Flash"@)) && !text_contains(seg, "Player"@);
    is_weapon_prop || is_projectile_prop
}

/// Property name with the class name stripped for weapons and grenades:
/// `CAK47.m_iClip1` becomes `m_iClip1`.
pub fn split_weapon_prefix_from_prop_name(full_name: &str) -> (res: String)
    ensures
        res@ == (if spec_is_grenade_or_weapon(full_name@) { after_first_dot(full_name@) } else { full_name@ }),
{
    let (_, rest) = split_at_first_dot(full_name);
    let grenade_or_weapon = is_grenade_or_weapon(full_name);
    // Strip first part of name from grenades and weapons.
    match grenade_or_weapon {
        true => rest.to_owned(),
        false => full_name.to_owned(),
    }
}

pub fn is_grenade_or_weapon(full_name: &str) -> (res: bool)
    ensures
        res == spec_is_grenade_or_weapon(full_name@),
{
    let (first, _) = split_at_first_dot(full_name);
    let is_weapon_prop = (str_contains(first, "Weapon") || str_contains(first, "AK")) && !str_contains(first, "Player")
        || str_contains(first, "Knife") || str_contains(first, "CDEagle") || str_contains(first, "C4")
        || str_contains(first, "Molo") || str_contains(first, "Inc") || str_contains(first, "Infer");

    let is_projectile_prop = (str_contains(first, "Projectile") || str_contains(first, "Grenade")
        || str_contains(first, "Flash")) && !str_contains(first, "Player");
    is_weapon_prop || is_projectile_prop
}

// ---------------------------------------------------------------------------
// Custom properties.

/// A property that the caller wants to see in a given state, with the state.
#[derive(Debug, Clone)]
pub struct WantedPropStateInfo {
    pub base: PropInfo,
    pub wanted_prop_state: EventValue,
}

/// A property info as plain values: id, type, name, friendly name, whether
/// it is a player property.
pub type PropInfoView = (u32, PropType, Seq<char>, Seq<char>, bool);

pub open spec fn prop_info_view(p: PropInfo) -> PropInfoView {
    (p.id, p.prop_type, p.prop_name@, p.prop_friendly_name@, p.is_player_prop)
}

pub open spec fn prop_info_views(s: Seq<PropInfo>) -> Seq<PropInfoView> {
    s.map_values(|p: PropInfo| prop_info_view(p))
}

pub open spec fn state_info_views(s: Seq<WantedPropStateInfo>) -> Seq<(PropInfoView, EventValue)> {
    s.map_values(|w: WantedPropStateInfo| (prop_info_view(w.base), w.wanted_prop_state))
}

/// Some entry of `names` has the text `t`.
pub open spec fn names_hold(names: Seq<String>, t: Seq<char>) -> bool {
    exists|i: int| 0 <= i < names.len() && (#[trigger] names[i])@ == t
}

/// The value of the first entry named `t`.
pub open spec fn text_lookup<V>(table: Seq<(String, V)>, t: Seq<char>) -> Option<V>
    decreases table.len(),
{
    if table.len() == 0 {
        None
    } else if table[0].0@ == t {
        Some(table[0].1)
    } else {
        text_lookup(table.drop_first(), t)
    }
}

/// The info of a custom player property: its type from `types` (else
/// `Custom`), its friendly name from `og_names` (else its own name).
pub open spec fn custom_info(
    name: Seq<char>,
    id: u32,
    og_names: Seq<(String, String)>,
    types: Seq<(String, PropType)>,
) -> PropInfoView {
    (
        id,
        match text_lookup(types, name) {
            Some(t) => t,
            None => PropType::Custom,
        },
        name,
        match text_lookup(og_names, name) {
            Some(og) => og@,
            None => name,
        },
        true,
    )
}

/// The wanted buttons from `i` on, numbered from `id`.
pub open spec fn button_infos(bs: Seq<String>, wanted: Seq<String>, i: int, id: int) -> Seq<PropInfoView>
    decreases bs.len() - i,
{
    if i < 0 || i >= bs.len() {
        Seq::empty()
    } else if names_hold(wanted, bs[i]@) {
        seq![(id as u32, PropType::Button, bs[i]@, bs[i]@, true)] + button_infos(bs, wanted, i + 1, id + 1)
    } else {
        button_infos(bs, wanted, i + 1, id)
    }
}

/// The buttons from `i` on that have a wanted state, numbered from `id`.
pub open spec fn button_state_infos(bs: Seq<String>, states: Seq<(String, EventValue)>, i: int, id: int) -> Seq<
    (PropInfoView, EventValue),
>
    decreases bs.len() - i,
{
    if i < 0 || i >= bs.len() {
        Seq::empty()
    } else {
        match text_lookup(states, bs[i]@) {
            Some(st) => seq![((id as u32, PropType::Button, bs[i]@, bs[i]@, true), st)] + button_state_infos(
                bs,
                states,
                i + 1,
                id + 1,
            ),
            None => button_state_infos(bs, states, i + 1, id),
        }
    }
}

/// The wanted custom player properties from `i` on.
pub open spec fn custom_infos(
    customs: Seq<(String, u32)>,
    wanted: Seq<String>,
    og_names: Seq<(String, String)>,
    types: Seq<(String, PropType)>,
    i: int,
) -> Seq<PropInfoView>
    decreases customs.len() - i,
{
    if i < 0 || i >= customs.len() {
        Seq::empty()
    } else if names_hold(wanted, customs[i].0@) {
        seq![custom_info(customs[i].0@, customs[i].1, og_names, types)] + custom_infos(
            customs,
            wanted,
            og_names,
            types,
            i + 1,
        )
    } else {
        custom_infos(customs, wanted, og_names, types, i + 1)
    }
}

/// The custom player properties from `i` on that have a wanted state.
pub open spec fn custom_state_infos(
    customs: Seq<(String, u32)>,
    states: Seq<(String, EventValue)>,
    og_names: Seq<(String, String)>,
    types: Seq<(String, PropType)>,
    i: int,
) -> Seq<(PropInfoView, EventValue)>
    decreases customs.len() - i,
{
    if i < 0 || i >= customs.len() {
        Seq::empty()
    } else {
        match text_lookup(states, customs[i].0@) {
            Some(st) => seq![(custom_info(customs[i].0@, customs[i].1, og_names, types), st)]
                + custom_state_infos(customs, states, og_names, types, i + 1),
            None => custom_state_infos(customs, states, og_names, types, i + 1),
        }
    }
}

pub open spec fn one_if<T>(b: bool, x: T) -> Seq<T> {
    if b {
        seq![x]
    } else {
        Seq::empty()
    }
}

/// Game time and glove paint, where wanted of players.
pub open spec fn player_fixed_infos(wanted: Seq<String>) -> Seq<PropInfoView> {
    one_if(names_hold(wanted, "game_time"@), (GAME_TIME_ID, PropType::GameTime, "game_time"@, "game_time"@, true))
        + one_if(
        names_hold(wanted, "glove_paint_id"@),
        (GLOVE_PAINT_ID, PropType::Custom, "glove_paint_id"@, "glove_paint_id"@, true),
    ) + one_if(
        names_hold(wanted, "glove_paint_seed"@),
        (GLOVE_PAINT_SEED, PropType::Custom, "glove_paint_seed"@, "glove_paint_seed"@, true),
    ) + one_if(
        names_hold(wanted, "glove_paint_float"@),
        (GLOVE_PAINT_FLOAT, PropType::Custom, "glove_paint_float"@, "glove_paint_float"@, true),
    )
}

/// The grenade properties, when projectiles are parsed.
pub open spec fn grenade_infos(parse_projectiles: bool) -> Seq<PropInfoView> {
    if parse_projectiles {
        seq![
            (GRENADE_TYPE_ID, PropType::Tick, "grenade_type"@, "grenade_type"@, true),
            (ENTITY_ID_ID, PropType::Custom, "grenade_entity_id"@, "grenade_entity_id"@, true),
            (GRENADE_X, PropType::Custom, "x"@, "x"@, true),
            (GRENADE_Y, PropType::Custom, "y"@, "y"@, true),
            (GRENADE_Z, PropType::Custom, "z"@, "z"@, true),
        ]
    } else {
        Seq::empty()
    }
}

/// Tick, steamid and name, always.
pub open spec fn always_infos() -> Seq<PropInfoView> {
    seq![
        (TICK_ID, PropType::Tick, "tick"@, "tick"@, true),
        (STEAMID_ID, PropType::Steamid, "steamid"@, "steamid"@, true),
        (NAME_ID, PropType::Name, "name"@, "name"@, true),
    ]
}

/// The properties with fixed ids: game time and glove paint where wanted
/// of players, game time where wanted of other entities, the grenade
/// properties when projectiles are parsed, and always tick, steamid and name.
pub open spec fn fixed_infos(wanted: Seq<String>, wanted_other: Seq<String>, parse_projectiles: bool) -> Seq<
    PropInfoView,
> {
    player_fixed_infos(wanted) + one_if(
        names_hold(wanted_other, "game_time"@),
        (GAME_TIME_ID, PropType::GameTime, "game_time"@, "game_time"@, false),
    ) + grenade_infos(parse_projectiles) + always_infos()
}

/// The wanted state of the game time, if any.
pub open spec fn game_time_state_info(states: Seq<(String, EventValue)>) -> Seq<(PropInfoView, EventValue)> {
    match text_lookup(states, "game_time"@) {
        Some(st) => seq![((GAME_TIME_ID, PropType::GameTime, "game_time"@, "game_time"@, true), st)],
        None => Seq::empty(),
    }
}

pub(crate) fn holds_name(names: &[String], t: &str) -> (r: bool)
    ensures
        r == names_hold(names@, t@),
{
    let mut i: usize = 0;
    while i < names.len()
        invariant
            i <= names@.len(),
            forall|j: int| 0 <= j < i ==> (#[trigger] names@[j])@ != t@,
        decreases names@.len() - i,
    {
        if str_eq(names[i].as_str(), t) {
            return true;
        }
        i += 1;
    }
    false
}

pub(crate) fn lookup_text<V: Copy>(table: &[(String, V)], t: &str) -> (r: Option<V>)
    ensures
        r == text_lookup(table@, t@),
{
    let mut i: usize = 0;
    assert(table@.skip(0) =~= table@);
    while i < table.len()
        invariant
            i <= table@.len(),
            text_lookup(table@, t@) == text_lookup(table@.skip(i as int), t@),
        decreases table@.len() - i,
    {
        assert(table@.skip(i as int).drop_first() =~= table@.skip(i + 1));
        if str_eq(table[i].0.as_str(), t) {
            return Some(table[i].1);
        }
        i += 1;
    }
    None
}

fn lookup_og_name(table: &[(String, String)], t: &str) -> (r: Option<String>)
    ensures
        match text_lookup(table@, t@) {
            Some(og) => r matches Some(s) && s@ == og@,
            None => r is None,
        },
{
    let mut i: usize = 0;
    assert(table@.skip(0) =~= table@);
    while i < table.len()
        invariant
            i <= table@.len(),
            text_lookup(table@, t@) == text_lookup(table@.skip(i as int), t@),
        decreases table@.len() - i,
    {
        assert(table@.skip(i as int).drop_first() =~= table@.skip(i + 1));
        if str_eq(table[i].0.as_str(), t) {
            return Some(table[i].1.clone());
        }
        i += 1;
    }
    None
}

fn make_info(id: u32, prop_type: PropType, name: &str, friendly: &str, is_player_prop: bool) -> (p: PropInfo)
    ensures
        prop_info_view(p) == (id, prop_type, name@, friendly@, is_player_prop),
{
    PropInfo { id, prop_type, prop_name: name.to_owned(), prop_friendly_name: friendly.to_owned(), is_player_prop }
}

fn push_info(v: &mut Vec<PropInfo>, p: PropInfo)
    ensures
        prop_info_views(final(v)@) == prop_info_views(old(v)@).push(prop_info_view(p)),
{
    v.push(p);
    assert(prop_info_views(v@) =~= prop_info_views(old(v)@).push(prop_info_view(p)));
}

fn push_state_info(v: &mut Vec<WantedPropStateInfo>, w: WantedPropStateInfo)
    ensures
        state_info_views(final(v)@) == state_info_views(old(v)@).push(
            (prop_info_view(w.base), w.wanted_prop_state),
        ),
{
    v.push(w);
    assert(state_info_views(v@) =~= state_info_views(old(v)@).push(
        (prop_info_view(w.base), w.wanted_prop_state),
    ));
}

fn push_if_wanted(v: &mut Vec<PropInfo>, wanted: &[String], id: u32, prop_type: PropType, name: &str, is_player_prop: bool)
    ensures
        prop_info_views(final(v)@) == prop_info_views(old(v)@) + one_if(
            names_hold(wanted@, name@),
            (id, prop_type, name@, name@, is_player_prop),
        ),
{
    if holds_name(wanted, name) {
        push_info(v, make_info(id, prop_type, name, name, is_player_prop));
        assert(prop_info_views(v@) =~= prop_info_views(old(v)@) + one_if(
            names_hold(wanted@, name@),
            (id, prop_type, name@, name@, is_player_prop),
        ));
    } else {
        assert(prop_info_views(v@) =~= prop_info_views(old(v)@) + one_if(
            names_hold(wanted@, name@),
            (id, prop_type, name@, name@, is_player_prop),
        ));
    }
}

fn push_button_infos(
    prop_infos: &mut Vec<PropInfo>,
    wanted_prop_state_infos: &mut Vec<WantedPropStateInfo>,
    wanted_player_props: &[String],
    wanted_prop_states: &[(String, EventValue)],
    button_names: &[String],
)
    requires
        button_names@.len() <= u32::MAX - BUTTONS_BASEID,
    ensures
        prop_info_views(final(prop_infos)@) == prop_info_views(old(prop_infos)@) + button_infos(
            button_names@,
            wanted_player_props@,
            0,
            BUTTONS_BASEID as int,
        ),
        state_info_views(final(wanted_prop_state_infos)@) == state_info_views(old(wanted_prop_state_infos)@)
            + button_state_infos(button_names@, wanted_prop_states@, 0, BUTTONS_BASEID as int),
{
    let ghost infos0 = prop_info_views(prop_infos@);
    let ghost states0 = state_info_views(wanted_prop_state_infos@);
    let ghost bi = button_infos(button_names@, wanted_player_props@, 0, BUTTONS_BASEID as int);
    let ghost bsi = button_state_infos(button_names@, wanted_prop_states@, 0, BUTTONS_BASEID as int);
    let mut someid: u32 = BUTTONS_BASEID;
    let mut someid2: u32 = BUTTONS_BASEID;
    let mut i: usize = 0;
    while i < button_names.len()
        invariant
            i <= button_names@.len(),
            button_names@.len() <= u32::MAX - BUTTONS_BASEID,
            BUTTONS_BASEID <= someid <= BUTTONS_BASEID + i,
            BUTTONS_BASEID <= someid2 <= BUTTONS_BASEID + i,
            bi == button_infos(button_names@, wanted_player_props@, 0, BUTTONS_BASEID as int),
            bsi == button_state_infos(button_names@, wanted_prop_states@, 0, BUTTONS_BASEID as int),
            prop_info_views(prop_infos@) + button_infos(button_names@, wanted_player_props@, i as int, someid as int)
                == infos0 + bi,
            state_info_views(wanted_prop_state_infos@) + button_state_infos(
                button_names@,
                wanted_prop_states@,
                i as int,
                someid2 as int,
            ) == states0 + bsi,
        decreases button_names@.len() - i,
    {
        let bn = button_names[i].as_str();
        let ghost before_infos = prop_info_views(prop_infos@);
        let ghost before_states = state_info_views(wanted_prop_state_infos@);
        if holds_name(wanted_player_props, bn) {
            push_info(prop_infos, make_info(someid, PropType::Button, bn, bn, true));
            assert(before_infos.push((someid, PropType::Button, bn@, bn@, true)) + button_infos(
                button_names@,
                wanted_player_props@,
                i + 1,
                someid + 1,
            ) =~= before_infos + button_infos(button_names@, wanted_player_props@, i as int, someid as int));
            someid += 1;
        }
        match lookup_text(wanted_prop_states, bn) {
            Some(wanted_state) => {
                push_state_info(
                    wanted_prop_state_infos,
                    WantedPropStateInfo {
                        base: make_info(someid2, PropType::Button, bn, bn, true),
                        wanted_prop_state: wanted_state,
                    },
                );
                assert(before_states.push(((someid2, PropType::Button, bn@, bn@, true), wanted_state))
                    + button_state_infos(button_names@, wanted_prop_states@, i + 1, someid2 + 1)
                    =~= before_states + button_state_infos(
                    button_names@,
                    wanted_prop_states@,
                    i as int,
                    someid2 as int,
                ));
                someid2 += 1;
            },
            None => {},
        }
        i += 1;
    }
    assert(button_infos(button_names@, wanted_player_props@, i as int, someid as int) =~= Seq::empty());
    assert(button_state_infos(button_names@, wanted_prop_states@, i as int, someid2 as int) =~= Seq::empty());
    assert(prop_info_views(prop_infos@) =~= infos0 + bi);
    assert(state_info_views(wanted_prop_state_infos@) =~= states0 + bsi);
}

fn push_custom_infos(
    prop_infos: &mut Vec<PropInfo>,
    wanted_prop_state_infos: &mut Vec<WantedPropStateInfo>,
    wanted_player_props: &[String],
    wanted_prop_states: &[(String, EventValue)],
    real_name_to_og_name: &[(String, String)],
    custom_player_prop_ids: &[(String, u32)],
    prop_types: &[(String, PropType)],
)
    ensures
        prop_info_views(final(prop_infos)@) == prop_info_views(old(prop_infos)@) + custom_infos(
            custom_player_prop_ids@,
            wanted_player_props@,
            real_name_to_og_name@,
            prop_types@,
            0,
        ),
        state_info_views(final(wanted_prop_state_infos)@) == state_info_views(old(wanted_prop_state_infos)@)
            + custom_state_infos(custom_player_prop_ids@, wanted_prop_states@, real_name_to_og_name@, prop_types@, 0),
{
    let ghost infos1 = prop_info_views(prop_infos@);
    let ghost states1 = state_info_views(wanted_prop_state_infos@);
    let ghost ci = custom_infos(custom_player_prop_ids@, wanted_player_props@, real_name_to_og_name@, prop_types@, 0);
    let ghost csi = custom_state_infos(
        custom_player_prop_ids@,
        wanted_prop_states@,
        real_name_to_og_name@,
        prop_types@,
        0,
    );
    let mut k: usize = 0;
    while k < custom_player_prop_ids.len()
        invariant
            k <= custom_player_prop_ids@.len(),
            ci == custom_infos(custom_player_prop_ids@, wanted_player_props@, real_name_to_og_name@, prop_types@, 0),
            csi == custom_state_infos(
                custom_player_prop_ids@,
                wanted_prop_states@,
                real_name_to_og_name@,
                prop_types@,
                0,
            ),
            prop_info_views(prop_infos@) + custom_infos(
                custom_player_prop_ids@,
                wanted_player_props@,
                real_name_to_og_name@,
                prop_types@,
                k as int,
            ) == infos1 + ci,
            state_info_views(wanted_prop_state_infos@) + custom_state_infos(
                custom_player_prop_ids@,
                wanted_prop_states@,
                real_name_to_og_name@,
                prop_types@,
                k as int,
            ) == states1 + csi,
        decreases custom_player_prop_ids@.len() - k,
    {
        let name = custom_player_prop_ids[k].0.as_str();
        let id = custom_player_prop_ids[k].1;
        let prop_type = match lookup_text(prop_types, name) {
            Some(t) => t,
            None => PropType::Custom,
        };
        let friendly = match lookup_og_name(real_name_to_og_name, name) {
            Some(og) => og,
            None => name.to_owned(),
        };
        let ghost view = custom_info(name@, id, real_name_to_og_name@, prop_types@);
        let ghost before_infos = prop_info_views(prop_infos@);
        let ghost before_states = state_info_views(wanted_prop_state_infos@);
        if holds_name(wanted_player_props, name) {
            let p = make_info(id, prop_type, name, friendly.as_str(), true);
            assert(prop_info_view(p) == view);
            push_info(prop_infos, p);
            assert(before_infos.push(view) + custom_infos(
                custom_player_prop_ids@,
                wanted_player_props@,
                real_name_to_og_name@,
                prop_types@,
                k + 1,
            ) =~= before_infos + custom_infos(
                custom_player_prop_ids@,
                wanted_player_props@,
                real_name_to_og_name@,
                prop_types@,
                k as int,
            ));
        }
        match lookup_text(wanted_prop_states, name) {
            Some(wanted_state) => {
                let base = make_info(id, prop_type, name, friendly.as_str(), true);
                assert(prop_info_view(base) == view);
                push_state_info(wanted_prop_state_infos, WantedPropStateInfo { base, wanted_prop_state: wanted_state });
                assert(before_states.push((view, wanted_state)) + custom_state_infos(
                    custom_player_prop_ids@,
                    wanted_prop_states@,
                    real_name_to_og_name@,
                    prop_types@,
                    k + 1,
                ) =~= before_states + custom_state_infos(
                    custom_player_prop_ids@,
                    wanted_prop_states@,
                    real_name_to_og_name@,
                    prop_types@,
                    k as int,
                ));
            },
            None => {},
        }
        k += 1;
    }
    assert(prop_info_views(prop_infos@) =~= infos1 + ci);
    assert(state_info_views(wanted_prop_state_infos@) =~= states1 + csi);
}

fn push_player_fixed_infos(prop_infos: &mut Vec<PropInfo>, wanted_player_props: &[String])
    ensures
        prop_info_views(final(prop_infos)@) == prop_info_views(old(prop_infos)@) + player_fixed_infos(
            wanted_player_props@,
        ),
{
    let ghost p0 = prop_info_views(prop_infos@);
    push_if_wanted(prop_infos, wanted_player_props, GAME_TIME_ID, PropType::GameTime, "game_time", true);
    push_if_wanted(prop_infos, wanted_player_props, GLOVE_PAINT_ID, PropType::Custom, "glove_paint_id", true);
    push_if_wanted(prop_infos, wanted_player_props, GLOVE_PAINT_SEED, PropType::Custom, "glove_paint_seed", true);
    push_if_wanted(prop_infos, wanted_player_props, GLOVE_PAINT_FLOAT, PropType::Custom, "glove_paint_float", true);
    assert(prop_info_views(prop_infos@) =~= p0 + player_fixed_infos(wanted_player_props@));
}

fn push_grenade_infos(prop_infos: &mut Vec<PropInfo>, parse_projectiles: bool)
    ensures
        prop_info_views(final(prop_infos)@) == prop_info_views(old(prop_infos)@) + grenade_infos(parse_projectiles),
{
    let ghost p0 = prop_info_views(prop_infos@);
    if parse_projectiles {
        push_info(prop_infos, make_info(GRENADE_TYPE_ID, PropType::Tick, "grenade_type", "grenade_type", true));
        push_info(
            prop_infos,
            make_info(ENTITY_ID_ID, PropType::Custom, "grenade_entity_id", "grenade_entity_id", true),
        );
        push_info(prop_infos, make_info(GRENADE_X, PropType::Custom, "x", "x", true));
        push_info(prop_infos, make_info(GRENADE_Y, PropType::Custom, "y", "y", true));
        push_info(prop_infos, make_info(GRENADE_Z, PropType::Custom, "z", "z", true));
    }
    assert(prop_info_views(prop_infos@) =~= p0 + grenade_infos(parse_projectiles));
}

fn push_always_infos(prop_infos: &mut Vec<PropInfo>)
    ensures
        prop_info_views(final(prop_infos)@) == prop_info_views(old(prop_infos)@) + always_infos(),
{
    let ghost p0 = prop_info_views(prop_infos@);
    push_info(prop_infos, make_info(TICK_ID, PropType::Tick, "tick", "tick", true));
    push_info(prop_infos, make_info(STEAMID_ID, PropType::Steamid, "steamid", "steamid", true));
    push_info(prop_infos, make_info(NAME_ID, PropType::Name, "name", "name", true));
    assert(prop_info_views(prop_infos@) =~= p0 + always_infos());
}

fn push_fixed_infos(
    prop_infos: &mut Vec<PropInfo>,
    wanted_prop_state_infos: &mut Vec<WantedPropStateInfo>,
    wanted_player_props: &[String],
    wanted_other_props: &[String],
    wanted_prop_states: &[(String, EventValue)],
    parse_projectiles: bool,
)
    ensures
        prop_info_views(final(prop_infos)@) == prop_info_views(old(prop_infos)@) + fixed_infos(
            wanted_player_props@,
            wanted_other_props@,
            parse_projectiles,
        ),
        state_info_views(final(wanted_prop_state_infos)@) == state_info_views(old(wanted_prop_state_infos)@)
            + game_time_state_info(wanted_prop_states@),
{
    let ghost p0 = prop_info_views(prop_infos@);
    push_player_fixed_infos(prop_infos, wanted_player_props);
    let ghost s0 = state_info_views(wanted_prop_state_infos@);
    match lookup_text(wanted_prop_states, "game_time") {
        Some(wanted_state) => {
            push_state_info(
                wanted_prop_state_infos,
                WantedPropStateInfo {
                    base: make_info(GAME_TIME_ID, PropType::GameTime, "game_time", "game_time", true),
                    wanted_prop_state: wanted_state,
                },
            );
        },
        None => {},
    }
    assert(state_info_views(wanted_prop_state_infos@) =~= s0 + game_time_state_info(wanted_prop_states@));
    let ghost p1 = prop_info_views(prop_infos@);
    push_if_wanted(prop_infos, wanted_other_props, GAME_TIME_ID, PropType::GameTime, "game_time", false);
    let ghost p2 = prop_info_views(prop_infos@);
    push_grenade_infos(prop_infos, parse_projectiles);
    let ghost p3 = prop_info_views(prop_infos@);
    push_always_infos(prop_infos);
    let ghost g = one_if(
        names_hold(wanted_other_props@, "game_time"@),
        (GAME_TIME_ID, PropType::GameTime, "game_time"@, "game_time"@, false),
    );
    assert(p1 == p0 + player_fixed_infos(wanted_player_props@));
    assert(p2 == p1 + g);
    assert(p3 == p2 + grenade_infos(parse_projectiles));
    assert(prop_info_views(prop_infos@) == p3 + always_infos());
    assert(prop_info_views(prop_infos@) =~= p0 + fixed_infos(wanted_player_props@, wanted_other_props@, parse_projectiles));
}

/// Appends the infos of the properties that do not come from the send
/// tables: the wanted buttons (numbered from `BUTTONS_BASEID` in the order of
/// `button_names`), the wanted custom player properties (ids from
/// `custom_player_prop_ids`, types from `prop_types`, friendly names from
/// `real_name_to_og_name`), then the properties with fixed ids
/// (`fixed_infos`). The buttons, custom properties and game time that have a
/// wanted state are appended to `wanted_prop_state_infos` in the same way.
pub fn set_custom_propinfos(
    prop_infos: &mut Vec<PropInfo>,
    wanted_prop_state_infos: &mut Vec<WantedPropStateInfo>,
    wanted_player_props: &[String],
    wanted_other_props: &[String],
    wanted_prop_states: &[(String, EventValue)],
    real_name_to_og_name: &[(String, String)],
    button_names: &[String],
    custom_player_prop_ids: &[(String, u32)],
    prop_types: &[(String, PropType)],
    parse_projectiles: bool,
)
    requires
        button_names@.len() <= u32::MAX - BUTTONS_BASEID,
    ensures
        prop_info_views(final(prop_infos)@) == prop_info_views(old(prop_infos)@) + button_infos(
            button_names@,
            wanted_player_props@,
            0,
            BUTTONS_BASEID as int,
        ) + custom_infos(custom_player_prop_ids@, wanted_player_props@, real_name_to_og_name@, prop_types@, 0)
            + fixed_infos(wanted_player_props@, wanted_other_props@, parse_projectiles),
        state_info_views(final(wanted_prop_state_infos)@) == state_info_views(old(wanted_prop_state_infos)@)
            + button_state_infos(button_names@, wanted_prop_states@, 0, BUTTONS_BASEID as int)
            + custom_state_infos(
            custom_player_prop_ids@,
            wanted_prop_states@,
            real_name_to_og_name@,
            prop_types@,
            0,
        ) + game_time_state_info(wanted_prop_states@),
{
    push_button_infos(prop_infos, wanted_prop_state_infos, wanted_player_props, wanted_prop_states, button_names);
    push_custom_infos(
        prop_infos,
        wanted_prop_state_infos,
        wanted_player_props,
        wanted_prop_states,
        real_name_to_og_name,
        custom_player_prop_ids,
        prop_types,
    );
    push_fixed_infos(
        prop_infos,
        wanted_prop_state_infos,
        wanted_player_props,
        wanted_other_props,
        wanted_prop_states,
        parse_projectiles,
    );
}

} // verus!
