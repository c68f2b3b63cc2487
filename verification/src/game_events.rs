use vstd::prelude::*;

use crate::entities::{clone_prop_value, get_prop_from_ent, spec_prop_from_ent, Entity, PlayerMetaData, PropValue, PropValueView};
use crate::parse_demo::{data_view, field_views, EventField, GameEvent};
use crate::parser_settings::SpecialIDs;
use crate::prop_controller::{names_hold, ITEM_PURCHASE_DEF_IDX, WEAPON_FLOAT, WEAPON_PAINT_SEED};
use crate::strings::str_eq;
use crate::sendtables::i32_text;
use crate::strings::int_decimal;

verus! {

/// The reason code with which a round ended.
#[derive(Debug, Clone, Copy, PartialEq, Eq)]
pub struct RoundWinReason {
    pub reason: i32,
}

/// A purchase made by a player, as reconstructed from the buy services.
#[derive(Debug, Clone, PartialEq)]
pub struct PurchaseEvent {
    pub entid: i32,
    pub cost: i32,
    pub name: Option<String>,
    pub weapon_entid: i32,
    pub inventory_slot: u32,
}

/// The value of a property change or of a field of a game event, as far as
/// events are reconstructed from it: a flag, the integer kinds, and any other
/// kind (a float, a text, a list) as `Other`.
#[derive(Debug, Clone, Copy, PartialEq, Eq, Structural)]
pub enum EventValue {
    Bool(bool),
    U32(u32),
    I32(i32),
    U64(u64),
    Other,
}

/// A property change of a round state.
#[derive(Debug, Clone, Copy)]
pub struct RoundEnd {
    pub old_value: Option<EventValue>,
    pub new_value: Option<EventValue>,
}

/// A property change that custom events are built from: round state,
/// freeze time, match end, and the three changes of a purchase (the item
/// definition with the buyer and the property id, the cost, the item handle).
#[derive(Debug, Clone, Copy)]
pub enum GameEventInfo {
    RoundEnd(RoundEnd),
    RoundWinReason(RoundWinReason),
    FreezePeriodStart(bool),
    MatchEnd(),
    WeaponCreateHitem((EventValue, i32)),
    WeaponCreateNCost((EventValue, i32)),
    WeaponCreateDefIdx((EventValue, i32, u32)),
    WeaponPurchaseCount((EventValue, i32, u32)),
}

/// The entity id that stands for no entity.
pub const ENTITYIDNONE: i32 = 2047;

pub open spec fn is_purchase_part(e: GameEventInfo) -> bool {
    e is WeaponCreateDefIdx || e is WeaponCreateNCost || e is WeaponCreateHitem
}

/// The purchase changes among `events`, in order.
pub open spec fn purchase_parts(events: Seq<GameEventInfo>) -> Seq<GameEventInfo>
    decreases events.len(),
{
    if events.len() == 0 {
        Seq::empty()
    } else {
        let rest = purchase_parts(events.drop_last());
        if is_purchase_part(events.last()) {
            rest.push(events.last())
        } else {
            rest
        }
    }
}

/// The name of weapon definition `def` in `names`: the first entry for it.
pub open spec fn weapon_name(names: Seq<(u32, String)>, def: u32) -> Option<Seq<char>>
    decreases names.len(),
{
    if names.len() == 0 {
        None
    } else if names[0].0 == def {
        Some(names[0].1@)
    } else {
        weapon_name(names.drop_first(), def)
    }
}

/// A purchase as plain values: buyer, cost, weapon name, weapon entity and
/// inventory slot.
pub type PurchaseView = (i32, i32, Option<Seq<char>>, i32, u32);

pub open spec fn purchase_view(p: PurchaseEvent) -> PurchaseView {
    (
        p.entid,
        p.cost,
        match p.name {
            Some(n) => Some(n@),
            None => None,
        },
        p.weapon_entid,
        p.inventory_slot,
    )
}

/// The purchases read from the purchase changes `f` from `ptr` on: a
/// definition followed by a cost and an item handle makes a purchase of that
/// weapon entity; a definition followed by a cost alone makes one without a
/// weapon entity; anything else is skipped.
pub open spec fn spec_purchases(f: Seq<GameEventInfo>, ptr: int, names: Seq<(u32, String)>) -> Seq<PurchaseView>
    decreases f.len() - ptr,
{
    if ptr < 0 || ptr >= f.len() {
        Seq::empty()
    } else {
        match f[ptr] {
            GameEventInfo::WeaponCreateDefIdx((EventValue::U32(def), entid, prop_id)) => {
                let slot = prop_id.wrapping_sub(ITEM_PURCHASE_DEF_IDX);
                match next_cost(f, ptr + 1) {
                    Some(cost) => match next_handle(f, ptr + 2) {
                        Some(handle) => seq![(entid, cost, weapon_name(names, def), (handle & 0x7ff) as i32, slot)]
                            + spec_purchases(f, ptr + 3, names),
                        None => seq![(entid, cost, weapon_name(names, def), ENTITYIDNONE, slot)] + spec_purchases(
                            f,
                            ptr + 2,
                            names,
                        ),
                    },
                    None => spec_purchases(f, ptr + 1, names),
                }
            },
            _ => spec_purchases(f, ptr + 1, names),
        }
    }
}

/// Reading purchases looks only at what lies from `ptr` on: changes in front
/// of them make no difference.
pub proof fn lemma_purchases_shift(a: Seq<GameEventInfo>, b: Seq<GameEventInfo>, i: int, names: Seq<(u32, String)>)
    requires
        0 <= i,
    ensures
        spec_purchases(a + b, a.len() + i, names) == spec_purchases(b, i, names),
    decreases b.len() - i,
{
    let f = a + b;
    let p = a.len() + i;
    if i < b.len() {
        assert(f[p] == b[i]);
        assert(next_cost(f, p + 1) == next_cost(b, i + 1));
        assert(next_handle(f, p + 2) == next_handle(b, i + 2));
        lemma_purchases_shift(a, b, i + 1, names);
        if i + 2 <= b.len() {
            lemma_purchases_shift(a, b, i + 2, names);
        }
        if i + 3 <= b.len() {
            lemma_purchases_shift(a, b, i + 3, names);
        }
    }
}

/// A weapon definition change followed by a cost change and an item-handle
/// change makes one purchase, by the buyer of the definition change, at that
/// cost, of the named weapon, with the weapon entity in the handle's low 11
/// bits, in the inventory slot given by the property id above the purchase
/// definition ids; a definition and a cost followed by anything else make a
/// purchase without a weapon entity. The changes after them are read on
/// their own.
pub proof fn law_purchase_from_changes(
    def: u32,
    entid: i32,
    prop_id: u32,
    cost: i32,
    cost_ent: i32,
    third: GameEventInfo,
    rest: Seq<GameEventInfo>,
    names: Seq<(u32, String)>,
)
    ensures
        ({
            let head = seq![
                GameEventInfo::WeaponCreateDefIdx((EventValue::U32(def), entid, prop_id)),
                GameEventInfo::WeaponCreateNCost((EventValue::I32(cost), cost_ent)),
            ];
            let slot = prop_id.wrapping_sub(ITEM_PURCHASE_DEF_IDX);
            match third {
                GameEventInfo::WeaponCreateHitem((EventValue::U64(handle), _)) => spec_purchases(
                    head.push(third) + rest,
                    0,
                    names,
                ) == seq![(entid, cost, weapon_name(names, def), (handle & 0x7ff) as i32, slot)]
                    + spec_purchases(rest, 0, names),
                _ => spec_purchases(head.push(third) + rest, 0, names) == seq![
                    (entid, cost, weapon_name(names, def), ENTITYIDNONE, slot),
                ] + spec_purchases(seq![third] + rest, 0, names),
            }
        }),
{
    let head = seq![
        GameEventInfo::WeaponCreateDefIdx((EventValue::U32(def), entid, prop_id)),
        GameEventInfo::WeaponCreateNCost((EventValue::I32(cost), cost_ent)),
    ];
    let f = head.push(third) + rest;
    assert(f[0] == head[0]);
    assert(f[1] == head[1]);
    assert(f[2] == third);
    lemma_purchases_shift(head.push(third), rest, 0, names);
    assert(f =~= head + (seq![third] + rest));
    lemma_purchases_shift(head, seq![third] + rest, 0, names);
}

/// The cost that the change at `i` carries, if it is a cost change.
pub open spec fn next_cost(f: Seq<GameEventInfo>, i: int) -> Option<i32> {
    if 0 <= i < f.len() {
        match f[i] {
            GameEventInfo::WeaponCreateNCost((EventValue::I32(cost), _)) => Some(cost),
            _ => None,
        }
    } else {
        None
    }
}

/// The item handle that the change at `i` carries, if it is a handle change.
pub open spec fn next_handle(f: Seq<GameEventInfo>, i: int) -> Option<u64> {
    if 0 <= i < f.len() {
        match f[i] {
            GameEventInfo::WeaponCreateHitem((EventValue::U64(handle), _)) => Some(handle),
            _ => None,
        }
    } else {
        None
    }
}

/// The purchases as plain values.
pub open spec fn purchase_views(s: Seq<PurchaseEvent>) -> Seq<PurchaseView>
    decreases s.len(),
{
    if s.len() == 0 {
        Seq::empty()
    } else {
        purchase_views(s.drop_last()).push(purchase_view(s.last()))
    }
}

pub(crate) fn lookup_weapon_name(names: &[(u32, String)], def: u32) -> (r: Option<String>)
    ensures
        match weapon_name(names@, def) {
            Some(n) => r matches Some(s) && s@ == n,
            None => r is None,
        },
{
    let mut i: usize = 0;
    assert(names@.skip(0) =~= names@);
    while i < names.len()
        invariant
            i <= names@.len(),
            weapon_name(names@, def) == weapon_name(names@.skip(i as int), def),
        decreases names@.len() - i,
    {
        assert(names@.skip(i as int).drop_first() =~= names@.skip(i + 1));
        if names[i].0 == def {
            return Some(names[i].1.clone());
        }
        i += 1;
    }
    None
}

/// Reconstructs the purchases from the property changes of a tick; weapon
/// names come from `names` (definition index to name).
pub fn combine_purchase_events(events: &[GameEventInfo], names: &[(u32, String)]) -> (purchases: Vec<PurchaseEvent>)
    ensures
        purchase_views(purchases@) == spec_purchases(purchase_parts(events@), 0, names@),
{
    // Filter purchase events
    let mut filtered: Vec<GameEventInfo> = Vec::new();
    let mut k: usize = 0;
    while k < events.len()
        invariant
            k <= events@.len(),
            filtered@ == purchase_parts(events@.take(k as int)),
        decreases events@.len() - k,
    {
        proof {
            assert(events@.take(k + 1).drop_last() =~= events@.take(k as int));
        }
        let e = events[k];
        match e {
            GameEventInfo::WeaponCreateDefIdx(_) | GameEventInfo::WeaponCreateNCost(_) | GameEventInfo::WeaponCreateHitem(_) => {
                filtered.push(e);
            },
            _ => {},
        }
        k += 1;
    }
    proof {
        assert(events@.take(events@.len() as int) =~= events@);
    }
    let ghost f = filtered@;
    let mut purchases: Vec<PurchaseEvent> = vec![];
    let mut ptr: usize = 0;
    while ptr < filtered.len()
        invariant
            f == filtered@,
            purchase_views(purchases@) + spec_purchases(f, ptr as int, names@) == spec_purchases(f, 0, names@),
        decreases filtered@.len() - ptr,
    {
        let len = filtered.len();
        let mut step: usize = 1;
        if let GameEventInfo::WeaponCreateDefIdx((EventValue::U32(def), entid, prop_id)) = filtered[ptr] {
            if ptr + 1 < len {
                if let GameEventInfo::WeaponCreateNCost((EventValue::I32(cost), _)) = filtered[ptr + 1] {
                    let mut weapon_entid = ENTITYIDNONE;
                    step = 2;
                    if ptr + 2 < len {
                        if let GameEventInfo::WeaponCreateHitem((EventValue::U64(handle), _)) = filtered[ptr + 2] {
                            weapon_entid = #[verifier::truncate] ((handle & 0x7ff) as i32);
                            step = 3;
                        }
                    }
                    let p = PurchaseEvent {
                        cost: cost,
                        name: lookup_weapon_name(names, def),
                        entid: entid,
                        weapon_entid: weapon_entid,
                        inventory_slot: prop_id.wrapping_sub(ITEM_PURCHASE_DEF_IDX),
                    };
                    let ghost before = purchases@;
                    purchases.push(p);
                    proof {
                        assert(purchases@.drop_last() =~= before);
                        assert(spec_purchases(f, ptr as int, names@) =~= seq![purchase_view(p)] + spec_purchases(
                            f,
                            ptr + step,
                            names@,
                        ));
                        assert(purchase_views(purchases@) + spec_purchases(f, ptr + step, names@) =~= purchase_views(
                            before,
                        ) + spec_purchases(f, ptr as int, names@));
                    }
                }
            }
        }
        ptr += step;
    }
    proof {
        assert(purchase_views(purchases@) + Seq::<PurchaseView>::empty() =~= purchase_views(purchases@));
    }
    purchases
}

// ---------------------------------------------------------------------------
// Asking the changes of a tick.

/// Whether some change is a round state change.
pub fn contains_round_end_event(events: &[GameEventInfo]) -> (r: bool)
    ensures
        r == exists|i: int| 0 <= i < events@.len() && (#[trigger] events@[i]) is RoundEnd,
{
    let mut i: usize = 0;
    while i < events.len()
        invariant
            i <= events@.len(),
            forall|k: int| 0 <= k < i ==> !((#[trigger] events@[k]) is RoundEnd),
        decreases events@.len() - i,
    {
        if let GameEventInfo::RoundEnd(_) = events[i] {
            return true;
        }
        i += 1;
    }
    false
}

/// Whether some change is the start of a freeze period.
pub fn contains_freeze_period_start(events: &[GameEventInfo]) -> (r: bool)
    ensures
        r == exists|i: int| 0 <= i < events@.len() && (#[trigger] events@[i]) is FreezePeriodStart,
{
    let mut i: usize = 0;
    while i < events.len()
        invariant
            i <= events@.len(),
            forall|k: int| 0 <= k < i ==> !((#[trigger] events@[k]) is FreezePeriodStart),
        decreases events@.len() - i,
    {
        if let GameEventInfo::FreezePeriodStart(_) = events[i] {
            return true;
        }
        i += 1;
    }
    false
}

/// Whether some change is the end of the match.
pub fn contains_match_end(events: &[GameEventInfo]) -> (r: bool)
    ensures
        r == exists|i: int| 0 <= i < events@.len() && (#[trigger] events@[i]) is MatchEnd,
{
    let mut i: usize = 0;
    while i < events.len()
        invariant
            i <= events@.len(),
            forall|k: int| 0 <= k < i ==> !((#[trigger] events@[k]) is MatchEnd),
        decreases events@.len() - i,
    {
        if let GameEventInfo::MatchEnd() = events[i] {
            return true;
        }
        i += 1;
    }
    false
}

/// Whether some change is the item definition of a purchase.
pub fn contains_weapon_create(events: &[GameEventInfo]) -> (r: bool)
    ensures
        r == exists|i: int| 0 <= i < events@.len() && (#[trigger] events@[i]) is WeaponCreateDefIdx,
{
    let mut i: usize = 0;
    while i < events.len()
        invariant
            i <= events@.len(),
            forall|k: int| 0 <= k < i ==> !((#[trigger] events@[k]) is WeaponCreateDefIdx),
        decreases events@.len() - i,
    {
        if let GameEventInfo::WeaponCreateDefIdx(_) = events[i] {
            return true;
        }
        i += 1;
    }
    false
}

/// The first round state change at or after `i`.
pub open spec fn first_round_end(events: Seq<GameEventInfo>, i: int) -> Option<RoundEnd>
    decreases events.len() - i,
{
    if i < 0 || i >= events.len() {
        None
    } else if let GameEventInfo::RoundEnd(r) = events[i] {
        Some(r)
    } else {
        first_round_end(events, i + 1)
    }
}

/// The reason code of the first win reason change at or after `i`.
pub open spec fn first_win_reason(events: Seq<GameEventInfo>, i: int) -> Option<i32>
    decreases events.len() - i,
{
    if i < 0 || i >= events.len() {
        None
    } else if let GameEventInfo::RoundWinReason(r) = events[i] {
        Some(r.reason)
    } else {
        first_win_reason(events, i + 1)
    }
}

/// The win reason read is that of the first win reason change: there is
/// none exactly when no change from `i` on is a win reason; otherwise some
/// change from `i` on carries that code and no change before it is a win
/// reason.
pub proof fn law_first_win_reason(events: Seq<GameEventInfo>, i: int)
    requires
        0 <= i,
    ensures
        first_win_reason(events, i) is None <==> forall|j: int| i <= j < events.len() ==> !(#[trigger] events[j] is RoundWinReason),
        first_win_reason(events, i) matches Some(c) ==> exists|j: int|
            i <= j < events.len() && #[trigger] events[j] == GameEventInfo::RoundWinReason(RoundWinReason { reason: c })
                && forall|k: int| i <= k < j ==> !(#[trigger] events[k] is RoundWinReason),
    decreases events.len() - i,
{
    if i < events.len() {
        law_first_win_reason(events, i + 1);
        if !(events[i] is RoundWinReason) {
            if let Some(c) = first_win_reason(events, i + 1) {
                let j = choose|j: int|
                    i + 1 <= j < events.len() && #[trigger] events[j] == GameEventInfo::RoundWinReason(
                        RoundWinReason { reason: c },
                    ) && forall|k: int| i + 1 <= k < j ==> !(#[trigger] events[k] is RoundWinReason);
                assert(forall|k: int| i <= k < j ==> !(#[trigger] events[k] is RoundWinReason));
            }
        }
    }
}

/// The round state change read is the first one: there is none exactly when
/// no change from `i` on is a round state change; otherwise it is such a
/// change from `i` on, and no change before it is one.
pub proof fn law_first_round_end(events: Seq<GameEventInfo>, i: int)
    requires
        0 <= i,
    ensures
        first_round_end(events, i) is None <==> forall|j: int| i <= j < events.len() ==> !(#[trigger] events[j] is RoundEnd),
        first_round_end(events, i) matches Some(r) ==> exists|j: int|
            i <= j < events.len() && #[trigger] events[j] == GameEventInfo::RoundEnd(r) && forall|k: int|
                i <= k < j ==> !(#[trigger] events[k] is RoundEnd),
    decreases events.len() - i,
{
    if i < events.len() {
        law_first_round_end(events, i + 1);
        if !(events[i] is RoundEnd) {
            if let Some(r) = first_round_end(events, i + 1) {
                let j = choose|j: int|
                    i + 1 <= j < events.len() && #[trigger] events[j] == GameEventInfo::RoundEnd(r) && forall|k: int|
                        i + 1 <= k < j ==> !(#[trigger] events[k] is RoundEnd);
                assert(forall|k: int| i <= k < j ==> !(#[trigger] events[k] is RoundEnd));
            }
        }
    }
}

/// The first round state change among `events`.
pub fn extract_round_end(events: &[GameEventInfo]) -> (r: Option<RoundEnd>)
    ensures
        r == first_round_end(events@, 0),
{
    let mut i: usize = 0;
    while i < events.len()
        invariant
            i <= events@.len(),
            first_round_end(events@, 0) == first_round_end(events@, i as int),
        decreases events@.len() - i,
    {
        if let GameEventInfo::RoundEnd(round_end) = events[i] {
            return Some(round_end);
        }
        i += 1;
    }
    None
}

/// The text that `table` gives for the reason code `code`: its first entry
/// for it.
pub open spec fn reason_text(table: Seq<(i32, String)>, code: i32) -> Option<Seq<char>>
    decreases table.len(),
{
    if table.len() == 0 {
        None
    } else if table[0].0 == code {
        Some(table[0].1@)
    } else {
        reason_text(table.drop_first(), code)
    }
}

/// What the first win reason change among `events` is called in `table`, or
/// its code in decimal where the table has no entry for it; `None` without
/// such a change.
pub open spec fn spec_win_reason_text(events: Seq<GameEventInfo>, table: Seq<(i32, String)>) -> Option<
    Seq<char>,
> {
    match first_win_reason(events, 0) {
        None => None,
        Some(code) => match reason_text(table, code) {
            Some(t) => Some(t),
            None => Some(int_decimal(code as int)),
        },
    }
}

fn lookup_reason(table: &[(i32, String)], code: i32) -> (r: Option<String>)
    ensures
        match reason_text(table@, code) {
            Some(t) => r matches Some(s) && s@ == t,
            None => r is None,
        },
{
    let mut i: usize = 0;
    assert(table@.skip(0) =~= table@);
    while i < table.len()
        invariant
            i <= table@.len(),
            reason_text(table@, code) == reason_text(table@.skip(i as int), code),
        decreases table@.len() - i,
    {
        assert(table@.skip(i as int).drop_first() =~= table@.skip(i + 1));
        if table[i].0 == code {
            return Some(table[i].1.clone());
        }
        i += 1;
    }
    None
}

fn win_reason_text(events: &[GameEventInfo], table: &[(i32, String)]) -> (r: Option<String>)
    ensures
        match spec_win_reason_text(events@, table@) {
            Some(t) => r matches Some(s) && s@ == t,
            None => r is None,
        },
{
    let mut i: usize = 0;
    while i < events.len()
        invariant
            i <= events@.len(),
            first_win_reason(events@, 0) == first_win_reason(events@, i as int),
        decreases events@.len() - i,
    {
        if let GameEventInfo::RoundWinReason(reason) = events[i] {
            return match lookup_reason(table, reason.reason) {
                Some(name) => Some(name),
                None => Some(i32_text(reason.reason)),
            };
        }
        i += 1;
    }
    None
}

/// Why the round ended, from the first win reason change among `events`:
/// the name that `reason_names` (reason code to name) gives its code, or
/// the code in decimal.
pub fn extract_win_reason(events: &[GameEventInfo], reason_names: &[(i32, String)]) -> (r: Option<String>)
    ensures
        match spec_win_reason_text(events@, reason_names@) {
            Some(t) => r matches Some(s) && s@ == t,
            None => r is None,
        },
{
    win_reason_text(events, reason_names)
}

/// Which side won the round, from the first win reason change among
/// `events`: the side that `reason_winners` (reason code to side) gives its
/// code, or the code in decimal.
pub fn extract_winner(events: &[GameEventInfo], reason_winners: &[(i32, String)]) -> (r: Option<String>)
    ensures
        match spec_win_reason_text(events@, reason_winners@) {
            Some(t) => r matches Some(s) && s@ == t,
            None => r is None,
        },
{
    win_reason_text(events, reason_winners)
}

// ---------------------------------------------------------------------------
// Purchase events.

/// The purchase events are wanted: asked for by name, or all events are.
pub open spec fn purchases_wanted(wanted: Seq<String>) -> bool {
    names_hold(wanted, "item_purchase"@) || (wanted.len() > 0 && wanted[0]@ == "all"@)
}

/// The player under the key `k` (the first entry with it).
pub open spec fn player_lookup(ps: Seq<(i32, PlayerMetaData)>, k: i32) -> Option<PlayerMetaData>
    decreases ps.len(),
{
    if ps.len() == 0 {
        None
    } else if ps[0].0 == k {
        Some(ps[0].1)
    } else {
        player_lookup(ps.drop_first(), k)
    }
}

/// The buyer `entid` stands in a buy zone: its buy-zone property is known
/// and true.
pub open spec fn in_buy_zone(ents: Seq<Option<Entity>>, ids: SpecialIDs, entid: i32) -> bool {
    match ids.in_buy_zone {
        Some(id) => spec_prop_from_ent(ents, id, entid) == Ok::<PropValueView, crate::collect_data::PropCollectionError>(
            PropValueView::Bool(true),
        ),
        None => false,
    }
}

/// What a fallible property read gives an event field: the value, or
/// nothing where the read failed.
pub open spec fn read_ok(r: Result<PropValueView, crate::collect_data::PropCollectionError>) -> Option<PropValueView> {
    match r {
        Ok(v) => Some(v),
        Err(_) => None,
    }
}

/// The skin, skin id and stickers of one weapon entity, as read from its
/// floating-point properties.
pub struct WeaponSkin {
    pub weapon_entid: i32,
    pub skin: Option<PropValue>,
    pub skin_id: Option<PropValue>,
    pub stickers: Option<PropValue>,
}

/// The skin, skin id and stickers given for `weapon` (the first entry for
/// it); nothing for a weapon without an entry.
pub open spec fn skin_lookup(skins: Seq<WeaponSkin>, weapon: i32) -> (
    Option<PropValueView>,
    Option<PropValueView>,
    Option<PropValueView>,
)
    decreases skins.len(),
{
    if skins.len() == 0 {
        (None, None, None)
    } else if skins[0].weapon_entid == weapon {
        (data_view(skins[0].skin), data_view(skins[0].skin_id), data_view(skins[0].stickers))
    } else {
        skin_lookup(skins.drop_first(), weapon)
    }
}

/// The custom name of the weapon `weapon`, where its property is known.
pub open spec fn custom_name_field(ents: Seq<Option<Entity>>, ids: SpecialIDs, weapon: i32) -> Option<PropValueView> {
    match ids.custom_name {
        Some(id) => read_ok(spec_prop_from_ent(ents, id, weapon)),
        None => None,
    }
}

/// The fields of the event of purchase `p` by `player`: item name, player
/// name, steamid (0 when unknown), inventory slot, cost, tick, then the
/// bought weapon's float (its raw property), skin, skin id, paint seed (its
/// raw property), stickers and custom name.
pub open spec fn purchase_fields(
    p: PurchaseView,
    player: PlayerMetaData,
    tick: i32,
    ents: Seq<Option<Entity>>,
    ids: SpecialIDs,
    skins: Seq<WeaponSkin>,
) -> Seq<(Seq<char>, Option<PropValueView>)> {
    let sk = skin_lookup(skins, p.3);
    seq![
        ("item_name"@, match p.2 {
            Some(n) => Some(PropValueView::Str(n)),
            None => None,
        }),
        ("name"@, match player.name {
            Some(n) => Some(PropValueView::Str(n@)),
            None => None,
        }),
        ("steamid"@, Some(PropValueView::U64(match player.steamid {
            Some(sid) => sid,
            None => 0u64,
        }))),
        ("inventory_slot"@, Some(PropValueView::U32(p.4))),
        ("cost"@, Some(PropValueView::I32(p.1))),
        ("tick"@, Some(PropValueView::I32(tick))),
        ("float"@, read_ok(spec_prop_from_ent(ents, WEAPON_FLOAT, p.3))),
        ("skin"@, sk.0),
        ("skin_id"@, sk.1),
        ("paint_seed"@, read_ok(spec_prop_from_ent(ents, WEAPON_PAINT_SEED, p.3))),
        ("stickers"@, sk.2),
        ("custom_name"@, custom_name_field(ents, ids, p.3)),
    ]
}

/// The wanted properties of one player, as event fields, by the player's
/// entity id.
pub struct PlayerExtraFields {
    pub entid: i32,
    pub fields: Vec<EventField>,
}

/// The wanted properties given for the player `entid` (the first entry for
/// it); none for a player without an entry.
pub open spec fn extras_lookup(x: Seq<PlayerExtraFields>, entid: i32) -> Seq<(Seq<char>, Option<PropValueView>)>
    decreases x.len(),
{
    if x.len() == 0 {
        Seq::empty()
    } else if x[0].entid == entid {
        field_views(x[0].fields@)
    } else {
        extras_lookup(x.drop_first(), entid)
    }
}

/// All fields of the event of purchase `p` by `player`: `purchase_fields`,
/// then the wanted properties of the buyer, then the other wanted
/// properties.
pub open spec fn purchase_event_fields_view(
    p: PurchaseView,
    player: PlayerMetaData,
    tick: i32,
    ents: Seq<Option<Entity>>,
    ids: SpecialIDs,
    skins: Seq<WeaponSkin>,
    extras: Seq<PlayerExtraFields>,
    others: Seq<EventField>,
) -> Seq<(Seq<char>, Option<PropValueView>)> {
    purchase_fields(p, player, tick, ents, ids, skins) + extras_lookup(extras, p.0) + field_views(others)
}

/// A purchase event as plain values: its fields, its tick, and the
/// purchase it is for.
pub type PurchaseEventView = (Seq<(Seq<char>, Option<PropValueView>)>, i32, PurchaseView);

/// The events of the purchases `ps`: one for each purchase whose buyer
/// stands in a buy zone and is a known player, in order.
pub open spec fn purchase_event_views(
    ps: Seq<PurchaseView>,
    ents: Seq<Option<Entity>>,
    ids: SpecialIDs,
    players: Seq<(i32, PlayerMetaData)>,
    tick: i32,
    skins: Seq<WeaponSkin>,
    extras: Seq<PlayerExtraFields>,
    others: Seq<EventField>,
) -> Seq<PurchaseEventView>
    decreases ps.len(),
{
    if ps.len() == 0 {
        Seq::empty()
    } else {
        let rest = purchase_event_views(ps.drop_last(), ents, ids, players, tick, skins, extras, others);
        let p = ps.last();
        if in_buy_zone(ents, ids, p.0) {
            match player_lookup(players, p.0) {
                Some(player) => rest.push(
                    (purchase_event_fields_view(p, player, tick, ents, ids, skins, extras, others), tick, p),
                ),
                None => rest,
            }
        } else {
            rest
        }
    }
}

pub open spec fn purchase_event_view(e: (GameEvent, PurchaseEvent)) -> PurchaseEventView {
    (field_views(e.0.fields@), e.0.tick, purchase_view(e.1))
}

proof fn lemma_purchase_views_index(s: Seq<PurchaseEvent>)
    ensures
        purchase_views(s).len() == s.len(),
        forall|i: int| 0 <= i < s.len() ==> #[trigger] purchase_views(s)[i] == purchase_view(s[i]),
    decreases s.len(),
{
    if s.len() > 0 {
        lemma_purchase_views_index(s.drop_last());
    }
}

pub(crate) fn find_player(players: &[(i32, PlayerMetaData)], k: i32) -> (r: Option<usize>)
    ensures
        match r {
            Some(i) => i < players@.len() && player_lookup(players@, k) == Some(players@[i as int].1),
            None => player_lookup(players@, k) is None,
        },
{
    let mut i: usize = 0;
    assert(players@.skip(0) =~= players@);
    while i < players.len()
        invariant
            i <= players@.len(),
            player_lookup(players@, k) == player_lookup(players@.skip(i as int), k),
        decreases players@.len() - i,
    {
        assert(players@.skip(i as int).drop_first() =~= players@.skip(i + 1));
        if players[i].0 == k {
            return Some(i);
        }
        i += 1;
    }
    None
}

fn push_field(fields: &mut Vec<EventField>, name: &str, data: Option<PropValue>)
    ensures
        field_views(final(fields)@) == field_views(old(fields)@).push(
            (name@, match data {
                Some(v) => Some(crate::entities::prop_value_view(v)),
                None => None,
            }),
        ),
{
    let ghost d = data;
    fields.push(EventField { name: name.to_owned(), data });
    assert(field_views(fields@) =~= field_views(old(fields)@).push(
        (name@, match d {
            Some(v) => Some(crate::entities::prop_value_view(v)),
            None => None,
        }),
    ));
}

fn clone_opt_prop(v: &Option<PropValue>) -> (r: Option<PropValue>)
    ensures
        data_view(r) == data_view(*v),
{
    match v {
        Some(x) => Some(clone_prop_value(x)),
        None => None,
    }
}

fn find_skin(skins: &[WeaponSkin], weapon: i32) -> (r: (Option<PropValue>, Option<PropValue>, Option<PropValue>))
    ensures
        (data_view(r.0), data_view(r.1), data_view(r.2)) == skin_lookup(skins@, weapon),
{
    let mut i: usize = 0;
    assert(skins@.skip(0) =~= skins@);
    while i < skins.len()
        invariant
            i <= skins@.len(),
            skin_lookup(skins@, weapon) == skin_lookup(skins@.skip(i as int), weapon),
        decreases skins@.len() - i,
    {
        assert(skins@.skip(i as int).drop_first() =~= skins@.skip(i + 1));
        if skins[i].weapon_entid == weapon {
            return (clone_opt_prop(&skins[i].skin), clone_opt_prop(&skins[i].skin_id), clone_opt_prop(&skins[i].stickers));
        }
        i += 1;
    }
    (None, None, None)
}

fn read_prop_ok(entities: &[Option<Entity>], prop_id: u32, entity_id: i32) -> (r: Option<PropValue>)
    ensures
        data_view(r) == read_ok(spec_prop_from_ent(entities@, prop_id, entity_id)),
{
    match get_prop_from_ent(entities, &prop_id, &entity_id) {
        Ok(v) => Some(v),
        Err(_) => None,
    }
}

fn purchase_event_fields(
    p: &PurchaseEvent,
    player: &PlayerMetaData,
    tick: i32,
    entities: &[Option<Entity>],
    special_ids: &SpecialIDs,
    weapon_skins: &[WeaponSkin],
) -> (fields: Vec<EventField>)
    ensures
        field_views(fields@) == purchase_fields(purchase_view(*p), *player, tick, entities@, *special_ids, weapon_skins@),
{
    let mut fields: Vec<EventField> = Vec::new();
    let item_name = match &p.name {
        Some(name) => Some(PropValue::Str(name.clone())),
        None => None,
    };
    push_field(&mut fields, "item_name", item_name);
    let name = match &player.name {
        Some(name) => Some(PropValue::Str(name.clone())),
        None => None,
    };
    push_field(&mut fields, "name", name);
    let steamid = match player.steamid {
        Some(sid) => sid,
        None => 0,
    };
    push_field(&mut fields, "steamid", Some(PropValue::U64(steamid)));
    push_field(&mut fields, "inventory_slot", Some(PropValue::U32(p.inventory_slot)));
    push_field(&mut fields, "cost", Some(PropValue::I32(p.cost)));
    push_field(&mut fields, "tick", Some(PropValue::I32(tick)));
    let (skin, skin_id, stickers) = find_skin(weapon_skins, p.weapon_entid);
    push_field(&mut fields, "float", read_prop_ok(entities, WEAPON_FLOAT, p.weapon_entid));
    push_field(&mut fields, "skin", skin);
    push_field(&mut fields, "skin_id", skin_id);
    push_field(&mut fields, "paint_seed", read_prop_ok(entities, WEAPON_PAINT_SEED, p.weapon_entid));
    push_field(&mut fields, "stickers", stickers);
    let custom_name = match special_ids.custom_name {
        Some(custom_name_id) => read_prop_ok(entities, custom_name_id, p.weapon_entid),
        None => None,
    };
    push_field(&mut fields, "custom_name", custom_name);
    assert(field_views(fields@) =~= purchase_fields(
        purchase_view(*p),
        *player,
        tick,
        entities@,
        *special_ids,
        weapon_skins@,
    ));
    fields
}

fn append_fields(fields: &mut Vec<EventField>, more: &[EventField])
    ensures
        field_views(final(fields)@) == field_views(old(fields)@) + field_views(more@),
{
    let mut i: usize = 0;
    while i < more.len()
        invariant
            i <= more@.len(),
            field_views(fields@) == field_views(old(fields)@) + field_views(more@.take(i as int)),
        decreases more@.len() - i,
    {
        let f = &more[i];
        push_field(fields, f.name.as_str(), clone_opt_prop(&f.data));
        assert(field_views(more@.take(i + 1)) =~= field_views(more@.take(i as int)).push(
            (f.name@, data_view(f.data)),
        ));
        i += 1;
    }
    assert(more@.take(more@.len() as int) =~= more@);
}

fn find_extras(extras: &[PlayerExtraFields], entid: i32) -> (r: Option<usize>)
    ensures
        match r {
            Some(k) => k < extras@.len() && extras_lookup(extras@, entid) == field_views(extras@[k as int].fields@),
            None => extras_lookup(extras@, entid) == Seq::<(Seq<char>, Option<PropValueView>)>::empty(),
        },
{
    let mut i: usize = 0;
    assert(extras@.skip(0) =~= extras@);
    while i < extras.len()
        invariant
            i <= extras@.len(),
            extras_lookup(extras@, entid) == extras_lookup(extras@.skip(i as int), entid),
        decreases extras@.len() - i,
    {
        assert(extras@.skip(i as int).drop_first() =~= extras@.skip(i + 1));
        if extras[i].entid == entid {
            return Some(i);
        }
        i += 1;
    }
    None
}

fn clone_purchase(p: &PurchaseEvent) -> (r: PurchaseEvent)
    ensures
        purchase_view(r) == purchase_view(*p),
{
    PurchaseEvent {
        entid: p.entid,
        cost: p.cost,
        name: match &p.name {
            Some(n) => Some(n.clone()),
            None => None,
        },
        weapon_entid: p.weapon_entid,
        inventory_slot: p.inventory_slot,
    }
}

/// Records that an event of the name `name` was seen.
pub open spec fn counter_insert(c: Seq<Seq<char>>, name: Seq<char>) -> Seq<Seq<char>> {
    if c.contains(name) {
        c
    } else {
        c.push(name)
    }
}

fn note_event(game_events_counter: &mut Vec<String>, name: &str)
    ensures
        final(game_events_counter)@.map_values(|t: String| t@) == counter_insert(
            old(game_events_counter)@.map_values(|t: String| t@),
            name@,
        ),
{
    let ghost names = game_events_counter@.map_values(|t: String| t@);
    let mut i: usize = 0;
    while i < game_events_counter.len()
        invariant
            i <= game_events_counter@.len(),
            game_events_counter@ == old(game_events_counter)@,
            names == game_events_counter@.map_values(|t: String| t@),
            forall|j: int| 0 <= j < i ==> names[j] != name@,
        decreases game_events_counter@.len() - i,
    {
        if str_eq(game_events_counter[i].as_str(), name) {
            assert(names[i as int] == name@);
            return;
        }
        i += 1;
    }
    assert(!names.contains(name@));
    game_events_counter.push(name.to_owned());
    assert(game_events_counter@.map_values(|t: String| t@) =~= names.push(name@));
}

/// The purchase events of a tick. Notes `item_purchase` as seen; where
/// purchase events are wanted (`purchases_wanted`), it reconstructs the
/// purchases from the property changes `events` (`combine_purchase_events`)
/// and makes an `item_purchase` event for each one whose buyer stands in a
/// buy zone and is a known player (`purchase_event_views`), with the fields
/// `purchase_event_fields_view`. What comes from floating-point properties
/// or from the collection of wanted properties is handed in: the skin, skin
/// id and stickers of the weapons (`weapon_skins`), the wanted properties of
/// each player (`player_extra_fields`) and the other wanted properties
/// (`other_fields`). Each event comes with its purchase.
pub fn create_custom_event_weapon_purchase(
    events: &[GameEventInfo],
    weapon_names: &[(u32, String)],
    entities: &[Option<Entity>],
    special_ids: &SpecialIDs,
    players: &[(i32, PlayerMetaData)],
    wanted_events: &[String],
    tick: i32,
    weapon_skins: &[WeaponSkin],
    player_extra_fields: &[PlayerExtraFields],
    other_fields: &[EventField],
    game_events_counter: &mut Vec<String>,
) -> (r: Vec<(GameEvent, PurchaseEvent)>)
    ensures
        final(game_events_counter)@.map_values(|t: String| t@) == counter_insert(
            old(game_events_counter)@.map_values(|t: String| t@),
            "item_purchase"@,
        ),
        forall|i: int| 0 <= i < r@.len() ==> (#[trigger] r@[i]).0.name@ == "item_purchase"@,
        r@.map_values(|e: (GameEvent, PurchaseEvent)| purchase_event_view(e)) == if purchases_wanted(
            wanted_events@,
        ) {
            purchase_event_views(
                spec_purchases(purchase_parts(events@), 0, weapon_names@),
                entities@,
                *special_ids,
                players@,
                tick,
                weapon_skins@,
                player_extra_fields@,
                other_fields@,
            )
        } else {
            Seq::empty()
        },
{
    note_event(game_events_counter, "item_purchase");
    let mut out: Vec<(GameEvent, PurchaseEvent)> = Vec::new();
    let wanted = crate::prop_controller::holds_name(wanted_events, "item_purchase") || (wanted_events.len() > 0
        && str_eq(wanted_events[0].as_str(), "all"));
    if !wanted {
        assert(out@.map_values(|e: (GameEvent, PurchaseEvent)| purchase_event_view(e)) =~= Seq::empty());
        return out;
    }
    let purchases = combine_purchase_events(events, weapon_names);
    let ghost pv = purchase_views(purchases@);
    proof {
        lemma_purchase_views_index(purchases@);
    }
    let mut i: usize = 0;
    while i < purchases.len()
        invariant
            i <= purchases@.len(),
            pv == purchase_views(purchases@),
            pv.len() == purchases@.len(),
            forall|j: int| 0 <= j < purchases@.len() ==> #[trigger] pv[j] == purchase_view(purchases@[j]),
            forall|j: int| 0 <= j < out@.len() ==> (#[trigger] out@[j]).0.name@ == "item_purchase"@,
            out@.map_values(|e: (GameEvent, PurchaseEvent)| purchase_event_view(e)) == purchase_event_views(
                pv.take(i as int),
                entities@,
                *special_ids,
                players@,
                tick,
                weapon_skins@,
                player_extra_fields@,
                other_fields@,
            ),
        decreases purchases@.len() - i,
    {
        let p = &purchases[i];
        let ghost before = out@.map_values(|e: (GameEvent, PurchaseEvent)| purchase_event_view(e));
        assert(pv.take(i + 1).drop_last() =~= pv.take(i as int));
        assert(pv.take(i + 1).last() == purchase_view(*p));
        let in_zone = match special_ids.in_buy_zone {
            Some(buy_zone_id) => match get_prop_from_ent(entities, &buy_zone_id, &p.entid) {
                Ok(PropValue::Bool(true)) => true,
                _ => false,
            },
            None => false,
        };
        if in_zone {
            match find_player(players, p.entid) {
                Some(k) => {
                    let player = &players[k].1;
                    let mut fields = purchase_event_fields(p, player, tick, entities, special_ids, weapon_skins);
                    match find_extras(player_extra_fields, p.entid) {
                        Some(x) => append_fields(&mut fields, &player_extra_fields[x].fields),
                        None => {},
                    }
                    append_fields(&mut fields, other_fields);
                    let ge = GameEvent { name: "item_purchase".to_owned(), fields, tick };
                    let pc = clone_purchase(p);
                    out.push((ge, pc));
                    assert(out@.map_values(|e: (GameEvent, PurchaseEvent)| purchase_event_view(e)) =~= before.push(
                        (
                            purchase_event_fields_view(
                                purchase_view(*p),
                                players@[k as int].1,
                                tick,
                                entities@,
                                *special_ids,
                                weapon_skins@,
                                player_extra_fields@,
                                other_fields@,
                            ),
                            tick,
                            purchase_view(*p),
                        ),
                    ));
                },
                None => {},
            }
        }
        i += 1;
    }
    assert(pv.take(purchases@.len() as int) =~= pv);
    out
}

} // verus!
