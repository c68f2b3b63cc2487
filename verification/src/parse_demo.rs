use vstd::prelude::*;

use crate::entities::{clone_prop_value, prop_value_view, PropValue, PropValueView};
use crate::strings::str_eq;

verus! {

/// Whether the ticks of a demo are parsed by one thread or several.
#[derive(PartialEq, Eq, Structural)]
pub enum ParsingMode {
    ForceSingleThreaded,
    ForceMultiThreaded,
    Normal,
}

/// A purchase or a sale of an item: who made it, when, in which slot.
#[derive(Debug, Clone, Copy, PartialEq, Eq)]
pub struct SellBackHelper {
    pub tick: i32,
    pub steamid: u64,
    pub inventory_slot: u32,
}

/// A named field of a game event and its value.
#[derive(Debug)]
pub struct EventField {
    pub name: String,
    pub data: Option<PropValue>,
}

/// A game event: its name, its fields and the tick it happened at.
#[derive(Debug)]
pub struct GameEvent {
    pub name: String,
    pub fields: Vec<EventField>,
    pub tick: i32,
}

pub open spec fn data_view(d: Option<PropValue>) -> Option<PropValueView> {
    match d {
        Some(v) => Some(prop_value_view(v)),
        None => None,
    }
}

/// The value of the first field called `name`; `None` when there is no
/// such field or it holds no value.
pub open spec fn field_value(fields: Seq<EventField>, name: Seq<char>) -> Option<PropValueView>
    decreases fields.len(),
{
    if fields.len() == 0 {
        None
    } else if fields[0].name@ == name {
        data_view(fields[0].data)
    } else {
        field_value(fields.drop_first(), name)
    }
}

/// The purchase or sale that an event describes, when its `tick`, `steamid`
/// and `inventory_slot` fields hold an `i32`, a `u64` and a `u32`.
pub open spec fn helper_of(e: GameEvent) -> Option<SellBackHelper> {
    match (
        field_value(e.fields@, "tick"@),
        field_value(e.fields@, "steamid"@),
        field_value(e.fields@, "inventory_slot"@),
    ) {
        (Some(PropValueView::I32(tick)), Some(PropValueView::U64(steamid)), Some(PropValueView::U32(slot))) => Some(
            SellBackHelper { tick, steamid, inventory_slot: slot },
        ),
        _ => None,
    }
}

/// The purchases or sales described by the events called `name`, in order.
pub open spec fn helpers_named(events: Seq<GameEvent>, name: Seq<char>) -> Seq<SellBackHelper>
    decreases events.len(),
{
    if events.len() == 0 {
        Seq::empty()
    } else {
        let rest = helpers_named(events.drop_last(), name);
        let e = events.last();
        if e.name@ == name {
            match helper_of(e) {
                Some(h) => rest.push(h),
                None => rest,
            }
        } else {
            rest
        }
    }
}

/// `h` happened after `p`, by the same player, in the same slot.
pub open spec fn later_in_same_slot(h: SellBackHelper, p: SellBackHelper) -> bool {
    h.tick > p.tick && h.steamid == p.steamid && h.inventory_slot == p.inventory_slot
}

/// The earliest tick among the entries of `hs` later than `p` in the same
/// slot.
pub open spec fn earliest_later(hs: Seq<SellBackHelper>, p: SellBackHelper) -> Option<i32>
    decreases hs.len(),
{
    if hs.len() == 0 {
        None
    } else {
        let rest = earliest_later(hs.drop_last(), p);
        let h = hs.last();
        if later_in_same_slot(h, p) {
            match rest {
                Some(t) => Some(
                    if h.tick < t {
                        h.tick
                    } else {
                        t
                    },
                ),
                None => Some(h.tick),
            }
        } else {
            rest
        }
    }
}

/// A purchase was sold back when, in its slot, a later sale and a later
/// purchase follow it and the earliest such sale comes before the earliest
/// such purchase.
pub open spec fn spec_was_sold(p: SellBackHelper, purchases: Seq<SellBackHelper>, sells: Seq<SellBackHelper>) -> bool {
    match (earliest_later(sells, p), earliest_later(purchases, p)) {
        (Some(sell), Some(buy)) => sell < buy,
        _ => false,
    }
}

/// What the earliest later entry in the same slot is: there is none exactly
/// when no entry of `hs` comes after `p` from the same player in the same
/// slot; otherwise it is the tick of such an entry, and no such entry is
/// earlier.
pub proof fn lemma_earliest_later(hs: Seq<SellBackHelper>, p: SellBackHelper)
    ensures
        earliest_later(hs, p) is None <==> forall|i: int|
            0 <= i < hs.len() ==> !(#[trigger] hs[i].tick > p.tick && hs[i].steamid == p.steamid
                && hs[i].inventory_slot == p.inventory_slot),
        earliest_later(hs, p) matches Some(t) ==> {
            &&& exists|i: int|
                0 <= i < hs.len() && #[trigger] hs[i].tick == t && hs[i].tick > p.tick && hs[i].steamid == p.steamid
                    && hs[i].inventory_slot == p.inventory_slot
            &&& forall|i: int|
                0 <= i < hs.len() && #[trigger] hs[i].tick > p.tick && hs[i].steamid == p.steamid
                    && hs[i].inventory_slot == p.inventory_slot ==> t <= hs[i].tick
        },
    decreases hs.len(),
{
    if hs.len() > 0 {
        let init = hs.drop_last();
        lemma_earliest_later(init, p);
        let last = hs.len() - 1;
        let h = hs[last];
        assert(h == hs.last());
        assert forall|i: int| 0 <= i < init.len() implies #[trigger] init[i] == hs[i] by {}
        let c = h.tick > p.tick && h.steamid == p.steamid && h.inventory_slot == p.inventory_slot;
        assert(c == later_in_same_slot(h, p));
        match earliest_later(init, p) {
            Some(t) => {
                let i0 = choose|i: int|
                    0 <= i < init.len() && #[trigger] init[i].tick == t && init[i].tick > p.tick && init[i].steamid
                        == p.steamid && init[i].inventory_slot == p.inventory_slot;
                assert(hs[i0] == init[i0]);
                assert(hs[i0].tick == t);
                if c && h.tick < t {
                    assert(hs[last].tick == h.tick);
                }
                assert forall|i: int|
                    0 <= i < hs.len() && #[trigger] hs[i].tick > p.tick && hs[i].steamid == p.steamid
                        && hs[i].inventory_slot == p.inventory_slot implies earliest_later(hs, p)->Some_0
                    <= hs[i].tick by {
                    if i < last {
                        assert(init[i] == hs[i]);
                    }
                }
            },
            None => {
                if c {
                    assert(hs[last].tick == h.tick);
                    assert forall|i: int|
                        0 <= i < hs.len() && #[trigger] hs[i].tick > p.tick && hs[i].steamid == p.steamid
                            && hs[i].inventory_slot == p.inventory_slot implies h.tick <= hs[i].tick by {
                        if i < last {
                            assert(init[i] == hs[i]);
                        }
                    }
                } else {
                    assert forall|i: int| 0 <= i < hs.len() implies !(#[trigger] hs[i].tick > p.tick
                        && hs[i].steamid == p.steamid && hs[i].inventory_slot == p.inventory_slot) by {
                        if i < last {
                            assert(init[i] == hs[i]);
                        }
                    }
                }
            },
        }
    }
}

/// A purchase counts as sold back exactly when some sale by the same player
/// in the same inventory slot comes after it, the player buys again in that
/// slot after it, and that sale comes before every such later purchase.
/// In particular, sales in other slots or by other players never mark it.
pub proof fn law_was_sold_by_same_slot_sale(p: SellBackHelper, purchases: Seq<SellBackHelper>, sells: Seq<SellBackHelper>)
    ensures
        spec_was_sold(p, purchases, sells) <==> exists|i: int|
            0 <= i < sells.len() && #[trigger] sells[i].tick > p.tick && sells[i].steamid == p.steamid
                && sells[i].inventory_slot == p.inventory_slot && (exists|j: int|
                0 <= j < purchases.len() && #[trigger] purchases[j].tick > p.tick && purchases[j].steamid
                    == p.steamid && purchases[j].inventory_slot == p.inventory_slot) && (forall|j: int|
                0 <= j < purchases.len() && #[trigger] purchases[j].tick > p.tick && purchases[j].steamid
                    == p.steamid && purchases[j].inventory_slot == p.inventory_slot ==> sells[i].tick
                    < purchases[j].tick),
{
    lemma_earliest_later(sells, p);
    lemma_earliest_later(purchases, p);
    if spec_was_sold(p, purchases, sells) {
        let s = earliest_later(sells, p)->Some_0;
        let b = earliest_later(purchases, p)->Some_0;
        let i = choose|i: int|
            0 <= i < sells.len() && #[trigger] sells[i].tick == s && sells[i].tick > p.tick && sells[i].steamid
                == p.steamid && sells[i].inventory_slot == p.inventory_slot;
        let j = choose|j: int|
            0 <= j < purchases.len() && #[trigger] purchases[j].tick == b && purchases[j].tick > p.tick
                && purchases[j].steamid == p.steamid && purchases[j].inventory_slot == p.inventory_slot;
        assert(sells[i].tick > p.tick);
        assert(purchases[j].tick > p.tick);
    }
}

pub open spec fn field_views(fields: Seq<EventField>) -> Seq<(Seq<char>, Option<PropValueView>)> {
    fields.map_values(|f: EventField| (f.name@, data_view(f.data)))
}

/// `after` is `before` with one more field, `was_sold`, holding `flag`.
pub open spec fn with_sold_flag(before: GameEvent, after: GameEvent, flag: bool) -> bool {
    &&& after.name@ == before.name@
    &&& after.tick == before.tick
    &&& field_views(after.fields@) == field_views(before.fields@).push(
        ("was_sold"@, Some(PropValueView::Bool(flag))),
    )
}

/// Every purchase event describes a purchase.
pub open spec fn purchases_complete(events: Seq<GameEvent>) -> bool {
    forall|i: int|
        0 <= i < events.len() && (#[trigger] events[i]).name@ == "item_purchase"@ ==> helper_of(
            events[i],
        ) is Some
}

impl SellBackHelper {
    /// The purchase or sale that `event` describes.
    pub fn from_event(event: &GameEvent) -> (r: Option<Self>)
        ensures
            r == helper_of(*event),
    {
        if let Some(PropValue::I32(tick)) = SellBackHelper::extract_field("tick", &event.fields) {
            if let Some(PropValue::U64(steamid)) = SellBackHelper::extract_field("steamid", &event.fields) {
                if let Some(PropValue::U32(slot)) = SellBackHelper::extract_field(
                    "inventory_slot",
                    &event.fields,
                ) {
                    return Some(SellBackHelper { tick: tick, steamid: steamid, inventory_slot: slot });
                }
            }
        }
        None
    }

    fn extract_field(name: &str, fields: &[EventField]) -> (r: Option<PropValue>)
        ensures
            data_view(r) == field_value(fields@, name@),
    {
        let mut i: usize = 0;
        assert(fields@.skip(0) =~= fields@);
        while i < fields.len()
            invariant
                i <= fields@.len(),
                field_value(fields@, name@) == field_value(fields@.skip(i as int), name@),
            decreases fields@.len() - i,
        {
            assert(fields@.skip(i as int).drop_first() =~= fields@.skip(i + 1));
            if str_eq(fields[i].name.as_str(), name) {
                return match &fields[i].data {
                    Some(v) => Some(clone_prop_value(v)),
                    None => None,
                };
            }
            i += 1;
        }
        None
    }
}

/// The earliest tick among the entries of `hs` later than `p` in the same
/// slot.
fn earliest_later_tick(hs: &Vec<SellBackHelper>, p: &SellBackHelper) -> (r: Option<i32>)
    ensures
        r == earliest_later(hs@, *p),
{
    let mut best: Option<i32> = None;
    let mut i: usize = 0;
    while i < hs.len()
        invariant
            i <= hs@.len(),
            best == earliest_later(hs@.take(i as int), *p),
        decreases hs@.len() - i,
    {
        assert(hs@.take(i + 1).drop_last() =~= hs@.take(i as int));
        let h = hs[i];
        if h.tick > p.tick && h.steamid == p.steamid && h.inventory_slot == p.inventory_slot {
            best = match best {
                Some(t) => Some(
                    if h.tick < t {
                        h.tick
                    } else {
                        t
                    },
                ),
                None => Some(h.tick),
            };
        }
        i += 1;
    }
    assert(hs@.take(hs@.len() as int) =~= hs@);
    best
}

proof fn lemma_helpers_step(events: Seq<GameEvent>, name: Seq<char>, i: int)
    requires
        0 <= i < events.len(),
    ensures
        helpers_named(events.take(i + 1), name) == (if events[i].name@ == name {
            match helper_of(events[i]) {
                Some(h) => helpers_named(events.take(i), name).push(h),
                None => helpers_named(events.take(i), name),
            }
        } else {
            helpers_named(events.take(i), name)
        }),
{
    assert(events.take(i + 1).drop_last() =~= events.take(i));
}

/// The purchases or sales of a prefix of the events come first among those
/// of all the events.
proof fn lemma_helpers_prefix(events: Seq<GameEvent>, name: Seq<char>, i: int)
    requires
        0 <= i <= events.len(),
    ensures
        helpers_named(events.take(i), name).len() <= helpers_named(events, name).len(),
        helpers_named(events.take(i), name) == helpers_named(events, name).take(
            helpers_named(events.take(i), name).len() as int,
        ),
    decreases events.len() - i,
{
    if i == events.len() {
        assert(events.take(i) =~= events);
    } else {
        lemma_helpers_prefix(events, name, i + 1);
        lemma_helpers_step(events, name, i);
        let short = helpers_named(events.take(i), name);
        let long = helpers_named(events.take(i + 1), name);
        let all = helpers_named(events, name);
        assert(short =~= all.take(short.len() as int)) by {
            assert(short =~= long.take(short.len() as int));
        }
    }
}

/// Adds to each purchase event a field `was_sold`: whether the item was
/// sold back before the player bought again in that slot (see
/// `spec_was_sold`).
pub fn add_item_purchase_sell_column(events: &mut Vec<GameEvent>)
    requires
        purchases_complete(old(events)@),
    ensures
        final(events)@.len() == old(events)@.len(),
        forall|i: int|
            0 <= i < old(events)@.len() ==> if (#[trigger] old(events)@[i]).name@ == "item_purchase"@ {
                with_sold_flag(
                    old(events)@[i],
                    final(events)@[i],
                    spec_was_sold(
                        helper_of(old(events)@[i]).unwrap(),
                        helpers_named(old(events)@, "item_purchase"@),
                        helpers_named(old(events)@, "item_sold"@),
                    ),
                )
            } else {
                final(events)@[i] == old(events)@[i]
            },
{
    let ghost all = events@;
    let ghost purchase_name = "item_purchase"@;
    let ghost sold_name = "item_sold"@;
    let mut purchases: Vec<SellBackHelper> = Vec::new();
    let mut sells: Vec<SellBackHelper> = Vec::new();
    proof {
        reveal_strlit("item_purchase");
        reveal_strlit("item_sold");
    }
    assert(purchase_name.len() != sold_name.len());
    let mut i: usize = 0;
    while i < events.len()
        invariant
            events@ == all,
            purchase_name != sold_name,
            i <= all.len(),
            purchase_name == "item_purchase"@,
            sold_name == "item_sold"@,
            purchases@ == helpers_named(all.take(i as int), purchase_name),
            sells@ == helpers_named(all.take(i as int), sold_name),
        decreases all.len() - i,
    {
        proof {
            lemma_helpers_step(all, purchase_name, i as int);
            lemma_helpers_step(all, sold_name, i as int);
        }
        if str_eq(events[i].name.as_str(), "item_purchase") {
            if let Some(h) = SellBackHelper::from_event(&events[i]) {
                purchases.push(h);
            }
        } else if str_eq(events[i].name.as_str(), "item_sold") {
            if let Some(h) = SellBackHelper::from_event(&events[i]) {
                sells.push(h);
            }
        }
        i += 1;
    }
    assert(all.take(all.len() as int) =~= all);
    let mut was_sold: Vec<bool> = Vec::new();
    let mut k: usize = 0;
    while k < purchases.len()
        invariant
            k <= purchases@.len(),
            was_sold@.len() == k,
            forall|j: int|
                0 <= j < k ==> was_sold@[j] == spec_was_sold(#[trigger] purchases@[j], purchases@, sells@),
        decreases purchases@.len() - k,
    {
        let p = purchases[k];
        let sold = match (earliest_later_tick(&sells, &p), earliest_later_tick(&purchases, &p)) {
            (Some(sell), Some(buy)) => sell < buy,
            _ => false,
        };
        was_sold.push(sold);
        k += 1;
    }
    let np = purchases.len();
    let mut idx: usize = 0;
    let mut i: usize = 0;
    while i < events.len()
        invariant
            np == purchases@.len(),
            all.len() == events@.len(),
            i <= all.len(),
            purchase_name == "item_purchase"@,
            purchases_complete(all),
            purchases@ == helpers_named(all, purchase_name),
            sells@ == helpers_named(all, sold_name),
            was_sold@.len() == purchases@.len(),
            forall|j: int|
                0 <= j < purchases@.len() ==> was_sold@[j] == spec_was_sold(
                    #[trigger] purchases@[j],
                    purchases@,
                    sells@,
                ),
            idx == helpers_named(all.take(i as int), purchase_name).len(),
            forall|j: int| i <= j < all.len() ==> events@[j] == all[j],
            forall|j: int|
                0 <= j < i ==> if (#[trigger] all[j]).name@ == "item_purchase"@ {
                    with_sold_flag(
                        all[j],
                        events@[j],
                        spec_was_sold(helper_of(all[j]).unwrap(), purchases@, sells@),
                    )
                } else {
                    events@[j] == all[j]
                },
        decreases all.len() - i,
    {
        proof {
            lemma_helpers_step(all, purchase_name, i as int);
            lemma_helpers_prefix(all, purchase_name, i + 1);
        }
        let mut e = events.remove(i);
        assert(e == all[i as int]);
        if str_eq(e.name.as_str(), "item_purchase") {
            proof {
                assert(helper_of(all[i as int]) is Some);
                let before = helpers_named(all.take(i as int), purchase_name);
                assert(helpers_named(all.take(i + 1), purchase_name) == before.push(
                    helper_of(all[i as int]).unwrap(),
                ));
                assert(purchases@[idx as int] == helpers_named(all.take(i + 1), purchase_name)[idx as int]);
                assert(idx + 1 <= purchases@.len());
            }
            let ghost before_fields = e.fields@;
            e.fields.push(EventField { name: "was_sold".to_owned(), data: Some(PropValue::Bool(was_sold[idx])) });
            proof {
                reveal_strlit("was_sold");
                assert(field_views(e.fields@) =~= field_views(before_fields).push(
                    ("was_sold"@, Some(PropValueView::Bool(was_sold@[idx as int]))),
                ));
            }
            idx += 1;
        }
        events.insert(i, e);
        i += 1;
    }
}

/// The events that are not sales, in order.
pub open spec fn without_sales(events: Seq<GameEvent>) -> Seq<GameEvent>
    decreases events.len(),
{
    if events.len() == 0 {
        Seq::empty()
    } else {
        let rest = without_sales(events.drop_last());
        if events.last().name@ == "item_sold"@ {
            rest
        } else {
            rest.push(events.last())
        }
    }
}

/// Drops the sale events.
pub fn remove_item_sold_events(events: &mut Vec<GameEvent>)
    ensures
        final(events)@ == without_sales(old(events)@),
{
    let ghost all = events@;
    let mut rest: Vec<GameEvent> = Vec::new();
    std::mem::swap(events, &mut rest);
    let mut kept: Vec<GameEvent> = Vec::new();
    let ghost mut k: int = 0;
    while rest.len() > 0
        invariant
            0 <= k <= all.len(),
            rest@ == all.skip(k),
            kept@ == without_sales(all.take(k)),
        decreases rest@.len(),
    {
        let e = rest.remove(0);
        proof {
            assert(e == all[k]);
            assert(all.take(k + 1).drop_last() =~= all.take(k));
            assert(rest@ =~= all.skip(k + 1));
        }
        if !str_eq(e.name.as_str(), "item_sold") {
            kept.push(e);
        }
        proof {
            k = k + 1;
        }
    }
    assert(all.take(all.len() as int) =~= all);
    *events = kept;
}

} // verus!
