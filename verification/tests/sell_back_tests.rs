use demoparser::entities::PropValue;
use demoparser::parse_demo::{add_item_purchase_sell_column, remove_item_sold_events, EventField, GameEvent, SellBackHelper};

fn ev(name: &str, tick: i32, steamid: u64, slot: u32) -> GameEvent {
    GameEvent {
        name: name.to_string(),
        fields: vec![
            EventField { name: "item_name".to_string(), data: Some(PropValue::Other) },
            EventField { name: "tick".to_string(), data: Some(PropValue::I32(tick)) },
            EventField { name: "steamid".to_string(), data: Some(PropValue::U64(steamid)) },
            EventField { name: "inventory_slot".to_string(), data: Some(PropValue::U32(slot)) },
        ],
        tick,
    }
}

fn was_sold(e: &GameEvent) -> Option<bool> {
    let last = e.fields.last().unwrap();
    assert_eq!(last.name, "was_sold");
    match last.data {
        Some(PropValue::Bool(b)) => Some(b),
        _ => None,
    }
}

#[test]
fn helper_from_event_fields() {
    let e = ev("item_purchase", 100, 7, 2);
    assert_eq!(SellBackHelper::from_event(&e), Some(SellBackHelper { tick: 100, steamid: 7, inventory_slot: 2 }));
    let mut wrong = ev("item_purchase", 100, 7, 2);
    wrong.fields[2].data = Some(PropValue::U32(7));
    assert_eq!(SellBackHelper::from_event(&wrong), None);
    let mut shadowed = ev("item_purchase", 100, 7, 2);
    shadowed.fields.insert(0, EventField { name: "tick".to_string(), data: None });
    assert_eq!(SellBackHelper::from_event(&shadowed), None);
}

#[test]
fn sold_when_sale_comes_before_next_purchase() {
    let mut events = vec![
        ev("item_purchase", 10, 1, 3),
        ev("round_start", 15, 0, 0),
        ev("item_sold", 20, 1, 3),
        ev("item_purchase", 30, 1, 3),
        ev("item_purchase", 12, 2, 3),
    ];
    add_item_purchase_sell_column(&mut events);
    assert_eq!(events.len(), 5);
    assert_eq!(was_sold(&events[0]), Some(true));
    assert_eq!(events[1].fields.len(), 4);
    assert_eq!(events[2].fields.len(), 4);
    // No later purchase in the slot: not counted as sold.
    assert_eq!(was_sold(&events[3]), Some(false));
    assert_eq!(was_sold(&events[4]), Some(false));
    assert_eq!(events[0].tick, 10);
}

#[test]
fn not_sold_when_next_purchase_comes_first() {
    let mut events = vec![
        ev("item_purchase", 10, 1, 3),
        ev("item_purchase", 20, 1, 3),
        ev("item_sold", 25, 1, 3),
        ev("item_purchase", 40, 1, 3),
        ev("item_sold", 50, 1, 4),
    ];
    add_item_purchase_sell_column(&mut events);
    assert_eq!(was_sold(&events[0]), Some(false));
    assert_eq!(was_sold(&events[1]), Some(true));
    assert_eq!(was_sold(&events[3]), Some(false));
}

#[test]
fn sales_are_removed() {
    let mut events = vec![
        ev("item_sold", 1, 1, 1),
        ev("item_purchase", 2, 1, 1),
        ev("item_sold", 3, 1, 1),
        ev("player_death", 4, 1, 1),
    ];
    remove_item_sold_events(&mut events);
    let names: Vec<&str> = events.iter().map(|e| e.name.as_str()).collect();
    assert_eq!(names, vec!["item_purchase", "player_death"]);
    assert_eq!(events[1].tick, 4);
}
