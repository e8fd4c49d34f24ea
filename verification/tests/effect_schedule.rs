use lib::effect_schedule::{next_startable, start_ready, EffectLanes, EffectRoute};

fn queue() -> Vec<(EffectRoute, &'static str)> {
    vec![
        (EffectRoute::Telegram, "send"),
        (EffectRoute::Telegram, "load"),
        (EffectRoute::LocalOrdered, "save draft"),
        (EffectRoute::LocalIndependent, "notify"),
        (EffectRoute::LocalOrdered, "save selection"),
    ]
}

#[test]
fn one_effect_per_lane_starts_in_queue_order() {
    let mut pending = queue();
    let mut lanes = EffectLanes { telegram_active: false, storage_active: false };
    let started = start_ready(&mut pending, &mut lanes, 8);
    let names: Vec<&str> = started.iter().map(|e| e.1).collect();
    assert_eq!(names, vec!["send", "save draft", "notify"]);
    let waiting: Vec<&str> = pending.iter().map(|e| e.1).collect();
    assert_eq!(waiting, vec!["load", "save selection"]);
    assert!(lanes.telegram_active && lanes.storage_active);
}

#[test]
fn taken_lanes_and_full_slots_hold_effects_back() {
    let mut pending = queue();
    let mut lanes = EffectLanes { telegram_active: true, storage_active: false };
    let started = start_ready(&mut pending, &mut lanes, 1);
    assert_eq!(started.len(), 1);
    assert_eq!(started[0].1, "save draft");
    assert_eq!(pending.len(), 4);
    assert_eq!(next_startable(&pending, &lanes), Some(2));
    lanes.release(EffectRoute::Telegram);
    assert_eq!(next_startable(&pending, &lanes), Some(0));
    let none = start_ready(&mut pending, &mut lanes, 0);
    assert!(none.is_empty());
}

#[test]
fn released_lane_admits_the_next_effect() {
    let mut lanes = EffectLanes { telegram_active: false, storage_active: false };
    lanes.occupy(EffectRoute::LocalOrdered);
    assert!(lanes.storage_active && !lanes.telegram_active);
    lanes.occupy(EffectRoute::LocalIndependent);
    assert!(lanes.storage_active && !lanes.telegram_active);
    lanes.release(EffectRoute::LocalOrdered);
    assert!(!lanes.storage_active);
}
