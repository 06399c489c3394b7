use dark_model::tripwire::{
    SensorMessage, SwitchMessage, TrapNewTripwire, TripFlags, TripwireEffect, WorldFacts,
};

fn flags(enter: bool, exit: bool, once: bool, invert: bool, player: bool) -> TripFlags {
    TripFlags { enter, exit, once, invert, player }
}

fn facts(trip_flags: TripFlags, is_player: bool) -> WorldFacts {
    WorldFacts { trip_flags, is_player, linked_to_simple_door: false, just_teleported: false }
}

fn trap(f: TripFlags) -> TrapNewTripwire {
    let mut t = TrapNewTripwire::new();
    t.initialize(f);
    t
}

#[test]
fn first_entry_and_last_exit_switch() {
    let f = flags(true, true, false, false, false);
    let mut t = trap(f);
    assert_eq!(
        t.handle_message(SensorMessage::BeginIntersect { with: 1 }, facts(f, false)),
        TripwireEffect::SendToSwitchLinks(SwitchMessage::TurnOn)
    );
    assert_eq!(
        t.handle_message(SensorMessage::BeginIntersect { with: 2 }, facts(f, false)),
        TripwireEffect::NoEffect
    );
    assert!(t.contains(1) && t.contains(2));
    assert_eq!(
        t.handle_message(SensorMessage::EndIntersect { with: 1 }, facts(f, false)),
        TripwireEffect::NoEffect
    );
    assert_eq!(
        t.handle_message(SensorMessage::EndIntersect { with: 2 }, facts(f, false)),
        TripwireEffect::SendToSwitchLinks(SwitchMessage::TurnOff)
    );
    assert!(!t.contains(2));
}

#[test]
fn an_inverting_trap_sends_the_opposite() {
    let f = flags(true, true, false, true, false);
    let mut t = trap(f);
    assert_eq!(
        t.handle_message(SensorMessage::BeginIntersect { with: 5 }, facts(f, false)),
        TripwireEffect::SendToSwitchLinks(SwitchMessage::TurnOff)
    );
    assert_eq!(
        t.handle_message(SensorMessage::EndIntersect { with: 5 }, facts(f, false)),
        TripwireEffect::SendToSwitchLinks(SwitchMessage::TurnOn)
    );
}

#[test]
fn a_once_trap_trips_only_once() {
    let f = flags(true, false, true, false, false);
    let mut t = trap(f);
    assert!(t.should_activate(f, false, false));
    assert_eq!(
        t.handle_message(SensorMessage::BeginIntersect { with: 1 }, facts(f, false)),
        TripwireEffect::SendToSwitchLinks(SwitchMessage::TurnOn)
    );
    assert!(!t.should_activate(f, true, true));
    t.handle_message(SensorMessage::EndIntersect { with: 1 }, facts(f, false));
    assert_eq!(
        t.handle_message(SensorMessage::BeginIntersect { with: 1 }, facts(f, false)),
        TripwireEffect::NoEffect
    );
    assert!(!t.contains(1));
}

#[test]
fn a_player_trap_lets_others_open_doors() {
    let f = flags(true, false, false, false, true);
    let t = trap(f);
    assert!(t.should_activate(f, true, false));
    assert!(!t.should_activate(f, false, false));
    assert!(t.should_activate(f, false, true));
    let once = flags(true, false, true, false, true);
    assert!(!t.should_activate(once, false, true));
}

#[test]
fn teleporting_entities_do_not_switch() {
    let f = flags(true, true, false, false, false);
    let mut t = trap(f);
    let teleported = WorldFacts { just_teleported: true, ..facts(f, false) };
    assert_eq!(
        t.handle_message(SensorMessage::BeginIntersect { with: 3 }, teleported),
        TripwireEffect::NoEffect
    );
    assert!(t.contains(3));
    // it is still remembered as teleported when it leaves
    assert_eq!(
        t.handle_message(SensorMessage::EndIntersect { with: 3 }, facts(f, false)),
        TripwireEffect::NoEffect
    );
    assert_eq!(
        t.handle_message(SensorMessage::BeginIntersect { with: 3 }, facts(f, false)),
        TripwireEffect::SendToSwitchLinks(SwitchMessage::TurnOn)
    );
    assert_eq!(t.handle_message(SensorMessage::Other, facts(f, false)), TripwireEffect::NoEffect);
}
