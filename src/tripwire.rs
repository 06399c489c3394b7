//! The decisions of a tripwire trap: which entities are inside it, and when
//! entering or leaving it switches its linked objects. The world's answers
//! (is the entity the player, did it just teleport, ...) come in as values.
use vstd::prelude::*;
use std::collections::HashSet;

verus! {

broadcast use vstd::std_specs::hash::group_hash_axioms;

/// The trip flags that the trap reads.
#[derive(Clone, Copy, Debug, PartialEq, Eq, Structural)]
pub struct TripFlags {
    /// Switch on when the first entity enters.
    pub enter: bool,
    /// Switch off when the last entity leaves.
    pub exit: bool,
    /// Trip at most once.
    pub once: bool,
    /// Send the opposite switch message.
    pub invert: bool,
    /// Only the player trips it (but see `should_activate`).
    pub player: bool,
}

/// A message to the objects linked to the trap.
#[derive(Clone, Copy, Debug, PartialEq, Eq, Structural)]
pub enum SwitchMessage {
    TurnOn,
    TurnOff,
}

/// What the trap asks for in answer to a message.
#[derive(Clone, Copy, Debug, PartialEq, Eq, Structural)]
pub enum TripwireEffect {
    NoEffect,
    SendToSwitchLinks(SwitchMessage),
}

/// A message to the trap.
#[derive(Clone, Copy, Debug, PartialEq, Eq, Structural)]
pub enum SensorMessage {
    BeginIntersect { with: u64 },
    EndIntersect { with: u64 },
    Other,
}

/// What the world says about the trap and the entity of a message.
#[derive(Clone, Copy, Debug, PartialEq, Eq, Structural)]
pub struct WorldFacts {
    /// The trip flags the trap's property holds now.
    pub trip_flags: TripFlags,
    /// The entity of the message is the player.
    pub is_player: bool,
    /// One of the trap's switch links is a translating door.
    pub linked_to_simple_door: bool,
    /// The entity of the message has just teleported.
    pub just_teleported: bool,
}

/// A tripwire trap.
pub struct TrapNewTripwire {
    has_activated: bool,
    entity_in_trap: HashSet<u64>,
    teleported_entities_to_ignore: HashSet<u64>,
    trip_flags: TripFlags,
}

/// What a trap holds, as values.
pub struct TrapState {
    pub has_activated: bool,
    pub in_trap: Set<u64>,
    pub ignored: Set<u64>,
    pub trip_flags: TripFlags,
}

impl View for TrapNewTripwire {
    type V = TrapState;

    closed spec fn view(&self) -> TrapState {
        TrapState {
            has_activated: self.has_activated,
            in_trap: self.entity_in_trap@,
            ignored: self.teleported_entities_to_ignore@,
            trip_flags: self.trip_flags,
        }
    }
}

/// The message, reversed where the trap inverts.
pub open spec fn inverted(flags: TripFlags, m: SwitchMessage) -> SwitchMessage {
    if !flags.invert {
        m
    } else {
        match m {
            SwitchMessage::TurnOn => SwitchMessage::TurnOff,
            SwitchMessage::TurnOff => SwitchMessage::TurnOn,
        }
    }
}

/// Whether an entity trips the trap. A trap that trips once stays quiet after
/// that; a player-only trap also lets others trip it when it opens a door,
/// unless it trips once.
pub open spec fn should_activate_spec(t: TrapState, flags: TripFlags, is_player: bool, linked_to_simple_door: bool) -> bool {
    if flags.once && t.has_activated {
        false
    } else if flags.player {
        is_player || (linked_to_simple_door && !flags.once)
    } else {
        true
    }
}

/// The trap's answer to a message, and its state afterwards.
pub open spec fn handle_message_spec(t: TrapState, msg: SensorMessage, facts: WorldFacts) -> (TrapState, TripwireEffect) {
    match msg {
        SensorMessage::BeginIntersect { with } => if should_activate_spec(t, facts.trip_flags, facts.is_player, facts.linked_to_simple_door) {
            let after = TrapState {
                has_activated: true,
                in_trap: t.in_trap.insert(with),
                ignored: if facts.just_teleported {
                    t.ignored.insert(with)
                } else {
                    t.ignored
                },
                ..t
            };
            let effect = if t.in_trap.is_empty() && t.trip_flags.enter && !facts.just_teleported {
                TripwireEffect::SendToSwitchLinks(inverted(t.trip_flags, SwitchMessage::TurnOn))
            } else {
                TripwireEffect::NoEffect
            };
            (after, effect)
        } else {
            (t, TripwireEffect::NoEffect)
        },
        SensorMessage::EndIntersect { with } => {
            let did_teleport = facts.just_teleported || t.ignored.contains(with);
            let after = TrapState {
                in_trap: t.in_trap.remove(with),
                ignored: t.ignored.remove(with),
                ..t
            };
            let effect = if !did_teleport && after.in_trap.is_empty() && !t.in_trap.is_empty()
                && t.trip_flags.exit {
                TripwireEffect::SendToSwitchLinks(inverted(t.trip_flags, SwitchMessage::TurnOff))
            } else {
                TripwireEffect::NoEffect
            };
            (after, effect)
        },
        SensorMessage::Other => (t, TripwireEffect::NoEffect),
    }
}

impl TrapNewTripwire {
    /// A trap that has not tripped, with nobody inside, and no flags until
    /// `initialize` sets them.
    pub fn new() -> (r: TrapNewTripwire)
        ensures
            !r@.has_activated,
            r@.in_trap == Set::<u64>::empty(),
            r@.ignored == Set::<u64>::empty(),
            r@.trip_flags == (TripFlags { enter: false, exit: false, once: false, invert: false, player: false }),
    {
        TrapNewTripwire {
            trip_flags: TripFlags { enter: false, exit: false, once: false, invert: false, player: false },
            has_activated: false,
            entity_in_trap: HashSet::new(),
            teleported_entities_to_ignore: HashSet::new(),
        }
    }

    /// Takes the trip flags of the trap's property.
    pub fn initialize(&mut self, trip_flags: TripFlags)
        ensures
            final(self)@ == (TrapState { trip_flags, ..old(self)@ }),
    {
        self.trip_flags = trip_flags;
    }

    fn handle_invert(&self, msg: SwitchMessage) -> (r: SwitchMessage)
        ensures
            r == inverted(self@.trip_flags, msg),
    {
        if self.trip_flags.invert {
            match msg {
                SwitchMessage::TurnOn => SwitchMessage::TurnOff,
                SwitchMessage::TurnOff => SwitchMessage::TurnOn,
            }
        } else {
            msg
        }
    }

    /// Whether an entity trips the trap.
    pub fn should_activate(&self, trip_flags: TripFlags, is_player: bool, linked_to_simple_door: bool) -> (r: bool)
        ensures
            r == should_activate_spec(self@, trip_flags, is_player, linked_to_simple_door),
    {
        let is_once = trip_flags.once;
        if is_once && self.has_activated {
            false
        } else if trip_flags.player {
            is_player || (linked_to_simple_door && !is_once)
        } else {
            true
        }
    }

    /// Answers a sensor message.
    pub fn handle_message(&mut self, msg: SensorMessage, facts: WorldFacts) -> (r: TripwireEffect)
        ensures
            final(self)@ == handle_message_spec(old(self)@, msg, facts).0,
            r == handle_message_spec(old(self)@, msg, facts).1,
    {
        match msg {
            SensorMessage::BeginIntersect { with } => {
                if self.should_activate(facts.trip_flags, facts.is_player, facts.linked_to_simple_door) {
                    self.has_activated = true;
                    let was_empty = self.entity_in_trap.is_empty();
                    self.entity_in_trap.insert(with);
                    if facts.just_teleported {
                        self.teleported_entities_to_ignore.insert(with);
                    }
                    if was_empty && self.trip_flags.enter && !facts.just_teleported {
                        TripwireEffect::SendToSwitchLinks(self.handle_invert(SwitchMessage::TurnOn))
                    } else {
                        TripwireEffect::NoEffect
                    }
                } else {
                    TripwireEffect::NoEffect
                }
            },
            SensorMessage::EndIntersect { with } => {
                let had_keys_before = !self.entity_in_trap.is_empty();
                let did_teleport = facts.just_teleported || self.teleported_entities_to_ignore.contains(&with);
                self.teleported_entities_to_ignore.remove(&with);
                self.entity_in_trap.remove(&with);
                let has_keys_now = !self.entity_in_trap.is_empty();
                if !did_teleport && !has_keys_now && had_keys_before && self.trip_flags.exit {
                    TripwireEffect::SendToSwitchLinks(self.handle_invert(SwitchMessage::TurnOff))
                } else {
                    TripwireEffect::NoEffect
                }
            },
            SensorMessage::Other => TripwireEffect::NoEffect,
        }
    }

    /// Whether `entity` is inside the trap.
    pub fn contains(&self, entity: u64) -> (r: bool)
        ensures
            r == self@.in_trap.contains(entity),
    {
        self.entity_in_trap.contains(&entity)
    }
}

} // verus!
