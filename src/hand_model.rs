//! How held models are placed relative to a virtual hand: a read-only table
//! from model name to a per-hand yaw and mirroring.
use vstd::prelude::*;
use vstd::string::StringSliceAdditionalSpecFns;

verus! {

/// Placement of a model in one hand, relative to the base hand orientation: a
/// turn about the vertical axis (whole degrees, applied after any earlier one),
/// and mirroring of the x and z axes.
#[derive(Clone, Copy, Debug, PartialEq, Eq, Structural)]
pub struct VRHandModelPerHandAdjustments {
    pub yaw_degrees: i32,
    pub mirror_x: bool,
    pub mirror_z: bool,
}

/// No turn, no mirroring.
pub open spec fn identity_adjustment() -> VRHandModelPerHandAdjustments {
    VRHandModelPerHandAdjustments { yaw_degrees: 0, mirror_x: false, mirror_z: false }
}

impl VRHandModelPerHandAdjustments {
    /// No turn, no mirroring.
    pub fn new() -> (r: VRHandModelPerHandAdjustments)
        ensures
            r == identity_adjustment(),
    {
        VRHandModelPerHandAdjustments { yaw_degrees: 0, mirror_x: false, mirror_z: false }
    }

    /// Adds a turn by `angle` degrees about the vertical axis.
    pub fn rotate_y(self, angle: i32) -> (r: VRHandModelPerHandAdjustments)
        requires
            i32::MIN <= self.yaw_degrees + angle <= i32::MAX,
        ensures
            r == (VRHandModelPerHandAdjustments { yaw_degrees: (self.yaw_degrees + angle) as i32, ..self }),
    {
        VRHandModelPerHandAdjustments { yaw_degrees: self.yaw_degrees + angle, ..self }
    }

    /// Mirrors the x axis (once more).
    pub fn flip_x(self) -> (r: VRHandModelPerHandAdjustments)
        ensures
            r == (VRHandModelPerHandAdjustments { mirror_x: !self.mirror_x, ..self }),
    {
        VRHandModelPerHandAdjustments { mirror_x: !self.mirror_x, ..self }
    }

    /// Mirrors the z axis (once more).
    pub fn flip_z(self) -> (r: VRHandModelPerHandAdjustments)
        ensures
            r == (VRHandModelPerHandAdjustments { mirror_z: !self.mirror_z, ..self }),
    {
        VRHandModelPerHandAdjustments { mirror_z: !self.mirror_z, ..self }
    }
}

/// Placement of a model in each hand.
#[derive(Clone, Copy, Debug, PartialEq, Eq, Structural)]
pub struct VRHandModelAdjustments {
    pub left_hand: VRHandModelPerHandAdjustments,
    pub right_hand: VRHandModelPerHandAdjustments,
}

impl VRHandModelAdjustments {
    pub fn new(left_hand: VRHandModelPerHandAdjustments, right_hand: VRHandModelPerHandAdjustments) -> (r:
        VRHandModelAdjustments)
        ensures
            r.left_hand == left_hand,
            r.right_hand == right_hand,
    {
        VRHandModelAdjustments { left_hand, right_hand }
    }
}

/// How a listed model is held.
#[derive(Clone, Copy, Debug, PartialEq, Eq, Structural)]
pub enum HandModelKind {
    /// A weapon: turned a quarter to the right, mirrored in the left hand.
    HeldWeapon,
    /// An item: turned half round in either hand.
    HeldItem,
    /// Held as modelled.
    AsModelled,
}

/// The table: how each listed model is held.
pub open spec fn hand_model_kind_spec(name: Seq<u8>) -> Option<HandModelKind> {
    if name == "atek_h".spec_bytes() || name == "amph_h".spec_bytes() || name
        == "lasehand".spec_bytes() || name == "empgun".spec_bytes() || name == "sg_w".spec_bytes() {
        Some(HandModelKind::HeldWeapon)
    } else if name == "wrench_h".spec_bytes() {
        Some(HandModelKind::AsModelled)
    } else if name == "battery".spec_bytes() || name == "batteryb".spec_bytes() || name
        == "gameboy".spec_bytes() || name == "gamecart".spec_bytes() || name
        == "nanocan".spec_bytes() {
        Some(HandModelKind::HeldItem)
    } else {
        None
    }
}

/// The placement in each hand of a model of the given kind.
pub open spec fn adjustments_spec(kind: HandModelKind) -> VRHandModelAdjustments {
    match kind {
        HandModelKind::HeldWeapon => VRHandModelAdjustments {
            left_hand: VRHandModelPerHandAdjustments { yaw_degrees: 90, mirror_x: true, mirror_z: false },
            right_hand: VRHandModelPerHandAdjustments { yaw_degrees: 90, mirror_x: false, mirror_z: false },
        },
        HandModelKind::HeldItem => VRHandModelAdjustments {
            left_hand: VRHandModelPerHandAdjustments { yaw_degrees: 180, mirror_x: false, mirror_z: false },
            right_hand: VRHandModelPerHandAdjustments { yaw_degrees: 180, mirror_x: false, mirror_z: false },
        },
        HandModelKind::AsModelled => VRHandModelAdjustments {
            left_hand: identity_adjustment(),
            right_hand: identity_adjustment(),
        },
    }
}

fn same_bytes(a: &[u8], b: &[u8]) -> (r: bool)
    ensures
        r == (a@ == b@),
{
    if a.len() != b.len() {
        return false;
    }
    let mut i: usize = 0;
    while i < a.len()
        invariant
            i <= a@.len(),
            a@.len() == b@.len(),
            forall|k: int| 0 <= k < i ==> a@[k] == b@[k],
        decreases a@.len() - i,
    {
        if a[i] != b[i] {
            return false;
        }
        i = i + 1;
    }
    assert(a@ =~= b@);
    true
}

fn named(name: &str, entry: &str) -> (r: bool)
    ensures
        r == (name.spec_bytes() == entry.spec_bytes()),
{
    same_bytes(name.as_bytes(), entry.as_bytes())
}

/// How the model called `model_name` is held, if the table lists it.
pub fn hand_model_kind(model_name: &str) -> (r: Option<HandModelKind>)
    ensures
        r == hand_model_kind_spec(model_name.spec_bytes()),
{
    if named(model_name, "atek_h") || named(model_name, "amph_h") || named(model_name, "lasehand")
        || named(model_name, "empgun") || named(model_name, "sg_w") {
        Some(HandModelKind::HeldWeapon)
    } else if named(model_name, "wrench_h") {
        Some(HandModelKind::AsModelled)
    } else if named(model_name, "battery") || named(model_name, "batteryb") || named(
        model_name,
        "gameboy",
    ) || named(model_name, "gamecart") || named(model_name, "nanocan") {
        Some(HandModelKind::HeldItem)
    } else {
        None
    }
}

/// The placement in each hand of a model of the given kind.
pub fn adjustments_for(kind: HandModelKind) -> (r: VRHandModelAdjustments)
    ensures
        r == adjustments_spec(kind),
{
    match kind {
        HandModelKind::HeldWeapon => {
            let right = VRHandModelPerHandAdjustments::new().rotate_y(90);
            let left = right.flip_x();
            VRHandModelAdjustments::new(left, right)
        },
        HandModelKind::HeldItem => {
            let hand = VRHandModelPerHandAdjustments::new().rotate_y(180);
            VRHandModelAdjustments::new(hand, hand)
        },
        HandModelKind::AsModelled => VRHandModelAdjustments::new(
            VRHandModelPerHandAdjustments::new(),
            VRHandModelPerHandAdjustments::new(),
        ),
    }
}

/// Whether the table lists the model called `model_name`.
pub fn is_allowed_hand_model(model_name: &str) -> (r: bool)
    ensures
        r == hand_model_kind_spec(model_name.spec_bytes()) is Some,
{
    match hand_model_kind(model_name) {
        Some(_) => true,
        None => false,
    }
}

/// The placement of the model called `model_name` in the given hand; a model
/// the table does not list is held as modelled.
pub fn get_vr_hand_model_adjustments(model_name: &str, is_left_hand: bool) -> (r:
    VRHandModelPerHandAdjustments)
    ensures
        r == match hand_model_kind_spec(model_name.spec_bytes()) {
            Some(kind) => if is_left_hand {
                adjustments_spec(kind).left_hand
            } else {
                adjustments_spec(kind).right_hand
            },
            None => identity_adjustment(),
        },
{
    match hand_model_kind(model_name) {
        None => VRHandModelPerHandAdjustments::new(),
        Some(kind) => {
            let adjustments = adjustments_for(kind);
            if is_left_hand {
                adjustments.left_hand
            } else {
                adjustments.right_hand
            }
        },
    }
}

/// The script of a hand-held weapon; it holds no state.
#[derive(Clone, Copy, Debug, PartialEq, Eq, Structural)]
pub struct WeaponScript;

impl WeaponScript {
    pub fn new() -> (r: WeaponScript)
        ensures
            r == WeaponScript,
    {
        WeaponScript
    }
}

} // verus!
