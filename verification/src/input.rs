//! Raw-input snapshots: what the bridge exposes of a player's input state.
//!
//! Two snapshots are retained per player, the current one and the one from
//! the previous tick; both are overwritten wholesale by the input-ingestion
//! system, never patched. Mouse coordinates and the wheel delta are carried
//! as the bit patterns of the ingested values, so a snapshot compares
//! bit-identically and never enters any arithmetic here.

use vstd::prelude::*;

verus! {

/// One mouse button, as reported by the input-ingestion system.
#[derive(Clone, Copy, PartialEq, Eq, Structural, Debug)]
pub enum MouseButton {
    Left,
    Right,
    Middle,
    /// Any further button, by its device-specific number.
    Other(u16),
}

/// A raw-input snapshot for one player: the keys and mouse buttons that are
/// currently down, the mouse position and the wheel delta.
#[derive(Clone, PartialEq, Eq, Debug)]
pub struct RawInput {
    /// Key codes currently held down.
    pub keys: Vec<u32>,
    /// Bit pattern of the mouse x coordinate.
    pub mouse_position_x: u32,
    /// Bit pattern of the mouse y coordinate.
    pub mouse_position_y: u32,
    /// Bit pattern of the accumulated mouse-wheel delta.
    pub mouse_wheel: u32,
    /// Mouse buttons currently held down.
    pub mouse_buttons: Vec<MouseButton>,
}

/// Mathematical model of a [`RawInput`] snapshot.
pub struct RawInputView {
    pub keys: Seq<u32>,
    pub mouse_position_x: u32,
    pub mouse_position_y: u32,
    pub mouse_wheel: u32,
    pub mouse_buttons: Seq<MouseButton>,
}

impl View for RawInput {
    type V = RawInputView;

    open spec fn view(&self) -> RawInputView {
        RawInputView {
            keys: self.keys@,
            mouse_position_x: self.mouse_position_x,
            mouse_position_y: self.mouse_position_y,
            mouse_wheel: self.mouse_wheel,
            mouse_buttons: self.mouse_buttons@,
        }
    }
}

impl DeepView for RawInput {
    type V = RawInputView;

    open spec fn deep_view(&self) -> RawInputView {
        self.view()
    }
}

impl RawInput {
    /// An empty snapshot: nothing held down, everything at zero.
    pub fn empty() -> (r: RawInput)
        ensures
            r@.keys.len() == 0,
            r@.mouse_position_x == 0,
            r@.mouse_position_y == 0,
            r@.mouse_wheel == 0,
            r@.mouse_buttons.len() == 0,
    {
        RawInput {
            keys: Vec::new(),
            mouse_position_x: 0,
            mouse_position_y: 0,
            mouse_wheel: 0,
            mouse_buttons: Vec::new(),
        }
    }

    /// A copy of the snapshot, equal to it in the model.
    pub fn duplicate(&self) -> (r: RawInput)
        ensures
            r@ == self@,
    {
        let mut keys: Vec<u32> = Vec::new();
        let mut i: usize = 0;
        while i < self.keys.len()
            invariant
                i <= self.keys.len(),
                keys@ == self.keys@.subrange(0, i as int),
            decreases self.keys.len() - i,
        {
            keys.push(self.keys[i]);
            i = i + 1;
        }
        let mut mouse_buttons: Vec<MouseButton> = Vec::new();
        let mut j: usize = 0;
        while j < self.mouse_buttons.len()
            invariant
                j <= self.mouse_buttons.len(),
                mouse_buttons@ == self.mouse_buttons@.subrange(0, j as int),
            decreases self.mouse_buttons.len() - j,
        {
            mouse_buttons.push(self.mouse_buttons[j]);
            j = j + 1;
        }
        proof {
            assert(keys@ =~= self.keys@);
            assert(mouse_buttons@ =~= self.mouse_buttons@);
        }
        RawInput {
            keys,
            mouse_position_x: self.mouse_position_x,
            mouse_position_y: self.mouse_position_y,
            mouse_wheel: self.mouse_wheel,
            mouse_buttons,
        }
    }
}

} // verus!
