//! The compile-time keymap: per-layer tables mapping each matrix cell to an
//! action, plus the closed enumeration of custom non-HID actions.

use vstd::prelude::*;

verus! {

use crate::NUM_KEYS;

/// No key: a functional entry that contributes nothing to reports.
pub const KC_NO: u8 = 0;

pub const KC_A: u8 = 4;
pub const KC_B: u8 = 5;
pub const KC_C: u8 = 6;
pub const KC_D: u8 = 7;
pub const KC_E: u8 = 8;
pub const KC_F: u8 = 9;
pub const KC_G: u8 = 10;
pub const KC_H: u8 = 11;
pub const KC_I: u8 = 12;
pub const KC_J: u8 = 13;
pub const KC_K: u8 = 14;
pub const KC_L: u8 = 15;
pub const KC_M: u8 = 16;
pub const KC_N: u8 = 17;
pub const KC_O: u8 = 18;
pub const KC_P: u8 = 19;
pub const KC_Q: u8 = 20;
pub const KC_R: u8 = 21;
pub const KC_S: u8 = 22;
pub const KC_T: u8 = 23;
pub const KC_U: u8 = 24;
pub const KC_V: u8 = 25;
pub const KC_W: u8 = 26;
pub const KC_X: u8 = 27;
pub const KC_Y: u8 = 28;
pub const KC_Z: u8 = 29;
pub const KC_SPACE: u8 = 44;
pub const KC_SEMICOLON: u8 = 51;
pub const KC_COMMA: u8 = 54;
pub const KC_DOT: u8 = 55;
pub const KC_SLASH: u8 = 56;
pub const KC_LCTRL: u8 = 224;
pub const KC_LSHIFT: u8 = 225;
pub const KC_LALT: u8 = 226;
pub const KC_LGUI: u8 = 227;
pub const KC_RCTRL: u8 = 228;
pub const KC_RSHIFT: u8 = 229;
pub const KC_RALT: u8 = 230;
pub const KC_RGUI: u8 = 231;

/// Non-HID side effects a key can trigger. Executing one is terminal for the
/// current run of the program.
#[derive(Clone, Copy, Debug, PartialEq, Eq, Structural)]
pub enum CustomActions {
    /// Reboot into USB firmware-update mode.
    Bootloader,
}

/// What a keymap cell does.
#[derive(Clone, Copy, Debug, PartialEq, Eq, Structural)]
pub enum Action {
    /// Transparent: defer to the next active layer below.
    Trans,
    /// A standard HID key code (`KC_NO` for a functional no-op).
    Key(u8),
    /// Activate the given layer while this key is held.
    LayerShift(usize),
    /// Trigger a custom action.
    Custom(CustomActions),
}

/// The mathematical view of a stack of layer tables: every layer covers the
/// matrix, and every layer-shift target exists.
pub open spec fn layers_wf(layers: Seq<Seq<Action>>) -> bool {
    &&& layers.len() >= 1
    &&& forall|l: int| 0 <= l < layers.len() ==> (#[trigger] layers[l]).len() == NUM_KEYS
    &&& forall|l: int, k: int|
        0 <= l < layers.len() && 0 <= k < NUM_KEYS ==> ((#[trigger] layers[l][k]) matches
            Action::LayerShift(t) ==> t < layers.len())
}

/// The action of the default QWERTY layer at flat cell `idx`, row-major:
/// a letter row, a home row ending in the semicolon, a bottom letter row with
/// the punctuation keys, and a modifier row around the space bar.
pub open spec fn qwerty_action(idx: int) -> Action {
    if idx == 0 {
        Action::Key(KC_Q)
    } else if idx == 1 {
        Action::Key(KC_W)
    } else if idx == 2 {
        Action::Key(KC_E)
    } else if idx == 3 {
        Action::Key(KC_R)
    } else if idx == 4 {
        Action::Key(KC_T)
    } else if idx == 5 {
        Action::Key(KC_Y)
    } else if idx == 6 {
        Action::Key(KC_U)
    } else if idx == 7 {
        Action::Key(KC_I)
    } else if idx == 8 {
        Action::Key(KC_O)
    } else if idx == 9 {
        Action::Key(KC_P)
    } else if idx == 10 {
        Action::Key(KC_A)
    } else if idx == 11 {
        Action::Key(KC_S)
    } else if idx == 12 {
        Action::Key(KC_D)
    } else if idx == 13 {
        Action::Key(KC_F)
    } else if idx == 14 {
        Action::Key(KC_G)
    } else if idx == 15 {
        Action::Key(KC_H)
    } else if idx == 16 {
        Action::Key(KC_J)
    } else if idx == 17 {
        Action::Key(KC_K)
    } else if idx == 18 {
        Action::Key(KC_L)
    } else if idx == 19 {
        Action::Key(KC_SEMICOLON)
    } else if idx == 20 {
        Action::Key(KC_Z)
    } else if idx == 21 {
        Action::Key(KC_X)
    } else if idx == 22 {
        Action::Key(KC_C)
    } else if idx == 23 {
        Action::Key(KC_V)
    } else if idx == 24 {
        Action::Key(KC_B)
    } else if idx == 25 {
        Action::Key(KC_N)
    } else if idx == 26 {
        Action::Key(KC_M)
    } else if idx == 27 {
        Action::Key(KC_COMMA)
    } else if idx == 28 {
        Action::Key(KC_DOT)
    } else if idx == 29 {
        Action::Key(KC_SLASH)
    } else if idx == 30 {
        Action::Key(KC_LGUI)
    } else if idx == 31 {
        Action::Key(KC_LALT)
    } else if idx == 32 {
        Action::Trans
    } else if idx == 33 {
        Action::Trans
    } else if idx == 34 {
        Action::Key(KC_SPACE)
    } else if idx == 35 {
        Action::Trans
    } else if idx == 36 {
        Action::Trans
    } else if idx == 37 {
        Action::Key(KC_RALT)
    } else if idx == 38 {
        Action::Key(KC_RCTRL)
    } else {
        Action::Key(KC_NO)
    }
}

/// The sequence-of-sequences view of layer tables held in vectors.
pub open spec fn layers_view(layers: Seq<Vec<Action>>) -> Seq<Seq<Action>> {
    Seq::new(layers.len(), |i: int| layers[i]@)
}

/// A layered keymap: `layers[0]` is the base layer; higher layers shadow it
/// while a corresponding layer-shift key is held.
pub struct Keymap {
    layers: Vec<Vec<Action>>,
}

impl View for Keymap {
    type V = Seq<Seq<Action>>;

    closed spec fn view(&self) -> Seq<Seq<Action>> {
        layers_view(self.layers@)
    }
}

impl Keymap {
    /// The layer tables are well-formed.
    pub open spec fn wf(&self) -> bool {
        layers_wf(self@)
    }

    /// Builds a keymap after checking that every layer covers the matrix and
    /// every layer-shift target exists; rejects ill-formed tables.
    pub fn new(layers: Vec<Vec<Action>>) -> (r: Option<Keymap>)
        ensures
            r is Some <==> layers_wf(layers_view(layers@)),
            r matches Some(km) ==> km@ == layers_view(layers@) && km.wf(),
    {
        let n = layers.len();
        if n == 0 {
            return None;
        }
        let mut l: usize = 0;
        while l < n
            invariant
                n == layers@.len(),
                n >= 1,
                l <= n,
                forall|i: int| 0 <= i < l ==> (#[trigger] layers@[i])@.len() == NUM_KEYS,
                forall|i: int, k: int|
                    0 <= i < l && 0 <= k < NUM_KEYS ==> ((#[trigger] layers@[i]@[k]) matches
                        Action::LayerShift(t) ==> t < n),
            decreases n - l,
        {
            if layers[l].len() != NUM_KEYS {
                proof {
                    assert(layers_view(layers@)[l as int].len() != NUM_KEYS);
                }
                return None;
            }
            let mut k: usize = 0;
            while k < NUM_KEYS
                invariant
                    n == layers@.len(),
                    l < n,
                    k <= NUM_KEYS,
                    layers@[l as int]@.len() == NUM_KEYS,
                    forall|j: int|
                        0 <= j < k ==> ((#[trigger] layers@[l as int]@[j]) matches
                            Action::LayerShift(t) ==> t < n),
                decreases NUM_KEYS - k,
            {
                match layers[l][k] {
                    Action::LayerShift(t) => {
                        if t >= n {
                            proof {
                                assert(layers_view(layers@)[l as int][k as int] matches
                                    Action::LayerShift(u) && u >= n);
                            }
                            return None;
                        }
                    },
                    _ => {},
                }
                k = k + 1;
            }
            l = l + 1;
        }
        proof {
            assert forall|i: int| 0 <= i < n implies (#[trigger] layers_view(layers@)[i]).len()
                == NUM_KEYS by {
                assert(layers@[i]@.len() == NUM_KEYS);
            }
            assert forall|i: int, k: int|
                0 <= i < n && 0 <= k < NUM_KEYS implies ((#[trigger] layers_view(
                layers@,
            )[i][k]) matches Action::LayerShift(t) ==> t < n) by {
                assert(layers@[i]@[k] matches Action::LayerShift(t) ==> t < n);
            }
        }
        Some(Keymap { layers })
    }

    /// The default single-layer QWERTY keymap. Transparent entries are
    /// placeholders that even out the grid; the functional no-op key fills
    /// the last cell.
    pub fn qwerty() -> (r: Keymap)
        ensures
            r.wf(),
            r@.len() == 1,
            r@[0].len() == NUM_KEYS,
            forall|k: int| 0 <= k < NUM_KEYS ==> r@[0][k] == qwerty_action(k),
    {
        let mut row: Vec<Action> = Vec::new();
        row.push(Action::Key(KC_Q));
        row.push(Action::Key(KC_W));
        row.push(Action::Key(KC_E));
        row.push(Action::Key(KC_R));
        row.push(Action::Key(KC_T));
        row.push(Action::Key(KC_Y));
        row.push(Action::Key(KC_U));
        row.push(Action::Key(KC_I));
        row.push(Action::Key(KC_O));
        row.push(Action::Key(KC_P));
        row.push(Action::Key(KC_A));
        row.push(Action::Key(KC_S));
        row.push(Action::Key(KC_D));
        row.push(Action::Key(KC_F));
        row.push(Action::Key(KC_G));
        row.push(Action::Key(KC_H));
        row.push(Action::Key(KC_J));
        row.push(Action::Key(KC_K));
        row.push(Action::Key(KC_L));
        row.push(Action::Key(KC_SEMICOLON));
        row.push(Action::Key(KC_Z));
        row.push(Action::Key(KC_X));
        row.push(Action::Key(KC_C));
        row.push(Action::Key(KC_V));
        row.push(Action::Key(KC_B));
        row.push(Action::Key(KC_N));
        row.push(Action::Key(KC_M));
        row.push(Action::Key(KC_COMMA));
        row.push(Action::Key(KC_DOT));
        row.push(Action::Key(KC_SLASH));
        row.push(Action::Key(KC_LGUI));
        row.push(Action::Key(KC_LALT));
        row.push(Action::Trans);
        row.push(Action::Trans);
        row.push(Action::Key(KC_SPACE));
        row.push(Action::Trans);
        row.push(Action::Trans);
        row.push(Action::Key(KC_RALT));
        row.push(Action::Key(KC_RCTRL));
        row.push(Action::Key(KC_NO));
        proof {
            assert(row@ =~= Seq::new(NUM_KEYS as nat, |k: int| qwerty_action(k)));
        }
        let mut layers: Vec<Vec<Action>> = Vec::new();
        layers.push(row);
        let r = Keymap { layers };
        proof {
            assert(r@.len() == 1);
            assert(r@[0] == Seq::new(NUM_KEYS as nat, |k: int| qwerty_action(k)));
            assert forall|k: int| 0 <= k < NUM_KEYS implies ((#[trigger] r@[0][k]) matches
                Action::LayerShift(t) ==> (t as int) < 1) by {
                assert(r@[0][k] == qwerty_action(k));
            }
        }
        r
    }

    /// The number of layers.
    pub fn layer_count(&self) -> (r: usize)
        ensures
            r == self@.len(),
    {
        self.layers.len()
    }

    /// The action the given layer assigns to the given cell.
    pub fn action_at(&self, layer: usize, idx: usize) -> (r: Action)
        requires
            self.wf(),
            layer < self@.len(),
            idx < NUM_KEYS,
        ensures
            r == self@[layer as int][idx as int],
    {
        self.layers[layer][idx]
    }
}

} // verus!
