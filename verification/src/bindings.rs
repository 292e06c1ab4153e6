//! Key and button bindings: which modifier keys and which key or button trigger an action.
//!
//! The action type is a parameter: the bindings only store and hand out actions.
use vstd::prelude::*;

verus! {

/// Mask bit of the Shift key in the state of a key or button event.
pub const SHIFT_MASK: u32 = 1;

/// Mask bit of the Lock key.
pub const LOCK_MASK: u32 = 2;

/// Mask bit of the Control key.
pub const CONTROL_MASK: u32 = 4;

/// Mask bit of modifier 1 (usually Alt).
pub const MOD1_MASK: u32 = 8;

/// Mask bit of modifier 2 (usually Num Lock).
pub const MOD2_MASK: u32 = 16;

/// Mask bit of modifier 3.
pub const MOD3_MASK: u32 = 32;

/// Mask bit of modifier 4 (usually the Super key).
pub const MOD4_MASK: u32 = 64;

/// Mask bit of modifier 5.
pub const MOD5_MASK: u32 = 128;

/// A modifier key that a binding can ask for.
#[derive(Clone, Copy, Debug, PartialEq, Eq, Structural)]
pub enum Modifier {
    Mod1,
    Mod4,
    Shift,
    Control,
}

/// Where a button was pressed.
#[derive(Clone, Copy, Debug, PartialEq, Eq, Structural)]
pub enum ButtonTarget {
    Window,
    Root,
    Frame,
}

impl Modifier {
    /// The mask bit of the modifier.
    pub open spec fn spec_mask(self) -> u32 {
        match self {
            Modifier::Mod1 => MOD1_MASK,
            Modifier::Mod4 => MOD4_MASK,
            Modifier::Shift => SHIFT_MASK,
            Modifier::Control => CONTROL_MASK,
        }
    }

    /// The mask bit of the modifier.
    pub fn mask(&self) -> (m: u32)
        ensures
            m == self.spec_mask(),
    {
        match self {
            Modifier::Mod1 => MOD1_MASK,
            Modifier::Mod4 => MOD4_MASK,
            Modifier::Shift => SHIFT_MASK,
            Modifier::Control => CONTROL_MASK,
        }
    }
}

/// The mask of a list of modifiers: their bits or-ed together.
pub open spec fn modifiers_mask(mods: Seq<Modifier>) -> u32
    decreases mods.len(),
{
    if mods.len() == 0 {
        0
    } else {
        modifiers_mask(mods.drop_last()) | mods.last().spec_mask()
    }
}

/// The mask of a list of modifiers.
pub fn fold_modifiers(mods: &Vec<Modifier>) -> (m: u32)
    ensures
        m == modifiers_mask(mods@),
{
    let mut m: u32 = 0;
    let mut i: usize = 0;
    while i < mods.len()
        invariant
            i <= mods@.len(),
            m == modifiers_mask(mods@.take(i as int)),
        decreases mods@.len() - i,
    {
        assert(mods@.take(i + 1).drop_last() =~= mods@.take(i as int));
        m = m | mods[i].mask();
        i += 1;
    }
    assert(mods@.take(mods@.len() as int) =~= mods@);
    m
}

/// Keep only the modifier bits of the state of a key or button event (Shift, Control and
/// modifiers 1 to 5); Lock and the pointer button bits are dropped.
pub fn sanitize_modifiers(modifiers: u32) -> (m: u32)
    ensures
        m == modifiers & (SHIFT_MASK | CONTROL_MASK | MOD1_MASK | MOD2_MASK | MOD3_MASK | MOD4_MASK
            | MOD5_MASK),
        m == modifiers & 0xfd,
{
    let m = modifiers & (SHIFT_MASK | CONTROL_MASK | MOD1_MASK | MOD2_MASK | MOD3_MASK | MOD4_MASK
        | MOD5_MASK);
    assert(SHIFT_MASK | CONTROL_MASK | MOD1_MASK | MOD2_MASK | MOD3_MASK | MOD4_MASK | MOD5_MASK
        == 0xfd) by (bit_vector);
    m
}

/// A key binding: modifiers, the name of the key, the key symbol that name stands for, and the
/// action.
pub struct KeyBinding<A> {
    modifiers: Vec<Modifier>,
    key: String,
    keysym: u32,
    action: A,
}

impl<A: Clone> KeyBinding<A> {
    /// The modifiers of the binding.
    pub closed spec fn spec_modifiers(&self) -> Seq<Modifier> {
        self.modifiers@
    }

    /// The name of the key.
    pub closed spec fn spec_key_name(&self) -> Seq<char> {
        self.key@
    }

    /// The key symbol of the key.
    pub closed spec fn spec_keysym(&self) -> u32 {
        self.keysym
    }

    /// The action of the binding.
    pub closed spec fn spec_action(&self) -> A {
        self.action
    }

    /// The binding applies to a press of `key` with the modifiers `modifiers`.
    pub open spec fn spec_matches(&self, modifiers: u32, key: u32) -> bool {
        modifiers == modifiers_mask(self.spec_modifiers()) && key == self.spec_keysym()
    }

    /// A binding of `key` (whose key symbol is `keysym`) with the modifiers to the action.
    pub fn new(modifiers: Vec<Modifier>, key: &str, keysym: u32, action: A) -> (b: Self)
        ensures
            b.spec_modifiers() == modifiers@,
            b.spec_key_name() == key@,
            b.spec_keysym() == keysym,
            b.spec_action() == action,
    {
        KeyBinding { modifiers, key: key.to_string(), keysym, action }
    }

    /// A copy of the action.
    pub fn action(&self) -> (a: A)
        ensures
            cloned(self.spec_action(), a),
    {
        self.action.clone()
    }

    /// Whether a key press with the modifier mask and key symbol triggers this binding.
    pub fn matches(&self, modifiers: u32, key: u32) -> (b: bool)
        ensures
            b == (modifiers == modifiers_mask(self.spec_modifiers()) && key == self.spec_keysym()),
    {
        modifiers == self.modifiers() && key == self.key()
    }

    /// The modifier mask of the binding.
    pub fn modifiers(&self) -> (m: u32)
        ensures
            m == modifiers_mask(self.spec_modifiers()),
    {
        fold_modifiers(&self.modifiers)
    }

    /// The key symbol of the binding.
    pub fn key(&self) -> (k: u32)
        ensures
            k == self.spec_keysym(),
    {
        self.keysym
    }

    /// The name of the key.
    pub fn key_name(&self) -> (n: &str)
        ensures
            n@ == self.spec_key_name(),
    {
        self.key.as_str()
    }
}

/// A button binding: modifiers, the button, where the button may be pressed, and the action.
pub struct ButtonBinding<A> {
    modifiers: Vec<Modifier>,
    button: u32,
    targets: Vec<ButtonTarget>,
    action: A,
}

impl<A: Clone> ButtonBinding<A> {
    /// The modifiers of the binding.
    pub closed spec fn spec_modifiers(&self) -> Seq<Modifier> {
        self.modifiers@
    }

    /// The button of the binding.
    pub closed spec fn spec_button(&self) -> u32 {
        self.button
    }

    /// Where the button may be pressed.
    pub closed spec fn spec_targets(&self) -> Seq<ButtonTarget> {
        self.targets@
    }

    /// The action of the binding.
    pub closed spec fn spec_action(&self) -> A {
        self.action
    }

    /// The binding applies to a press of `button` on `target` with the modifiers `modifiers`.
    pub open spec fn spec_matches(&self, modifiers: u32, button: u32, target: ButtonTarget) -> bool {
        modifiers == modifiers_mask(self.spec_modifiers()) && button == self.spec_button()
            && self.spec_targets().contains(target)
    }

    /// A binding of the button with the modifiers on the targets to the action.
    pub fn new(modifiers: Vec<Modifier>, button: u32, targets: Vec<ButtonTarget>, action: A) -> (b:
        Self)
        ensures
            b.spec_modifiers() == modifiers@,
            b.spec_button() == button,
            b.spec_targets() == targets@,
            b.spec_action() == action,
    {
        ButtonBinding { modifiers, button, targets, action }
    }

    /// A copy of the action.
    pub fn action(&self) -> (a: A)
        ensures
            cloned(self.spec_action(), a),
    {
        self.action.clone()
    }

    pub fn button(&self) -> (b: u32)
        ensures
            b == self.spec_button(),
    {
        self.button
    }

    /// Whether a press of `button` with the modifier mask on `target` triggers this binding.
    pub fn matches(&self, modifiers: u32, button: u32, target: ButtonTarget) -> (b: bool)
        ensures
            b == (modifiers == modifiers_mask(self.spec_modifiers()) && button == self.spec_button()
                && self.spec_targets().contains(target)),
    {
        if modifiers != self.modifiers() || button != self.button {
            return false;
        }
        let mut i: usize = 0;
        while i < self.targets.len()
            invariant
                i <= self.targets@.len(),
                modifiers == modifiers_mask(self.spec_modifiers()),
                button == self.spec_button(),
                forall|k: int| 0 <= k < i ==> self.targets@[k] != target,
            decreases self.targets@.len() - i,
        {
            if self.targets[i] == target {
                assert(self.targets@[i as int] == target);
                return true;
            }
            i += 1;
        }
        false
    }

    /// The modifier mask of the binding.
    pub fn modifiers(&self) -> (m: u32)
        ensures
            m == modifiers_mask(self.spec_modifiers()),
    {
        fold_modifiers(&self.modifiers)
    }

    /// Where the button may be pressed.
    pub fn targets(&self) -> (t: &Vec<ButtonTarget>)
        ensures
            t@ == self.spec_targets(),
    {
        &self.targets
    }
}

/// The actions of the key bindings that apply to a press of `key` with `modifiers`, in order.
pub open spec fn key_actions<A: Clone>(bindings: Seq<KeyBinding<A>>, modifiers: u32, key: u32) -> Seq<A>
    decreases bindings.len(),
{
    if bindings.len() == 0 {
        Seq::empty()
    } else {
        let before = key_actions(bindings.drop_last(), modifiers, key);
        if bindings.last().spec_matches(modifiers, key) {
            before.push(bindings.last().spec_action())
        } else {
            before
        }
    }
}

/// The actions of the button bindings that apply to a press of `button` on `target` with
/// `modifiers`, in order.
pub open spec fn button_actions<A: Clone>(
    bindings: Seq<ButtonBinding<A>>,
    modifiers: u32,
    button: u32,
    target: ButtonTarget,
) -> Seq<A>
    decreases bindings.len(),
{
    if bindings.len() == 0 {
        Seq::empty()
    } else {
        let before = button_actions(bindings.drop_last(), modifiers, button, target);
        if bindings.last().spec_matches(modifiers, button, target) {
            before.push(bindings.last().spec_action())
        } else {
            before
        }
    }
}

/// The actions to run for a key press: those of every key binding that applies, in order.
pub fn handle_key<A: Clone>(bindings: &Vec<KeyBinding<A>>, modifiers: u32, key: u32) -> (r: Vec<A>)
    ensures
        r@.len() == key_actions(bindings@, modifiers, key).len(),
        forall|i: int| 0 <= i < r@.len() ==> cloned(key_actions(bindings@, modifiers, key)[i], #[trigger] r@[i]),
{
    let mut r: Vec<A> = Vec::new();
    let mut i: usize = 0;
    while i < bindings.len()
        invariant
            i <= bindings@.len(),
            r@.len() == key_actions(bindings@.take(i as int), modifiers, key).len(),
            forall|j: int| 0 <= j < r@.len() ==> cloned(key_actions(bindings@.take(i as int), modifiers, key)[j], #[trigger] r@[j]),
        decreases bindings@.len() - i,
    {
        assert(bindings@.take(i + 1).drop_last() =~= bindings@.take(i as int));
        assert(bindings@.take(i + 1).last() == bindings@[i as int]);
        if bindings[i].matches(modifiers, key) {
            let a = bindings[i].action();
            r.push(a);
        }
        i += 1;
    }
    assert(bindings@.take(bindings@.len() as int) =~= bindings@);
    r
}

/// The actions to run for a button press on `target`: those of every button binding that
/// applies, in order.
pub fn handle_button<A: Clone>(bindings: &Vec<ButtonBinding<A>>, modifiers: u32, button: u32, target: ButtonTarget) -> (r:
    Vec<A>)
    ensures
        r@.len() == button_actions(bindings@, modifiers, button, target).len(),
        forall|i: int|
            0 <= i < r@.len() ==> cloned(button_actions(bindings@, modifiers, button, target)[i], #[trigger] r@[i]),
{
    let mut r: Vec<A> = Vec::new();
    let mut i: usize = 0;
    while i < bindings.len()
        invariant
            i <= bindings@.len(),
            r@.len() == button_actions(bindings@.take(i as int), modifiers, button, target).len(),
            forall|j: int|
                0 <= j < r@.len() ==> cloned(button_actions(bindings@.take(i as int), modifiers, button, target)[j], #[trigger] r@[j]),
        decreases bindings@.len() - i,
    {
        assert(bindings@.take(i + 1).drop_last() =~= bindings@.take(i as int));
        assert(bindings@.take(i + 1).last() == bindings@[i as int]);
        if bindings[i].matches(modifiers, button, target) {
            let a = bindings[i].action();
            r.push(a);
        }
        i += 1;
    }
    assert(bindings@.take(bindings@.len() as int) =~= bindings@);
    r
}

} // verus!
