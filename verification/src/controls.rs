//! Keyboard controls: which keys steer the orbit camera while held, and what a
//! key press asks of the avatar.
use vstd::prelude::*;
use crate::expressions::Emotion;
use crate::jointtest::TestAxis;

verus! {

/// Held-key slot: orbit left.
pub const YAW_LEFT: usize = 0;
/// Held-key slot: orbit right.
pub const YAW_RIGHT: usize = 1;
/// Held-key slot: orbit up.
pub const PITCH_UP: usize = 2;
/// Held-key slot: orbit down.
pub const PITCH_DOWN: usize = 3;
/// Held-key slot: move the camera closer.
pub const DIST_IN: usize = 4;
/// Held-key slot: move the camera away.
pub const DIST_OUT: usize = 5;
/// Held-key slot: raise the camera target.
pub const TARGET_UP: usize = 6;
/// Held-key slot: lower the camera target.
pub const TARGET_DOWN: usize = 7;
/// Number of held-key slots.
pub const BINDS: usize = 8;

/// What the demo key makes the avatar say.
pub const DEMO_SPEECH: &'static str = "Bonjour, je m'appelle Camille et je suis ravie de vous rencontrer";

/// The keys the controls react to; every other key is `Other`.
#[derive(Clone, Copy, PartialEq, Eq, Debug, Structural)]
pub enum Key {
    ArrowLeft,
    ArrowRight,
    ArrowUp,
    ArrowDown,
    KeyA,
    KeyD,
    KeyW,
    KeyS,
    KeyE,
    KeyQ,
    KeyR,
    KeyF,
    Tab,
    Digit0,
    Digit1,
    Digit2,
    Digit3,
    Digit4,
    Digit5,
    KeyU,
    KeyI,
    KeyO,
    KeyP,
    KeyT,
    KeyY,
    KeyM,
    Space,
    Other,
}

/// What a key press asks for.
#[derive(Clone, Copy, PartialEq, Eq, Debug)]
pub enum KeyAction {
    /// The head now follows the demo motion (`true`) or the webcam (`false`).
    ModeChanged(bool),
    /// Show this emotion, or none.
    SetEmotion(Option<Emotion>),
    /// Turn the test joint one step around this axis, forwards or backwards.
    JointStep(TestAxis, bool),
    /// Put the test joint back in its rest pose.
    JointReset,
    /// Say the demo sentence.
    SayDemo,
}

/// The held-key slot a key drives, if any.
pub open spec fn binding(k: Key) -> Option<usize> {
    match k {
        Key::ArrowLeft | Key::KeyA => Some(YAW_LEFT),
        Key::ArrowRight | Key::KeyD => Some(YAW_RIGHT),
        Key::ArrowUp | Key::KeyW => Some(PITCH_UP),
        Key::ArrowDown | Key::KeyS => Some(PITCH_DOWN),
        Key::KeyE => Some(DIST_IN),
        Key::KeyQ => Some(DIST_OUT),
        Key::KeyR => Some(TARGET_UP),
        Key::KeyF => Some(TARGET_DOWN),
        _ => None,
    }
}

/// What pressing a key asks for, besides the mode switch of `Tab`.
pub open spec fn press_action(k: Key) -> Option<KeyAction> {
    match k {
        Key::Digit1 => Some(KeyAction::SetEmotion(Some(Emotion::Joy))),
        Key::Digit2 => Some(KeyAction::SetEmotion(Some(Emotion::Angry))),
        Key::Digit3 => Some(KeyAction::SetEmotion(Some(Emotion::Sorrow))),
        Key::Digit4 => Some(KeyAction::SetEmotion(Some(Emotion::Surprised))),
        Key::Digit5 => Some(KeyAction::SetEmotion(Some(Emotion::Fun))),
        Key::Digit0 => Some(KeyAction::SetEmotion(None)),
        Key::KeyU => Some(KeyAction::JointStep(TestAxis::X, true)),
        Key::KeyI => Some(KeyAction::JointStep(TestAxis::X, false)),
        Key::KeyO => Some(KeyAction::JointStep(TestAxis::Y, true)),
        Key::KeyP => Some(KeyAction::JointStep(TestAxis::Y, false)),
        Key::KeyT => Some(KeyAction::JointStep(TestAxis::Z, true)),
        Key::KeyY => Some(KeyAction::JointStep(TestAxis::Z, false)),
        Key::KeyM => Some(KeyAction::JointReset),
        Key::Space => Some(KeyAction::SayDemo),
        _ => None,
    }
}

/// The held-key slot a key drives, if any.
pub fn binding_of(k: Key) -> (r: Option<usize>)
    ensures
        r == binding(k),
{
    match k {
        Key::ArrowLeft | Key::KeyA => Some(YAW_LEFT),
        Key::ArrowRight | Key::KeyD => Some(YAW_RIGHT),
        Key::ArrowUp | Key::KeyW => Some(PITCH_UP),
        Key::ArrowDown | Key::KeyS => Some(PITCH_DOWN),
        Key::KeyE => Some(DIST_IN),
        Key::KeyQ => Some(DIST_OUT),
        Key::KeyR => Some(TARGET_UP),
        Key::KeyF => Some(TARGET_DOWN),
        _ => None,
    }
}

/// What pressing a key asks for, besides the mode switch of `Tab`.
pub fn action_of(k: Key) -> (r: Option<KeyAction>)
    ensures
        r == press_action(k),
{
    match k {
        Key::Digit1 => Some(KeyAction::SetEmotion(Some(Emotion::Joy))),
        Key::Digit2 => Some(KeyAction::SetEmotion(Some(Emotion::Angry))),
        Key::Digit3 => Some(KeyAction::SetEmotion(Some(Emotion::Sorrow))),
        Key::Digit4 => Some(KeyAction::SetEmotion(Some(Emotion::Surprised))),
        Key::Digit5 => Some(KeyAction::SetEmotion(Some(Emotion::Fun))),
        Key::Digit0 => Some(KeyAction::SetEmotion(None)),
        Key::KeyU => Some(KeyAction::JointStep(TestAxis::X, true)),
        Key::KeyI => Some(KeyAction::JointStep(TestAxis::X, false)),
        Key::KeyO => Some(KeyAction::JointStep(TestAxis::Y, true)),
        Key::KeyP => Some(KeyAction::JointStep(TestAxis::Y, false)),
        Key::KeyT => Some(KeyAction::JointStep(TestAxis::Z, true)),
        Key::KeyY => Some(KeyAction::JointStep(TestAxis::Z, false)),
        Key::KeyM => Some(KeyAction::JointReset),
        Key::Space => Some(KeyAction::SayDemo),
        _ => None,
    }
}

/// Which camera keys are held, and whether the head follows the demo motion
/// rather than the webcam.
#[derive(Debug)]
pub struct Controls {
    keys: [bool; 8],
    demo_mode: bool,
}

impl Default for Controls {
    fn default() -> (r: Self)
        ensures
            r.held_view() == Seq::new(BINDS as nat, |i: int| false),
            !r.demo(),
    {
        Controls::new()
    }
}

impl Controls {
    /// Which slots are held, by slot.
    pub closed spec fn held_view(&self) -> Seq<bool> {
        self.keys@
    }

    /// Whether the head follows the demo motion.
    pub closed spec fn demo(&self) -> bool {
        self.demo_mode
    }

    /// No key held, head following the webcam.
    pub fn new() -> (r: Self)
        ensures
            r.held_view() == Seq::new(BINDS as nat, |i: int| false),
            !r.demo(),
    {
        let r = Controls { keys: [false; 8], demo_mode: false };
        assert(r.held_view() =~= Seq::new(BINDS as nat, |i: int| false));
        r
    }

    /// Whether the key of a slot is held.
    pub fn held(&self, slot: usize) -> (r: bool)
        requires
            slot < BINDS,
        ensures
            r == self.held_view()[slot as int],
            self.held_view().len() == BINDS,
    {
        self.keys[slot]
    }

    /// Whether the head follows the demo motion.
    pub fn demo_mode(&self) -> (r: bool)
        ensures
            r == self.demo(),
    {
        self.demo_mode
    }

    /// Takes a key going down (`pressed`) or up: a camera key sets its slot, `Tab`
    /// going down switches the head's mode, and other keys going down ask for
    /// their action.
    pub fn on_key(&mut self, key: Key, pressed: bool) -> (r: Option<KeyAction>)
        ensures
            final(self).held_view() == match binding(key) {
                Some(i) => old(self).held_view().update(i as int, pressed),
                None => old(self).held_view(),
            },
            final(self).demo() == if pressed && key == Key::Tab {
                !old(self).demo()
            } else {
                old(self).demo()
            },
            r == if !pressed {
                None
            } else if key == Key::Tab {
                Some(KeyAction::ModeChanged(final(self).demo()))
            } else {
                press_action(key)
            },
    {
        match binding_of(key) {
            Some(i) => {
                self.keys[i] = pressed;
            },
            None => {},
        }
        if !pressed {
            return None;
        }
        if key == Key::Tab {
            self.demo_mode = !self.demo_mode;
            return Some(KeyAction::ModeChanged(self.demo_mode));
        }
        action_of(key)
    }
}

/// The controls keep one held flag per camera slot.
pub proof fn law_one_flag_per_slot(c: Controls)
    ensures
        c.held_view().len() == BINDS,
{
}

/// Every camera key drives a slot that exists, and no slot is driven by keys
/// that also ask for an action when pressed.
pub proof fn law_bindings_in_range(k: Key)
    ensures
        binding(k) matches Some(i) ==> i < BINDS && press_action(k) is None,
{
}

/// The digit keys choose the emotion shown: 1 to 5 ask for Joy, Angry, Sorrow,
/// Surprised and Fun in that order, 0 clears it; no two keys ask for the same
/// action, so the five digits ask for five different emotions. No other key
/// sets an emotion.
pub proof fn law_digit_keys_choose_emotions(k: Key)
    ensures
        press_action(Key::Digit1) == Some(KeyAction::SetEmotion(Some(Emotion::Joy))),
        press_action(Key::Digit2) == Some(KeyAction::SetEmotion(Some(Emotion::Angry))),
        press_action(Key::Digit3) == Some(KeyAction::SetEmotion(Some(Emotion::Sorrow))),
        press_action(Key::Digit4) == Some(KeyAction::SetEmotion(Some(Emotion::Surprised))),
        press_action(Key::Digit5) == Some(KeyAction::SetEmotion(Some(Emotion::Fun))),
        press_action(Key::Digit0) == Some(KeyAction::SetEmotion(None)),
        forall|a: Key, b: Key|
            #![trigger press_action(a), press_action(b)]
            a != b && press_action(a) is Some ==> press_action(a) != press_action(b),
        press_action(k) matches Some(KeyAction::SetEmotion(_)) ==> k == Key::Digit0 || k
            == Key::Digit1 || k == Key::Digit2 || k == Key::Digit3 || k == Key::Digit4 || k
            == Key::Digit5,
{
}

/// The joint keys come in pairs that turn the test joint one step forwards and
/// one step backwards around the same axis: U/I around X, O/P around Y, T/Y
/// around Z.
pub proof fn law_joint_keys_pair_up()
    ensures
        press_action(Key::KeyU) == Some(KeyAction::JointStep(TestAxis::X, true)),
        press_action(Key::KeyI) == Some(KeyAction::JointStep(TestAxis::X, false)),
        press_action(Key::KeyO) == Some(KeyAction::JointStep(TestAxis::Y, true)),
        press_action(Key::KeyP) == Some(KeyAction::JointStep(TestAxis::Y, false)),
        press_action(Key::KeyT) == Some(KeyAction::JointStep(TestAxis::Z, true)),
        press_action(Key::KeyY) == Some(KeyAction::JointStep(TestAxis::Z, false)),
        press_action(Key::KeyM) == Some(KeyAction::JointReset),
        press_action(Key::Space) == Some(KeyAction::SayDemo),
{
}

/// The arrows and WASD steer the same orbit slots (left with A, right with D,
/// up with W, down with S); E and Q move in and out, R and F raise and lower the
/// target; every slot has a key and different slots have different keys.
pub proof fn law_camera_keys(k: Key)
    ensures
        binding(Key::ArrowLeft) == Some(YAW_LEFT) && binding(Key::KeyA) == Some(YAW_LEFT),
        binding(Key::ArrowRight) == Some(YAW_RIGHT) && binding(Key::KeyD) == Some(YAW_RIGHT),
        binding(Key::ArrowUp) == Some(PITCH_UP) && binding(Key::KeyW) == Some(PITCH_UP),
        binding(Key::ArrowDown) == Some(PITCH_DOWN) && binding(Key::KeyS) == Some(PITCH_DOWN),
        binding(Key::KeyE) == Some(DIST_IN),
        binding(Key::KeyQ) == Some(DIST_OUT),
        binding(Key::KeyR) == Some(TARGET_UP),
        binding(Key::KeyF) == Some(TARGET_DOWN),
        binding(k) is Some ==> k == Key::ArrowLeft || k == Key::ArrowRight || k == Key::ArrowUp || k
            == Key::ArrowDown || k == Key::KeyA || k == Key::KeyD || k == Key::KeyW || k
            == Key::KeyS || k == Key::KeyE || k == Key::KeyQ || k == Key::KeyR || k == Key::KeyF,
{
}

} // verus!
