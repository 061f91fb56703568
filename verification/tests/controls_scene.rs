use camille::controls::{
    binding_of, Controls, Key, KeyAction, BINDS, DEMO_SPEECH, DIST_IN, PITCH_UP, TARGET_DOWN,
    YAW_LEFT,
};
use camille::expressions::Emotion;
use camille::jointtest::TestAxis;
use camille::scene::{first_containing, first_named, CAMERA_NAME_PART, HEAD_BONE_NAME};

#[test]
fn held_keys_follow_presses() {
    let mut c = Controls::new();
    for i in 0..BINDS {
        assert!(!c.held(i));
    }
    assert_eq!(c.on_key(Key::KeyA, true), None);
    assert!(c.held(YAW_LEFT));
    assert_eq!(c.on_key(Key::ArrowLeft, false), None);
    assert!(!c.held(YAW_LEFT));
    c.on_key(Key::KeyW, true);
    c.on_key(Key::KeyE, true);
    assert!(c.held(PITCH_UP) && c.held(DIST_IN));
    assert_eq!(binding_of(Key::KeyF), Some(TARGET_DOWN));
    assert_eq!(binding_of(Key::Space), None);
}

#[test]
fn tab_switches_mode() {
    let mut c = Controls::new();
    assert!(!c.demo_mode());
    assert_eq!(c.on_key(Key::Tab, true), Some(KeyAction::ModeChanged(true)));
    assert!(c.demo_mode());
    assert_eq!(c.on_key(Key::Tab, false), None);
    assert!(c.demo_mode());
    assert_eq!(c.on_key(Key::Tab, true), Some(KeyAction::ModeChanged(false)));
    assert!(!c.demo_mode());
}

#[test]
fn key_actions() {
    let mut c = Controls::new();
    assert_eq!(c.on_key(Key::Digit1, true), Some(KeyAction::SetEmotion(Some(Emotion::Joy))));
    assert_eq!(c.on_key(Key::Digit4, true), Some(KeyAction::SetEmotion(Some(Emotion::Surprised))));
    assert_eq!(c.on_key(Key::Digit0, true), Some(KeyAction::SetEmotion(None)));
    assert_eq!(c.on_key(Key::Digit0, false), None);
    assert_eq!(c.on_key(Key::KeyU, true), Some(KeyAction::JointStep(TestAxis::X, true)));
    assert_eq!(c.on_key(Key::KeyY, true), Some(KeyAction::JointStep(TestAxis::Z, false)));
    assert_eq!(c.on_key(Key::KeyM, true), Some(KeyAction::JointReset));
    assert_eq!(c.on_key(Key::Space, true), Some(KeyAction::SayDemo));
    assert_eq!(c.on_key(Key::Other, true), None);
    assert!(DEMO_SPEECH.starts_with("Bonjour"));
}

#[test]
fn axis_labels() {
    assert_eq!(TestAxis::X.label(), "X");
    assert_eq!(TestAxis::Y.label(), "Y");
    assert_eq!(TestAxis::Z.label(), "Z");
}

#[test]
fn node_lookup() {
    let names: Vec<String> = ["Root", "MainCamera", "J_Bip_C_Head", "Camera2", "J_Bip_C_Head"]
        .iter()
        .map(|s| s.to_string())
        .collect();
    assert_eq!(first_named(&names, HEAD_BONE_NAME), Some(2));
    assert_eq!(first_named(&names, "Camera"), None);
    assert_eq!(first_containing(&names, CAMERA_NAME_PART), Some(1));
    assert_eq!(first_containing(&names, "Tail"), None);
    assert_eq!(first_named(&Vec::new(), "x"), None);
}

#[test]
fn default_controls_hold_nothing() {
    let c = Controls::default();
    for i in 0..BINDS {
        assert!(!c.held(i));
    }
    assert!(!c.demo_mode());
}
