use camille::expressions::{
    face_morph, select_face_morphs, speech_visemes, target_weights, Emotion, Viseme, MAX_WEIGHT,
};

#[test]
fn emotion_morph_tables() {
    let joy = Emotion::Joy.morphs();
    assert_eq!(joy.len(), 5);
    assert_eq!(joy[0], ("Fcl_ALL_Joy", 60));
    assert_eq!(joy[4], ("Fcl_MTH_Joy", 50));
    assert_eq!(Emotion::Surprised.morphs()[0], ("Fcl_ALL_Surprised", 70));
    assert_eq!(Emotion::Fun.morphs()[3], ("Fcl_MTH_Fun", 35));
    for e in [Emotion::Joy, Emotion::Angry, Emotion::Sorrow, Emotion::Surprised, Emotion::Fun] {
        for (name, w) in e.morphs() {
            assert!(face_morph(name));
            assert!(w <= MAX_WEIGHT);
        }
    }
}

#[test]
fn visemes_of_characters() {
    assert_eq!(Viseme::from_char('a'), Some(Viseme::A));
    assert_eq!(Viseme::from_char('A'), Some(Viseme::A));
    assert_eq!(Viseme::from_char('â'), Some(Viseme::A));
    assert_eq!(Viseme::from_char('Y'), Some(Viseme::I));
    assert_eq!(Viseme::from_char('ü'), Some(Viseme::U));
    assert_eq!(Viseme::from_char('é'), Some(Viseme::E));
    assert_eq!(Viseme::from_char('ô'), Some(Viseme::O));
    assert_eq!(Viseme::from_char('b'), None);
    assert_eq!(Viseme::from_char('É'), None);
    assert_eq!(Viseme::from_char(' '), None);
    assert_eq!(Viseme::O.morph_name(), "Fcl_MTH_O");
    assert_eq!(Viseme::A.morph_name(), "Fcl_MTH_A");
}

#[test]
fn speech_marks_in_order() {
    let marks = speech_visemes("Bonjour, ça va");
    assert_eq!(
        marks,
        vec![
            (1, Viseme::O),
            (4, Viseme::O),
            (5, Viseme::U),
            (10, Viseme::A),
            (13, Viseme::A)
        ]
    );
    assert!(speech_visemes("").is_empty());
    assert!(speech_visemes("pfff").is_empty());
}

#[test]
fn face_morph_names() {
    assert!(face_morph("Fcl_MTH_A"));
    assert!(!face_morph("Fcl_EYE_Close_S"));
    assert!(!face_morph("Fcl"));
    assert!(face_morph("Fcl_"));
    assert!(!face_morph("Hair_Fcl_A"));
    assert!(!face_morph(""));
}

#[test]
fn face_morph_selection_keeps_first_occurrences() {
    let names: Vec<String> = ["Fcl_A", "Body", "Fcl_B_S", "Fcl_A", "Fcl_C", "Fcl_B"]
        .iter()
        .map(|s| s.to_string())
        .collect();
    assert_eq!(select_face_morphs(&names), vec![0, 4, 5]);
    assert!(select_face_morphs(&Vec::new()).is_empty());
}

#[test]
fn morph_target_parts() {
    assert_eq!(target_weights("Fcl_MTH_Fun", None, None), (12, 0));
    assert_eq!(target_weights("Fcl_MTH_Fun", None, Some(Emotion::Fun)), (12, 35));
    assert_eq!(target_weights("Fcl_MTH_A", Some(Viseme::A), Some(Emotion::Joy)), (70, 0));
    assert_eq!(target_weights("Fcl_MTH_A", Some(Viseme::O), None), (0, 0));
    assert_eq!(target_weights("Fcl_ALL_Joy", Some(Viseme::O), Some(Emotion::Joy)), (0, 60));
    assert_eq!(target_weights("Fcl_EYE_Joy_R", None, Some(Emotion::Joy)), (0, 30));
    assert_eq!(target_weights("Body", None, Some(Emotion::Angry)), (0, 0));
}
