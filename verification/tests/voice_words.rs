use camille::voice::{
    brain, command_from, command_words, contains_wake, has_wake, heard_in_tick, on_transcript, reply_for,
    session_over, session_reply, should_transcribe, words_of, Heard, SESSION_SAMPLES,
    WINDOW_SAMPLES,
};

fn words(s: &str) -> Vec<String> {
    words_of(s).into_iter().map(|w| w.into_iter().collect()).collect()
}

#[test]
fn words_split_on_non_alphanumeric() {
    assert_eq!(words("camille, bonjour!"), vec!["camille", "bonjour"]);
    assert_eq!(words("  a--b  c "), vec!["a", "b", "c"]);
    assert_eq!(words(""), Vec::<String>::new());
    assert_eq!(words("...,"), Vec::<String>::new());
    assert_eq!(words("écoute 42"), vec!["écoute", "42"]);
}

#[test]
fn wake_word_detection() {
    assert!(contains_wake("Camille, bonjour"));
    assert!(contains_wake("CAMILLE"));
    assert!(contains_wake("dis camille."));
    assert!(!contains_wake("Bonjour"));
    assert!(!contains_wake("camilleX est là"));
    assert!(!contains_wake(""));
}

#[test]
fn command_after_wake_word() {
    assert_eq!(command_from("Dis Camille, bonjour toi"), Some("bonjour toi".to_string()));
    assert_eq!(command_from("CAMILLE Salut"), Some("salut".to_string()));
    assert_eq!(command_from("camille"), Some(String::new()));
    assert_eq!(command_from("camille camille allume la lampe"), Some("allume la lampe".to_string()));
    assert_eq!(command_from("allume camille éteins camille tout"), Some("éteins tout".to_string()));
    assert_eq!(command_from("rien du tout"), None);
}

#[test]
fn wake_and_command_agree() {
    for t in ["camille", "Camille, va", "bonjour", "", "camilles", "x camille"] {
        assert_eq!(contains_wake(t), command_from(t).is_some(), "{t}");
    }
}

#[test]
fn command_from_words_list() {
    let ws: Vec<Vec<char>> = ["a", "camille", "b", "camille", "c"]
        .iter()
        .map(|w| w.chars().collect())
        .collect();
    assert!(has_wake(&ws));
    assert_eq!(command_words(&ws), Some("b c".to_string()));
    let no: Vec<Vec<char>> = vec!["a".chars().collect()];
    assert!(!has_wake(&no));
    assert_eq!(command_words(&no), None);
}

#[test]
fn replies() {
    assert_eq!(brain(""), "Oui, je vous écoute.");
    assert_eq!(brain("   "), "Oui, je vous écoute.");
    assert_eq!(brain("bonjour"), "Bonjour ! Ravi de vous voir.");
    assert_eq!(brain("alors salut toi"), "Bonjour ! Ravi de vous voir.");
    assert_eq!(
        brain("  allume la lumière "),
        "Vous avez dit : allume la lumière. J'en prends note."
    );
    assert_eq!(reply_for("abc"), "Vous avez dit : abc. J'en prends note.");
    assert_eq!(reply_for(""), "Oui, je vous écoute.");
}

#[test]
fn transcript_decisions() {
    assert!(matches!(on_transcript("bonjour tout le monde"), Heard::NoWake));
    assert!(matches!(on_transcript("Camille."), Heard::OpenSession));
    match on_transcript("Camille, salut") {
        Heard::Reply(r) => assert_eq!(r, "Bonjour ! Ravi de vous voir."),
        _ => panic!("expected a reply"),
    }
    match on_transcript("camille quelle heure est-il") {
        Heard::Reply(r) => assert_eq!(r, "Vous avez dit : quelle heure est il. J'en prends note."),
        _ => panic!("expected a reply"),
    }
}

#[test]
fn session_decisions() {
    assert!(session_over(true, 0));
    assert!(!session_over(false, SESSION_SAMPLES - 1));
    assert!(session_over(false, SESSION_SAMPLES));
    assert_eq!(SESSION_SAMPLES, 40000);
    assert_eq!(WINDOW_SAMPLES, 40000);
    assert_eq!(session_reply(None), "Oui, je vous écoute.");
    assert_eq!(session_reply(Some("")), "Oui, je vous écoute.");
    assert_eq!(session_reply(Some("  ...  ")), "Oui, je vous écoute.");
    assert_eq!(session_reply(Some("bonjour")), "Bonjour ! Ravi de vous voir.");
    assert_eq!(
        session_reply(Some("Allume la lampe.")),
        "Vous avez dit : allume la lampe. J'en prends note."
    );
    assert_eq!(session_reply(Some("camille bonjour")), "Bonjour ! Ravi de vous voir.");
    assert_eq!(
        session_reply(Some("Camille, ouvre")),
        "Vous avez dit : ouvre. J'en prends note."
    );
}

#[test]
fn replies_ignore_surrounding_space_and_are_case_sensitive() {
    for c in ["", " \t ", "bonjour", "  salut ", " allume\u{a0}", "\u{3000}x\u{2003}"] {
        assert_eq!(brain(c), brain(c.trim()), "{c:?}");
        assert!(!brain(c).is_empty());
    }
    assert_eq!(brain("Bonjour"), "Vous avez dit : Bonjour. J'en prends note.");
    assert_eq!(brain("\u{a0}x\u{2003}"), "Vous avez dit : x. J'en prends note.");
}

#[test]
fn transcribe_gate() {
    assert!(should_transcribe(true, false, 10, true));
    assert!(!should_transcribe(false, false, 10, true));
    assert!(!should_transcribe(true, true, 10, true));
    assert!(!should_transcribe(true, false, 0, true));
    assert!(!should_transcribe(true, false, 10, false));
}

#[test]
fn tick_decisions() {
    assert!(matches!(heard_in_tick(false, false, 10, true, Some("camille salut")), Heard::NoWake));
    assert!(matches!(heard_in_tick(true, true, 10, true, Some("camille salut")), Heard::NoWake));
    assert!(matches!(heard_in_tick(true, false, 0, true, Some("camille salut")), Heard::NoWake));
    assert!(matches!(heard_in_tick(true, false, 10, false, Some("camille salut")), Heard::NoWake));
    assert!(matches!(heard_in_tick(true, false, 10, true, None), Heard::NoWake));
    assert!(matches!(heard_in_tick(true, false, 10, true, Some("salut")), Heard::NoWake));
    assert!(matches!(heard_in_tick(true, false, 10, true, Some("Camille !")), Heard::OpenSession));
    match heard_in_tick(true, false, 10, true, Some("camille salut")) {
        Heard::Reply(r) => assert_eq!(r, "Bonjour ! Ravi de vous voir."),
        _ => panic!("expected a reply"),
    }
}
