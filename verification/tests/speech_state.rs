use camille::text::{chars_of, matches_at, occurs_in, same_chars, trim};
use camille::tts::{is_speaking, needs_lip_sync, State};

#[test]
fn speech_state_transitions() {
    let mut s = State::default();
    assert!(!is_speaking(Some(&s)));
    assert!(!is_speaking(None));
    s.begin("Bonjour".to_string(), 22050, 22050);
    assert!(is_speaking(Some(&s)));
    assert_eq!(s.text, "Bonjour");
    assert_eq!((s.samples, s.rate), (22050, 22050));
    assert!(needs_lip_sync(&String::new(), &s));
    assert!(!needs_lip_sync(&"Bonjour".to_string(), &s));
    s.finish();
    assert!(!is_speaking(Some(&s)));
    assert_eq!(s.text, "Bonjour");
    assert!(!needs_lip_sync(&String::new(), &s));
}

#[test]
fn char_helpers() {
    let hay = chars_of("bonjour à vous");
    assert_eq!(hay.len(), 14);
    assert!(occurs_in(&chars_of("à v"), &hay));
    assert!(!occurs_in(&chars_of("salut"), &hay));
    assert!(occurs_in(&chars_of(""), &hay));
    assert!(!occurs_in(&chars_of("bonjour à vous!"), &hay));
    assert!(matches_at(&hay, &chars_of("jour"), 3));
    assert!(!matches_at(&hay, &chars_of("jour"), 2));
    assert!(same_chars(&chars_of("abc"), &chars_of("abc")));
    assert!(!same_chars(&chars_of("abc"), &chars_of("abd")));
    assert!(!same_chars(&chars_of("ab"), &chars_of("abc")));
}

#[test]
fn trim_matches_std() {
    use_trim_cases();
}

fn use_trim_cases() {
    for s in [
        "",
        "   ",
        "  a b  ",
        "\t\n x \r\u{b}\u{c}",
        "\u{85}\u{a0}y\u{1680}\u{2000}\u{200a}",
        "\u{2028}\u{2029}\u{202f}z\u{205f}\u{3000}",
        "\u{200b}w\u{200b}",
        "aé ",
    ] {
        assert_eq!(trim(s), s.trim(), "{s:?}");
    }
}
