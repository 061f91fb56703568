//! Facial expressions: the morphs each emotion drives, the mouth shape (viseme)
//! each spoken character calls for, and which blend shapes of the model are face
//! morphs.
use vstd::prelude::*;
use crate::text::{chars_of, matches_at, same_chars};

verus! {

/// Resting weight of the smile morph, in percent of its full weight.
pub const MICRO_SMILE: u32 = 12;

/// Weight of the active mouth shape while speaking, in percent.
pub const SPEECH_WEIGHT: u32 = 70;

/// Highest weight a morph target may reach, in percent.
pub const MAX_WEIGHT: u32 = 100;

/// An emotion the face can show.
#[derive(Debug, Clone, Copy, PartialEq, Eq, Structural)]
pub enum Emotion {
    Joy,
    Angry,
    Sorrow,
    Surprised,
    Fun,
}

/// The morphs an emotion drives and their weights, in percent.
pub open spec fn morph_table(e: Emotion) -> Seq<(Seq<char>, u32)> {
    match e {
        Emotion::Joy => seq![
            ("Fcl_ALL_Joy"@, 60u32),
            ("Fcl_BRW_Joy"@, 45u32),
            ("Fcl_EYE_Joy_L"@, 30u32),
            ("Fcl_EYE_Joy_R"@, 30u32),
            ("Fcl_MTH_Joy"@, 50u32),
        ],
        Emotion::Angry => seq![
            ("Fcl_ALL_Angry"@, 60u32),
            ("Fcl_BRW_Angry"@, 55u32),
            ("Fcl_EYE_Angry"@, 40u32),
            ("Fcl_MTH_Angry"@, 45u32),
        ],
        Emotion::Sorrow => seq![
            ("Fcl_ALL_Sorrow"@, 60u32),
            ("Fcl_BRW_Sorrow"@, 40u32),
            ("Fcl_EYE_Sorrow"@, 35u32),
            ("Fcl_MTH_Sorrow"@, 45u32),
        ],
        Emotion::Surprised => seq![
            ("Fcl_ALL_Surprised"@, 70u32),
            ("Fcl_BRW_Surprised"@, 60u32),
            ("Fcl_EYE_Surprised"@, 55u32),
            ("Fcl_MTH_Surprised"@, 50u32),
        ],
        Emotion::Fun => seq![
            ("Fcl_ALL_Fun"@, 55u32),
            ("Fcl_BRW_Fun"@, 40u32),
            ("Fcl_EYE_Fun"@, 30u32),
            ("Fcl_MTH_Fun"@, 35u32),
        ],
    }
}

/// The texts of a list of (name, weight) pairs.
pub open spec fn pair_views(ps: Seq<(&'static str, u32)>) -> Seq<(Seq<char>, u32)> {
    ps.map_values(|p: (&'static str, u32)| (p.0@, p.1))
}

impl Emotion {
    /// The morphs this emotion drives and their weights, in percent of the
    /// morph's full weight.
    pub fn morphs(&self) -> (r: Vec<(&'static str, u32)>)
        ensures
            pair_views(r@) == morph_table(*self),
    {
        let r = match self {
            Emotion::Joy => vec![
                ("Fcl_ALL_Joy", 60u32),
                ("Fcl_BRW_Joy", 45u32),
                ("Fcl_EYE_Joy_L", 30u32),
                ("Fcl_EYE_Joy_R", 30u32),
                ("Fcl_MTH_Joy", 50u32),
            ],
            Emotion::Angry => vec![
                ("Fcl_ALL_Angry", 60u32),
                ("Fcl_BRW_Angry", 55u32),
                ("Fcl_EYE_Angry", 40u32),
                ("Fcl_MTH_Angry", 45u32),
            ],
            Emotion::Sorrow => vec![
                ("Fcl_ALL_Sorrow", 60u32),
                ("Fcl_BRW_Sorrow", 40u32),
                ("Fcl_EYE_Sorrow", 35u32),
                ("Fcl_MTH_Sorrow", 45u32),
            ],
            Emotion::Surprised => vec![
                ("Fcl_ALL_Surprised", 70u32),
                ("Fcl_BRW_Surprised", 60u32),
                ("Fcl_EYE_Surprised", 55u32),
                ("Fcl_MTH_Surprised", 50u32),
            ],
            Emotion::Fun => vec![
                ("Fcl_ALL_Fun", 55u32),
                ("Fcl_BRW_Fun", 40u32),
                ("Fcl_EYE_Fun", 30u32),
                ("Fcl_MTH_Fun", 35u32),
            ],
        };
        assert(pair_views(r@) =~= morph_table(*self));
        r
    }
}

/// A mouth shape.
#[derive(Debug, Clone, Copy, PartialEq, Eq, Structural)]
pub enum Viseme {
    A,
    I,
    U,
    E,
    O,
}

/// The morph that shapes the mouth for a viseme.
pub open spec fn viseme_morph(v: Viseme) -> Seq<char> {
    match v {
        Viseme::A => "Fcl_MTH_A"@,
        Viseme::I => "Fcl_MTH_I"@,
        Viseme::U => "Fcl_MTH_U"@,
        Viseme::E => "Fcl_MTH_E"@,
        Viseme::O => "Fcl_MTH_O"@,
    }
}

/// The viseme of a lower-case character, if it is a (French) vowel.
pub open spec fn viseme_of_lower(c: char) -> Option<Viseme> {
    if c == 'a' || c == 'à' || c == 'â' {
        Some(Viseme::A)
    } else if c == 'i' || c == 'î' || c == 'ï' || c == 'y' {
        Some(Viseme::I)
    } else if c == 'u' || c == 'û' || c == 'ü' {
        Some(Viseme::U)
    } else if c == 'e' || c == 'é' || c == 'è' || c == 'ê' || c == 'ë' {
        Some(Viseme::E)
    } else if c == 'o' || c == 'ô' {
        Some(Viseme::O)
    } else {
        None
    }
}

/// The viseme a character calls for; ASCII capitals count as their small letter.
pub open spec fn viseme_of(c: char) -> Option<Viseme> {
    viseme_of_lower(crate::text::ascii_lower(c))
}

impl Viseme {
    /// The morph that shapes the mouth for this viseme.
    pub fn morph_name(&self) -> (r: &'static str)
        ensures
            r@ == viseme_morph(*self),
    {
        match self {
            Viseme::A => "Fcl_MTH_A",
            Viseme::I => "Fcl_MTH_I",
            Viseme::U => "Fcl_MTH_U",
            Viseme::E => "Fcl_MTH_E",
            Viseme::O => "Fcl_MTH_O",
        }
    }

    /// The viseme a character calls for, if any.
    pub fn from_char(c: char) -> (r: Option<Viseme>)
        ensures
            r == viseme_of(c),
    {
        match c {
            'a' | 'A' | 'à' | 'â' => Some(Viseme::A),
            'i' | 'I' | 'î' | 'ï' | 'y' | 'Y' => Some(Viseme::I),
            'u' | 'U' | 'û' | 'ü' => Some(Viseme::U),
            'e' | 'E' | 'é' | 'è' | 'ê' | 'ë' => Some(Viseme::E),
            'o' | 'O' | 'ô' => Some(Viseme::O),
            _ => None,
        }
    }
}

/// The visemes of a text with the position of their character, in order of
/// position.
pub open spec fn speech_marks(s: Seq<char>) -> Seq<(nat, Viseme)>
    decreases s.len(),
{
    if s.len() == 0 {
        Seq::<(nat, Viseme)>::empty()
    } else {
        let prev = speech_marks(s.drop_last());
        match viseme_of(s.last()) {
            Some(v) => prev.push(((s.len() - 1) as nat, v)),
            None => prev,
        }
    }
}

/// Positions as natural numbers.
pub open spec fn mark_views(ms: Seq<(usize, Viseme)>) -> Seq<(nat, Viseme)> {
    ms.map_values(|m: (usize, Viseme)| (m.0 as nat, m.1))
}

/// The visemes a spoken text calls for, each with the position of its character
/// in the text. Each is shown from `position / length * duration` seconds into
/// the speech.
pub fn speech_visemes(text: &str) -> (r: Vec<(usize, Viseme)>)
    ensures
        mark_views(r@) == speech_marks(text@),
{
    let cs = chars_of(text);
    let mut out: Vec<(usize, Viseme)> = Vec::new();
    let mut i: usize = 0;
    while i < cs.len()
        invariant
            cs@ == text@,
            i <= cs@.len(),
            mark_views(out@) == speech_marks(cs@.take(i as int)),
        decreases cs@.len() - i,
    {
        let ghost before = out@;
        proof {
            assert(cs@.take(i + 1).drop_last() =~= cs@.take(i as int));
        }
        match Viseme::from_char(cs[i]) {
            Some(v) => {
                out.push((i, v));
                assert(mark_views(out@) =~= mark_views(before).push((i as nat, v)));
            },
            None => {},
        }
        i = i + 1;
    }
    proof {
        assert(cs@.take(cs@.len() as int) =~= cs@);
    }
    out
}

/// The marks of a text are in strictly increasing order of position, each within
/// the text and naming the viseme of its character: ordering them by time,
/// which grows with position, leaves them as they are.
pub proof fn law_marks_in_text_order(s: Seq<char>)
    ensures
        forall|i: int, j: int|
            0 <= i < j < speech_marks(s).len() ==> (#[trigger] speech_marks(s)[i]).0 < (
            #[trigger] speech_marks(s)[j]).0,
        forall|i: int|
            0 <= i < speech_marks(s).len() ==> (#[trigger] speech_marks(s)[i]).0 < s.len()
                && viseme_of(s[speech_marks(s)[i].0 as int]) == Some(speech_marks(s)[i].1),
    decreases s.len(),
{
    if s.len() > 0 {
        let p = s.drop_last();
        law_marks_in_text_order(p);
        assert forall|i: int| 0 <= i < speech_marks(s).len() implies (
        #[trigger] speech_marks(s)[i]).0 < s.len() && viseme_of(s[speech_marks(s)[i].0 as int])
            == Some(speech_marks(s)[i].1) by {
            if i < speech_marks(p).len() {
                assert(speech_marks(s)[i] == speech_marks(p)[i]);
                assert(s[speech_marks(p)[i].0 as int] == p[speech_marks(p)[i].0 as int]);
            }
        }
        assert forall|i: int, j: int|
            0 <= i < j < speech_marks(s).len() implies (#[trigger] speech_marks(s)[i]).0 < (
        #[trigger] speech_marks(s)[j]).0 by {
            assert(speech_marks(s)[i] == speech_marks(p)[i]);
            if j < speech_marks(p).len() {
                assert(speech_marks(s)[j] == speech_marks(p)[j]);
            }
        }
    }
}

/// Whether a blend shape's name marks a face morph: it starts with `Fcl_` and
/// does not end with `S`.
pub open spec fn is_face_morph(name: Seq<char>) -> bool {
    &&& name.len() >= 4
    &&& name.subrange(0, 4) == "Fcl_"@
    &&& name.last() != 'S'
}

/// The positions of the face morphs to drive among the blend-shape names, in
/// order: each face-morph name at its first occurrence.
pub open spec fn face_morph_picks(names: Seq<Seq<char>>) -> Seq<nat>
    decreases names.len(),
{
    if names.len() == 0 {
        Seq::<nat>::empty()
    } else {
        let p = names.drop_last();
        let prev = face_morph_picks(p);
        if is_face_morph(names.last()) && !p.contains(names.last()) {
            prev.push((names.len() - 1) as nat)
        } else {
            prev
        }
    }
}

/// Whether a blend shape's name marks a face morph.
pub fn face_morph(name: &str) -> (r: bool)
    ensures
        r == is_face_morph(name@),
{
    let cs = chars_of(name);
    let prefix = chars_of("Fcl_");
    proof {
        reveal_strlit("Fcl_");
    }
    if cs.len() < 4 {
        return false;
    }
    matches_at(&cs, &prefix, 0) && cs[cs.len() - 1] != 'S'
}

/// The texts of a list of strings.
pub open spec fn string_views(v: Seq<String>) -> Seq<Seq<char>> {
    v.map_values(|s: String| s@)
}

/// Whether `name` is among the first `end` names.
fn seen_before(names: &Vec<String>, end: usize, name: &String) -> (r: bool)
    requires
        end <= names@.len(),
    ensures
        r == string_views(names@).take(end as int).contains(name@),
{
    let ghost views = string_views(names@).take(end as int);
    let mut j: usize = 0;
    while j < end
        invariant
            end <= names@.len(),
            views == string_views(names@).take(end as int),
            j <= end,
            forall|k: int| 0 <= k < j ==> views[k] != name@,
        decreases end - j,
    {
        if names[j] == *name {
            assert(views[j as int] == name@);
            return true;
        }
        j = j + 1;
    }
    false
}

/// Picks the face morphs among the blend-shape names, as positions in `names`:
/// each face-morph name once, at its first occurrence, in order.
pub fn select_face_morphs(names: &Vec<String>) -> (r: Vec<usize>)
    ensures
        r@.map_values(|i: usize| i as nat) == face_morph_picks(string_views(names@)),
{
    let ghost all = string_views(names@);
    let mut out: Vec<usize> = Vec::new();
    let mut i: usize = 0;
    while i < names.len()
        invariant
            all == string_views(names@),
            i <= names@.len(),
            out@.map_values(|i: usize| i as nat) == face_morph_picks(all.take(i as int)),
        decreases names@.len() - i,
    {
        let ghost before = out@;
        proof {
            assert(all.take(i + 1).drop_last() =~= all.take(i as int));
            assert(all.take(i + 1).last() == names@[i as int]@);
        }
        if face_morph(names[i].as_str()) && !seen_before(names, i, &names[i]) {
            out.push(i);
            assert(out@.map_values(|i: usize| i as nat) =~= before.map_values(|i: usize| i as nat).push(
                i as nat,
            ));
        }
        i = i + 1;
    }
    proof {
        assert(all.take(names@.len() as int) =~= all);
    }
    out
}

proof fn lemma_picks_valid(names: Seq<Seq<char>>)
    ensures
        forall|i: int|
            0 <= i < face_morph_picks(names).len() ==> (#[trigger] face_morph_picks(names)[i])
                < names.len() && is_face_morph(names[face_morph_picks(names)[i] as int]),
    decreases names.len(),
{
    if names.len() > 0 {
        let p = names.drop_last();
        lemma_picks_valid(p);
        let picks = face_morph_picks(names);
        let prev = face_morph_picks(p);
        assert forall|i: int| 0 <= i < picks.len() implies (#[trigger] picks[i]) < names.len()
            && is_face_morph(names[picks[i] as int]) by {
            if i < prev.len() {
                assert(picks[i] == prev[i]);
                assert(names[prev[i] as int] == p[prev[i] as int]);
            }
        }
    }
}

proof fn lemma_picks_distinct(names: Seq<Seq<char>>)
    ensures
        forall|i: int, j: int|
            0 <= i < j < face_morph_picks(names).len() ==> (#[trigger] face_morph_picks(names)[i])
                < (#[trigger] face_morph_picks(names)[j]) && names[face_morph_picks(names)[i] as int]
                != names[face_morph_picks(names)[j] as int],
    decreases names.len(),
{
    if names.len() > 0 {
        let p = names.drop_last();
        lemma_picks_distinct(p);
        lemma_picks_valid(p);
        let picks = face_morph_picks(names);
        let prev = face_morph_picks(p);
        assert forall|i: int, j: int| 0 <= i < j < picks.len() implies (#[trigger] picks[i]) < (
        #[trigger] picks[j]) && names[picks[i] as int] != names[picks[j] as int] by {
            assert(picks[i] == prev[i]);
            assert(names[prev[i] as int] == p[prev[i] as int]);
            if j < prev.len() {
                assert(picks[j] == prev[j]);
                assert(names[prev[j] as int] == p[prev[j] as int]);
            } else {
                assert(p.contains(p[prev[i] as int]));
            }
        }
    }
}

proof fn lemma_picks_complete(names: Seq<Seq<char>>)
    ensures
        forall|k: int|
            0 <= k < names.len() && is_face_morph(#[trigger] names[k]) ==> exists|i: int|
                0 <= i < face_morph_picks(names).len() && names[face_morph_picks(names)[i] as int]
                    == names[k],
    decreases names.len(),
{
    if names.len() > 0 {
        let p = names.drop_last();
        lemma_picks_complete(p);
        lemma_picks_valid(p);
        let picks = face_morph_picks(names);
        let prev = face_morph_picks(p);
        assert forall|k: int| 0 <= k < names.len() && is_face_morph(#[trigger] names[k]) implies exists|i: int|
            0 <= i < picks.len() && names[picks[i] as int] == names[k] by {
            if k < p.len() {
                assert(p[k] == names[k]);
                let i = choose|i: int| 0 <= i < prev.len() && p[prev[i] as int] == p[k];
                assert(picks[i] == prev[i]);
                assert(names[picks[i] as int] == p[prev[i] as int]);
            } else if p.contains(names.last()) {
                let m = choose|m: int| 0 <= m < p.len() && p[m] == names.last();
                assert(is_face_morph(p[m]));
                let i = choose|i: int| 0 <= i < prev.len() && p[prev[i] as int] == p[m];
                assert(picks[i] == prev[i]);
                assert(names[picks[i] as int] == p[prev[i] as int]);
            } else {
                assert(picks[prev.len() as int] == k);
            }
        }
    }
}

/// The picked face morphs are face morphs, each picked once, in increasing
/// position, and every face-morph name of the input is picked.
pub proof fn law_face_morph_picks(names: Seq<Seq<char>>)
    ensures
        forall|i: int|
            0 <= i < face_morph_picks(names).len() ==> (#[trigger] face_morph_picks(names)[i])
                < names.len() && is_face_morph(names[face_morph_picks(names)[i] as int]),
        forall|i: int, j: int|
            0 <= i < j < face_morph_picks(names).len() ==> (#[trigger] face_morph_picks(names)[i])
                < (#[trigger] face_morph_picks(names)[j]) && names[face_morph_picks(names)[i] as int]
                != names[face_morph_picks(names)[j] as int],
        forall|k: int|
            0 <= k < names.len() && is_face_morph(#[trigger] names[k]) ==> exists|i: int|
                0 <= i < face_morph_picks(names).len() && names[face_morph_picks(names)[i] as int]
                    == names[k],
{
    lemma_picks_valid(names);
    lemma_picks_distinct(names);
    lemma_picks_complete(names);
}

/// The morph that holds the resting smile.
pub const SMILE_MORPH: &'static str = "Fcl_MTH_Fun";

/// The fixed part of a morph's target weight: the active viseme's morph gets
/// the speech weight, else the smile morph gets the resting smile, else nothing.
pub open spec fn base_weight(name: Seq<char>, viseme: Option<Viseme>) -> nat {
    if viseme is Some && name == viseme_morph(viseme->0) {
        SPEECH_WEIGHT as nat
    } else if name == SMILE_MORPH@ {
        MICRO_SMILE as nat
    } else {
        0
    }
}

/// The total weight a morph table gives a name.
pub open spec fn table_weight(t: Seq<(Seq<char>, u32)>, name: Seq<char>) -> nat
    decreases t.len(),
{
    if t.len() == 0 {
        0
    } else {
        table_weight(t.drop_last(), name) + if t.last().0 == name {
            t.last().1 as nat
        } else {
            0
        }
    }
}

/// The weight the shown emotion, at full strength, adds to a morph.
pub open spec fn emotion_weight(name: Seq<char>, emotion: Option<Emotion>) -> nat {
    match emotion {
        Some(e) => table_weight(morph_table(e), name),
        None => 0,
    }
}

/// The two parts of a morph's target weight, in percent: the fixed part (speech
/// or resting smile) and the part the emotion adds at full strength. The target
/// is `fixed + emotion * strength`, capped at `MAX_WEIGHT`, where the strength
/// fades from 1 to 0 as the emotion is released.
pub fn target_weights(name: &str, viseme: Option<Viseme>, emotion: Option<Emotion>) -> (r: (u32, u32))
    ensures
        r.0 == base_weight(name@, viseme),
        r.1 == emotion_weight(name@, emotion),
{
    let n = chars_of(name);
    let base = match viseme {
        Some(v) if same_chars(&n, &chars_of(v.morph_name())) => SPEECH_WEIGHT,
        _ => if same_chars(&n, &chars_of(SMILE_MORPH)) {
            MICRO_SMILE
        } else {
            0
        },
    };
    let extra = match emotion {
        Some(e) => {
            let table = e.morphs();
            let ghost t = morph_table(e);
            let mut sum: u32 = 0;
            let mut i: usize = 0;
            proof {
                assert(t.take(0) =~= Seq::<(Seq<char>, u32)>::empty());
                assert(pair_views(table@).len() == table@.len());
                assert(t.len() <= 5);
            }
            while i < table.len()
                invariant
                    pair_views(table@) == t,
                    t == morph_table(e),
                    n@ == name@,
                    i <= table@.len(),
                    table@.len() <= 5,
                    sum <= 100 * i,
                    sum == table_weight(t.take(i as int), name@),
                decreases table@.len() - i,
            {
                let (m, w) = table[i];
                proof {
                    assert(t[i as int] == (m@, w));
                    assert(t.take(i + 1).drop_last() =~= t.take(i as int));
                    assert(w <= 100) by {
                        law_emotion_morphs_are_face_morphs(e);
                    }
                }
                if same_chars(&n, &chars_of(m)) {
                    sum = sum + w;
                }
                i = i + 1;
            }
            proof {
                assert(t.take(t.len() as int) =~= t);
            }
            sum
        },
        None => 0,
    };
    (base, extra)
}

/// The name of an emotion, as it ends the names of the morphs it drives.
pub open spec fn emotion_name(e: Emotion) -> Seq<char> {
    match e {
        Emotion::Joy => "Joy"@,
        Emotion::Angry => "Angry"@,
        Emotion::Sorrow => "Sorrow"@,
        Emotion::Surprised => "Surprised"@,
        Emotion::Fun => "Fun"@,
    }
}

/// Whether `s` ends with `t`.
pub open spec fn ends_with(s: Seq<char>, t: Seq<char>) -> bool {
    t.len() <= s.len() && s.subrange(s.len() - t.len(), s.len() as int) == t
}

/// An emotion drives only its own morphs: each morph name ends with the
/// emotion's name, possibly followed by a side `_L` or `_R`. The first morph is
/// the whole-face one, `Fcl_ALL_` and the name, with the largest weight; the
/// last is the mouth, `Fcl_MTH_` and the name; every weight lies between 30 and
/// 70 percent.
pub proof fn law_emotion_drives_its_own_morphs(e: Emotion)
    ensures
        forall|i: int|
            0 <= i < morph_table(e).len() ==> ends_with((#[trigger] morph_table(e)[i]).0, emotion_name(e))
                || ends_with(morph_table(e)[i].0, emotion_name(e) + "_L"@) || ends_with(
                morph_table(e)[i].0,
                emotion_name(e) + "_R"@,
            ),
        morph_table(e).len() >= 4,
        morph_table(e)[0].0 == "Fcl_ALL_"@ + emotion_name(e),
        morph_table(e).last().0 == "Fcl_MTH_"@ + emotion_name(e),
        forall|i: int|
            0 <= i < morph_table(e).len() ==> (#[trigger] morph_table(e)[i]).1 <= morph_table(e)[0].1
                && 30 <= morph_table(e)[i].1 <= 70,
{
    reveal_strlit("Fcl_ALL_");
    reveal_strlit("Fcl_MTH_");
    reveal_strlit("_L");
    reveal_strlit("_R");
    match e {
        Emotion::Joy => {
            reveal_strlit("Joy");
            reveal_strlit("Fcl_ALL_Joy");
            reveal_strlit("Fcl_BRW_Joy");
            reveal_strlit("Fcl_EYE_Joy_L");
            reveal_strlit("Fcl_EYE_Joy_R");
            reveal_strlit("Fcl_MTH_Joy");
            assert(("Fcl_ALL_"@ + "Joy"@) =~= "Fcl_ALL_Joy"@);
            assert(("Fcl_MTH_"@ + "Joy"@) =~= "Fcl_MTH_Joy"@);
            assert("Fcl_ALL_Joy"@.subrange(8, 11) =~= "Joy"@);
            assert("Fcl_BRW_Joy"@.subrange(8, 11) =~= "Joy"@);
            assert("Fcl_EYE_Joy_L"@.subrange(8, 13) =~= "Joy"@ + "_L"@);
            assert("Fcl_EYE_Joy_R"@.subrange(8, 13) =~= "Joy"@ + "_R"@);
            assert("Fcl_MTH_Joy"@.subrange(8, 11) =~= "Joy"@);
        },
        Emotion::Angry => {
            reveal_strlit("Angry");
            reveal_strlit("Fcl_ALL_Angry");
            reveal_strlit("Fcl_BRW_Angry");
            reveal_strlit("Fcl_EYE_Angry");
            reveal_strlit("Fcl_MTH_Angry");
            assert(("Fcl_ALL_"@ + "Angry"@) =~= "Fcl_ALL_Angry"@);
            assert(("Fcl_MTH_"@ + "Angry"@) =~= "Fcl_MTH_Angry"@);
            assert("Fcl_ALL_Angry"@.subrange(8, 13) =~= "Angry"@);
            assert("Fcl_BRW_Angry"@.subrange(8, 13) =~= "Angry"@);
            assert("Fcl_EYE_Angry"@.subrange(8, 13) =~= "Angry"@);
            assert("Fcl_MTH_Angry"@.subrange(8, 13) =~= "Angry"@);
        },
        Emotion::Sorrow => {
            reveal_strlit("Sorrow");
            reveal_strlit("Fcl_ALL_Sorrow");
            reveal_strlit("Fcl_BRW_Sorrow");
            reveal_strlit("Fcl_EYE_Sorrow");
            reveal_strlit("Fcl_MTH_Sorrow");
            assert(("Fcl_ALL_"@ + "Sorrow"@) =~= "Fcl_ALL_Sorrow"@);
            assert(("Fcl_MTH_"@ + "Sorrow"@) =~= "Fcl_MTH_Sorrow"@);
            assert("Fcl_ALL_Sorrow"@.subrange(8, 14) =~= "Sorrow"@);
            assert("Fcl_BRW_Sorrow"@.subrange(8, 14) =~= "Sorrow"@);
            assert("Fcl_EYE_Sorrow"@.subrange(8, 14) =~= "Sorrow"@);
            assert("Fcl_MTH_Sorrow"@.subrange(8, 14) =~= "Sorrow"@);
        },
        Emotion::Surprised => {
            reveal_strlit("Surprised");
            reveal_strlit("Fcl_ALL_Surprised");
            reveal_strlit("Fcl_BRW_Surprised");
            reveal_strlit("Fcl_EYE_Surprised");
            reveal_strlit("Fcl_MTH_Surprised");
            assert(("Fcl_ALL_"@ + "Surprised"@) =~= "Fcl_ALL_Surprised"@);
            assert(("Fcl_MTH_"@ + "Surprised"@) =~= "Fcl_MTH_Surprised"@);
            assert("Fcl_ALL_Surprised"@.subrange(8, 17) =~= "Surprised"@);
            assert("Fcl_BRW_Surprised"@.subrange(8, 17) =~= "Surprised"@);
            assert("Fcl_EYE_Surprised"@.subrange(8, 17) =~= "Surprised"@);
            assert("Fcl_MTH_Surprised"@.subrange(8, 17) =~= "Surprised"@);
        },
        Emotion::Fun => {
            reveal_strlit("Fun");
            reveal_strlit("Fcl_ALL_Fun");
            reveal_strlit("Fcl_BRW_Fun");
            reveal_strlit("Fcl_EYE_Fun");
            reveal_strlit("Fcl_MTH_Fun");
            assert(("Fcl_ALL_"@ + "Fun"@) =~= "Fcl_ALL_Fun"@);
            assert(("Fcl_MTH_"@ + "Fun"@) =~= "Fcl_MTH_Fun"@);
            assert("Fcl_ALL_Fun"@.subrange(8, 11) =~= "Fun"@);
            assert("Fcl_BRW_Fun"@.subrange(8, 11) =~= "Fun"@);
            assert("Fcl_EYE_Fun"@.subrange(8, 11) =~= "Fun"@);
            assert("Fcl_MTH_Fun"@.subrange(8, 11) =~= "Fun"@);
        },
    }
}

proof fn lemma_ends_with_at(n: Seq<char>, t: Seq<char>, k: int)
    requires
        ends_with(n, t),
        0 < k <= t.len(),
    ensures
        n[n.len() - k] == t[t.len() - k],
{
    assert(n.subrange(n.len() - t.len(), n.len() as int)[t.len() - k] == n[n.len() - k]);
}

/// The last two characters that tell an emotion's morphs apart: the last two
/// of its name, or the name's last two before a side suffix.
proof fn lemma_morph_tail(n: Seq<char>, e: Emotion)
    requires
        ends_with(n, emotion_name(e)) || ends_with(n, emotion_name(e) + "_L"@) || ends_with(
            n,
            emotion_name(e) + "_R"@,
        ),
    ensures
        ({
            let m = emotion_name(e);
            (n[n.len() - 1] == m[m.len() - 1] && n[n.len() - 2] == m[m.len() - 2]) || (n[n.len()
                - 2] == '_' && n[n.len() - 3] == m[m.len() - 1] && n[n.len() - 4] == m[m.len() - 2])
        }),
{
    reveal_strlit("Joy");
    reveal_strlit("Angry");
    reveal_strlit("Sorrow");
    reveal_strlit("Surprised");
    reveal_strlit("Fun");
    reveal_strlit("_L");
    reveal_strlit("_R");
    let m = emotion_name(e);
    if ends_with(n, m) {
        lemma_ends_with_at(n, m, 1);
        lemma_ends_with_at(n, m, 2);
    } else {
        let t = if ends_with(n, m + "_L"@) { m + "_L"@ } else { m + "_R"@ };
        lemma_ends_with_at(n, t, 2);
        lemma_ends_with_at(n, t, 3);
        lemma_ends_with_at(n, t, 4);
    }
}

/// No two emotions drive the same morph.
pub proof fn law_emotions_share_no_morph(e1: Emotion, e2: Emotion, i: int, j: int)
    requires
        0 <= i < morph_table(e1).len(),
        0 <= j < morph_table(e2).len(),
        morph_table(e1)[i].0 == morph_table(e2)[j].0,
    ensures
        e1 == e2,
{
    law_emotion_drives_its_own_morphs(e1);
    law_emotion_drives_its_own_morphs(e2);
    reveal_strlit("Joy");
    reveal_strlit("Angry");
    reveal_strlit("Sorrow");
    reveal_strlit("Surprised");
    reveal_strlit("Fun");
    let n = morph_table(e1)[i].0;
    lemma_morph_tail(n, e1);
    lemma_morph_tail(n, e2);
}

/// Each vowel letter calls for the mouth shape of its own vowel, small or
/// ASCII capital: a, à, â for A; e, é, è, ê, ë for E; i, î, ï, y for I; u, û,
/// ü for U; o, ô for O. No other character calls for a mouth shape.
pub proof fn law_vowels_call_their_visemes(c: char)
    ensures
        viseme_of('a') == Some(Viseme::A) && viseme_of('A') == Some(Viseme::A),
        viseme_of('à') == Some(Viseme::A) && viseme_of('â') == Some(Viseme::A),
        viseme_of('e') == Some(Viseme::E) && viseme_of('E') == Some(Viseme::E),
        viseme_of('é') == Some(Viseme::E) && viseme_of('è') == Some(Viseme::E),
        viseme_of('ê') == Some(Viseme::E) && viseme_of('ë') == Some(Viseme::E),
        viseme_of('i') == Some(Viseme::I) && viseme_of('I') == Some(Viseme::I),
        viseme_of('î') == Some(Viseme::I) && viseme_of('ï') == Some(Viseme::I),
        viseme_of('y') == Some(Viseme::I) && viseme_of('Y') == Some(Viseme::I),
        viseme_of('u') == Some(Viseme::U) && viseme_of('U') == Some(Viseme::U),
        viseme_of('û') == Some(Viseme::U) && viseme_of('ü') == Some(Viseme::U),
        viseme_of('o') == Some(Viseme::O) && viseme_of('O') == Some(Viseme::O),
        viseme_of('ô') == Some(Viseme::O),
        viseme_of(c) is Some ==> c == 'a' || c == 'A' || c == 'à' || c == 'â' || c == 'e' || c
            == 'E' || c == 'é' || c == 'è' || c == 'ê' || c == 'ë' || c == 'i' || c == 'I' || c
            == 'î' || c == 'ï' || c == 'y' || c == 'Y' || c == 'u' || c == 'U' || c == 'û' || c
            == 'ü' || c == 'o' || c == 'O' || c == 'ô',
{
}

/// Each mouth shape has its own morph, named `Fcl_MTH_` and the capital of its
/// vowel; that last letter calls for the same mouth shape again.
pub proof fn law_viseme_morph_names(v: Viseme, w: Viseme)
    ensures
        viseme_morph(v).len() == 9,
        viseme_morph(v).subrange(0, 8) == "Fcl_MTH_"@,
        viseme_of(viseme_morph(v).last()) == Some(v),
        v != w ==> viseme_morph(v) != viseme_morph(w),
{
    reveal_strlit("Fcl_MTH_");
    reveal_strlit("Fcl_MTH_A");
    reveal_strlit("Fcl_MTH_I");
    reveal_strlit("Fcl_MTH_U");
    reveal_strlit("Fcl_MTH_E");
    reveal_strlit("Fcl_MTH_O");
    assert(viseme_morph(v).subrange(0, 8) =~= "Fcl_MTH_"@);
    if v != w {
        assert(viseme_morph(v).last() != viseme_morph(w).last());
    }
}

/// The total weight of a name in a table whose names are all different is the
/// weight of its entry, or nothing when it has none.
proof fn lemma_table_weight_distinct(t: Seq<(Seq<char>, u32)>, name: Seq<char>)
    requires
        forall|a: int, b: int| 0 <= a < b < t.len() ==> (#[trigger] t[a]).0 != (#[trigger] t[b]).0,
    ensures
        forall|i: int| 0 <= i < t.len() && (#[trigger] t[i]).0 == name ==> table_weight(t, name) == t[i].1,
        (forall|i: int| 0 <= i < t.len() ==> (#[trigger] t[i]).0 != name) ==> table_weight(t, name) == 0,
    decreases t.len(),
{
    if t.len() > 0 {
        let p = t.drop_last();
        assert forall|a: int, b: int| 0 <= a < b < p.len() implies (#[trigger] p[a]).0 != (#[trigger] p[b]).0 by {
            assert(p[a] == t[a] && p[b] == t[b]);
        }
        lemma_table_weight_distinct(p, name);
        assert forall|i: int| 0 <= i < t.len() && (#[trigger] t[i]).0 == name implies table_weight(t, name)
            == t[i].1 by {
            if i < p.len() {
                assert(p[i] == t[i]);
                assert(t.last().0 != name);
            } else {
                assert forall|k: int| 0 <= k < p.len() implies (#[trigger] p[k]).0 != name by {
                    assert(p[k] == t[k]);
                }
            }
        }
        if forall|i: int| 0 <= i < t.len() ==> (#[trigger] t[i]).0 != name {
            assert forall|k: int| 0 <= k < p.len() implies (#[trigger] p[k]).0 != name by {
                assert(p[k] == t[k]);
            }
            assert(t[t.len() - 1].0 != name);
        }
    }
}

/// Within one emotion every morph has its own name.
proof fn lemma_table_names_distinct(e: Emotion)
    ensures
        forall|a: int, b: int|
            0 <= a < b < morph_table(e).len() ==> (#[trigger] morph_table(e)[a]).0 != (
            #[trigger] morph_table(e)[b]).0,
{
    reveal_strlit("Fcl_ALL_Joy");
    reveal_strlit("Fcl_BRW_Joy");
    reveal_strlit("Fcl_EYE_Joy_L");
    reveal_strlit("Fcl_EYE_Joy_R");
    reveal_strlit("Fcl_MTH_Joy");
    reveal_strlit("Fcl_ALL_Angry");
    reveal_strlit("Fcl_BRW_Angry");
    reveal_strlit("Fcl_EYE_Angry");
    reveal_strlit("Fcl_MTH_Angry");
    reveal_strlit("Fcl_ALL_Sorrow");
    reveal_strlit("Fcl_BRW_Sorrow");
    reveal_strlit("Fcl_EYE_Sorrow");
    reveal_strlit("Fcl_MTH_Sorrow");
    reveal_strlit("Fcl_ALL_Surprised");
    reveal_strlit("Fcl_BRW_Surprised");
    reveal_strlit("Fcl_EYE_Surprised");
    reveal_strlit("Fcl_MTH_Surprised");
    reveal_strlit("Fcl_ALL_Fun");
    reveal_strlit("Fcl_BRW_Fun");
    reveal_strlit("Fcl_EYE_Fun");
    reveal_strlit("Fcl_MTH_Fun");
    assert forall|a: int, b: int|
        0 <= a < b < morph_table(e).len() implies (#[trigger] morph_table(e)[a]).0 != (
    #[trigger] morph_table(e)[b]).0 by {
        let x = morph_table(e)[a].0;
        let y = morph_table(e)[b].0;
        if x.len() == y.len() {
            assert(x[4] != y[4] || x[x.len() - 1] != y[y.len() - 1]);
        }
    }
}

/// How a morph's target is made up. The resting smile stays on the smile morph
/// whether or not a mouth shape is active; the active mouth shape drives its own
/// morph at the speech weight and leaves the other mouth-shape morphs at rest;
/// with no mouth shape, every other morph has no fixed part. The emotion adds to
/// each of its morphs exactly that morph's weight in its table, and nothing to
/// a morph it does not drive or when no emotion is shown.
pub proof fn law_target_parts(name: Seq<char>, v: Viseme, w: Viseme, e: Emotion, i: int)
    ensures
        base_weight(SMILE_MORPH@, Some(v)) == MICRO_SMILE,
        base_weight(SMILE_MORPH@, None) == MICRO_SMILE,
        base_weight(viseme_morph(v), Some(v)) == SPEECH_WEIGHT,
        v != w ==> base_weight(viseme_morph(w), Some(v)) == 0,
        name != SMILE_MORPH@ ==> base_weight(name, None) == 0,
        emotion_weight(name, None) == 0,
        0 <= i < morph_table(e).len() ==> emotion_weight(morph_table(e)[i].0, Some(e))
            == morph_table(e)[i].1,
        (forall|k: int| 0 <= k < morph_table(e).len() ==> (#[trigger] morph_table(e)[k]).0 != name)
            ==> emotion_weight(name, Some(e)) == 0,
{
    reveal_strlit("Fcl_MTH_Fun");
    reveal_strlit("Fcl_MTH_A");
    reveal_strlit("Fcl_MTH_I");
    reveal_strlit("Fcl_MTH_U");
    reveal_strlit("Fcl_MTH_E");
    reveal_strlit("Fcl_MTH_O");
    law_viseme_morph_names(v, w);
    assert(SMILE_MORPH@.len() != viseme_morph(v).len());
    lemma_table_names_distinct(e);
    lemma_table_weight_distinct(morph_table(e), name);
    if 0 <= i < morph_table(e).len() {
        lemma_table_weight_distinct(morph_table(e), morph_table(e)[i].0);
    }
}

/// A name made of `Fcl_` and a rest is a face morph exactly when the rest is
/// empty or does not end in `S`; no name ending in `S` is a face morph.
pub proof fn law_face_morph_names(rest: Seq<char>, n: Seq<char>)
    ensures
        is_face_morph("Fcl_"@ + rest) <==> rest.len() == 0 || rest.last() != 'S',
        n.len() > 0 && n.last() == 'S' ==> !is_face_morph(n),
{
    reveal_strlit("Fcl_");
    let m = "Fcl_"@ + rest;
    assert(m.subrange(0, 4) =~= "Fcl_"@);
    if rest.len() > 0 {
        assert(m.last() == rest.last());
    } else {
        assert(m =~= "Fcl_"@);
        assert(m.last() == '_');
    }
}

/// Every morph an emotion drives is a face morph, so it is among the morphs
/// picked from a model that has it, and its weight stays within the maximum.
pub proof fn law_emotion_morphs_are_face_morphs(e: Emotion)
    ensures
        forall|i: int|
            0 <= i < morph_table(e).len() ==> is_face_morph((#[trigger] morph_table(e)[i]).0)
                && morph_table(e)[i].1 <= MAX_WEIGHT,
{
    reveal_strlit("Fcl_");
    reveal_strlit("Fcl_ALL_Joy");
    reveal_strlit("Fcl_BRW_Joy");
    reveal_strlit("Fcl_EYE_Joy_L");
    reveal_strlit("Fcl_EYE_Joy_R");
    reveal_strlit("Fcl_MTH_Joy");
    reveal_strlit("Fcl_ALL_Angry");
    reveal_strlit("Fcl_BRW_Angry");
    reveal_strlit("Fcl_EYE_Angry");
    reveal_strlit("Fcl_MTH_Angry");
    reveal_strlit("Fcl_ALL_Sorrow");
    reveal_strlit("Fcl_BRW_Sorrow");
    reveal_strlit("Fcl_EYE_Sorrow");
    reveal_strlit("Fcl_MTH_Sorrow");
    reveal_strlit("Fcl_ALL_Surprised");
    reveal_strlit("Fcl_BRW_Surprised");
    reveal_strlit("Fcl_EYE_Surprised");
    reveal_strlit("Fcl_MTH_Surprised");
    reveal_strlit("Fcl_ALL_Fun");
    reveal_strlit("Fcl_BRW_Fun");
    reveal_strlit("Fcl_EYE_Fun");
    reveal_strlit("Fcl_MTH_Fun");
    assert forall|i: int| 0 <= i < morph_table(e).len() implies is_face_morph(
        (#[trigger] morph_table(e)[i]).0,
    ) && morph_table(e)[i].1 <= MAX_WEIGHT by {
        let n = morph_table(e)[i].0;
        assert(n.subrange(0, 4) =~= "Fcl_"@);
    }
}

/// Every viseme's morph is a face morph.
pub proof fn law_viseme_morphs_are_face_morphs(v: Viseme)
    ensures
        is_face_morph(viseme_morph(v)),
{
    reveal_strlit("Fcl_");
    reveal_strlit("Fcl_MTH_A");
    reveal_strlit("Fcl_MTH_I");
    reveal_strlit("Fcl_MTH_U");
    reveal_strlit("Fcl_MTH_E");
    reveal_strlit("Fcl_MTH_O");
    assert(viseme_morph(v).subrange(0, 4) =~= "Fcl_"@);
}

} // verus!
