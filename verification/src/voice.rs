//! Voice commands: wake-word detection in a transcript, extraction of the
//! command that follows it, the spoken reply, and the listening loop's decisions.
use vstd::prelude::*;
use crate::text::{chars_of, is_alphanumeric, occurs_in, push_char, same_chars, to_lowercase, trim};

verus! {

/// Milliseconds between two looks at the microphone.
pub const TICK_MS: u64 = 250;

/// Samples in the window that is checked for the wake word (2.5 s at 16 kHz).
pub const WINDOW_SAMPLES: usize = 40000;

/// Samples a listening session waits for after a lone wake word (2.5 s at 16 kHz).
pub const SESSION_SAMPLES: usize = 40000;

/// The wake word, in lower case.
pub open spec fn wake_word() -> Seq<char> {
    "camille"@
}

/// The word being read at the end of `s`: its trailing run of word characters.
pub open spec fn pending_word(s: Seq<char>) -> Seq<char>
    decreases s.len(),
{
    if s.len() == 0 {
        Seq::<char>::empty()
    } else if crate::text::word_char(s.last()) {
        pending_word(s.drop_last()).push(s.last())
    } else {
        Seq::<char>::empty()
    }
}

/// The words of `s` that a character outside words has already closed.
pub open spec fn closed_words(s: Seq<char>) -> Seq<Seq<char>>
    decreases s.len(),
{
    if s.len() == 0 {
        Seq::<Seq<char>>::empty()
    } else {
        let p = s.drop_last();
        if crate::text::word_char(s.last()) || pending_word(p).len() == 0 {
            closed_words(p)
        } else {
            closed_words(p).push(pending_word(p))
        }
    }
}

/// The words of `s`: its maximal non-empty runs of word characters, in order.
/// This is what splitting at every character that is not alphanumeric and dropping
/// the empty pieces gives.
pub open spec fn words(s: Seq<char>) -> Seq<Seq<char>> {
    if pending_word(s).len() == 0 {
        closed_words(s)
    } else {
        closed_words(s).push(pending_word(s))
    }
}

/// Reading `ws` in order: whether the wake word has been seen, and the words
/// after its first occurrence that are not the wake word themselves.
pub open spec fn command_state(ws: Seq<Seq<char>>) -> (bool, Seq<Seq<char>>)
    decreases ws.len(),
{
    if ws.len() == 0 {
        (false, Seq::<Seq<char>>::empty())
    } else {
        let prev = command_state(ws.drop_last());
        let w = ws.last();
        if w == wake_word() {
            (true, prev.1)
        } else if prev.0 {
            (true, prev.1.push(w))
        } else {
            prev
        }
    }
}

/// Words joined with single spaces.
pub open spec fn join_words(ws: Seq<Seq<char>>) -> Seq<char>
    decreases ws.len(),
{
    if ws.len() == 0 {
        Seq::<char>::empty()
    } else if ws.len() == 1 {
        ws[0]
    } else {
        join_words(ws.drop_last()) + seq![' '] + ws.last()
    }
}

/// The command in a list of words: absent without the wake word, else the words
/// after it (other occurrences of the wake word left out) joined by spaces.
pub open spec fn command_of(ws: Seq<Seq<char>>) -> Option<Seq<char>> {
    if command_state(ws).0 {
        Some(join_words(command_state(ws).1))
    } else {
        None
    }
}

/// The text of an optional string.
pub open spec fn opt_view(o: Option<String>) -> Option<Seq<char>> {
    match o {
        Some(s) => Some(s@),
        None => None,
    }
}

/// The reply to a command that has already been trimmed.
pub open spec fn reply_for_trimmed(t: Seq<char>) -> Seq<char> {
    if t.len() == 0 {
        "Oui, je vous écoute."@
    } else if crate::text::occurs("bonjour"@, t) || crate::text::occurs("salut"@, t) {
        "Bonjour ! Ravi de vous voir."@
    } else {
        "Vous avez dit : "@ + t + ". J'en prends note."@
    }
}

/// The reply to a command.
pub open spec fn reply_to(command: Seq<char>) -> Seq<char> {
    reply_for_trimmed(crate::text::trimmed(command))
}

/// The texts of a list of character vectors.
pub open spec fn views(ws: Seq<Vec<char>>) -> Seq<Seq<char>> {
    ws.map_values(|w: Vec<char>| w@)
}

/// The words of an (already lowercased) text, each a vector of characters.
pub fn words_of(text: &str) -> (r: Vec<Vec<char>>)
    ensures
        views(r@) == words(text@),
{
    let cs = chars_of(text);
    let mut done: Vec<Vec<char>> = Vec::new();
    let mut cur: Vec<char> = Vec::new();
    let mut i: usize = 0;
    proof {
        assert(cs@.take(0) =~= Seq::<char>::empty());
    }
    while i < cs.len()
        invariant
            cs@ == text@,
            i <= cs@.len(),
            views(done@) == closed_words(cs@.take(i as int)),
            cur@ == pending_word(cs@.take(i as int)),
        decreases cs@.len() - i,
    {
        let c = cs[i];
        proof {
            assert(cs@.take(i + 1).drop_last() =~= cs@.take(i as int));
            assert(cs@.take(i + 1).last() == c);
        }
        if is_alphanumeric(c) {
            cur.push(c);
        } else if cur.len() > 0 {
            let ghost before = views(done@);
            done.push(cur);
            cur = Vec::new();
            proof {
                assert(views(done@) =~= before.push(pending_word(cs@.take(i as int))));
            }
        } else {
            cur = Vec::new();
        }
        proof {
            assert(cur@ =~= pending_word(cs@.take(i + 1)));
        }
        i = i + 1;
    }
    proof {
        assert(cs@.take(cs@.len() as int) =~= cs@);
    }
    if cur.len() > 0 {
        let ghost before = views(done@);
        done.push(cur);
        proof {
            assert(views(done@) =~= before.push(pending_word(text@)));
        }
    }
    done
}

/// The wake word as a vector of characters.
fn wake_chars() -> (r: Vec<char>)
    ensures
        r@ == wake_word(),
{
    chars_of("camille")
}

/// Whether a list of words holds the wake word.
pub fn has_wake(ws: &Vec<Vec<char>>) -> (r: bool)
    ensures
        r == views(ws@).contains(wake_word()),
{
    let wake = wake_chars();
    let mut i: usize = 0;
    while i < ws.len()
        invariant
            wake@ == wake_word(),
            i <= ws@.len(),
            forall|k: int| 0 <= k < i ==> views(ws@)[k] != wake_word(),
        decreases ws@.len() - i,
    {
        if same_chars(&ws[i], &wake) {
            assert(views(ws@)[i as int] == wake_word());
            return true;
        }
        i = i + 1;
    }
    false
}

/// Appends the characters of `w` to `out`.
fn append_chars(out: &mut String, w: &Vec<char>)
    ensures
        final(out)@ == old(out)@ + w@,
{
    let mut j: usize = 0;
    let ghost start = out@;
    while j < w.len()
        invariant
            j <= w@.len(),
            out@ == start + w@.take(j as int),
        decreases w@.len() - j,
    {
        push_char(out, w[j]);
        proof {
            assert(start + w@.take(j + 1) =~= (start + w@.take(j as int)).push(w@[j as int]));
        }
        j = j + 1;
    }
    proof {
        assert(w@.take(w@.len() as int) =~= w@);
    }
}

/// The command in a list of words: `None` without the wake word, else the words
/// after its first occurrence, other occurrences left out, joined by spaces.
pub fn command_words(ws: &Vec<Vec<char>>) -> (r: Option<String>)
    ensures
        opt_view(r) == command_of(views(ws@)),
{
    let wake = wake_chars();
    let mut seen = false;
    let mut out = String::new();
    let mut count: usize = 0;
    let mut i: usize = 0;
    proof {
        assert(views(ws@).take(0) =~= Seq::<Seq<char>>::empty());
    }
    while i < ws.len()
        invariant
            wake@ == wake_word(),
            i <= ws@.len(),
            seen == command_state(views(ws@).take(i as int)).0,
            out@ == join_words(command_state(views(ws@).take(i as int)).1),
            count == command_state(views(ws@).take(i as int)).1.len(),
            count <= i,
        decreases ws@.len() - i,
    {
        let ghost prefix = views(ws@).take(i as int);
        let ghost next = views(ws@).take(i + 1);
        proof {
            assert(next.drop_last() =~= prefix);
            assert(next.last() == views(ws@)[i as int]);
        }
        let w = &ws[i];
        if same_chars(w, &wake) {
            seen = true;
        } else if seen {
            let ghost parts = command_state(prefix).1;
            if count > 0 {
                push_char(&mut out, ' ');
            }
            append_chars(&mut out, w);
            proof {
                assert(parts.push(w@).drop_last() =~= parts);
                if count > 0 {
                    assert(join_words(parts.push(w@)) == join_words(parts) + seq![' '] + w@);
                } else {
                    assert(join_words(parts.push(w@)) == w@);
                    assert(out@ =~= w@);
                }
            }
            count = count + 1;
        }
        i = i + 1;
    }
    proof {
        assert(views(ws@).take(ws@.len() as int) =~= views(ws@));
    }
    if seen {
        Some(out)
    } else {
        None
    }
}

/// Whether the wake word is among the words of a transcript, compared in lower
/// case.
pub fn contains_wake(text: &str) -> (r: bool)
    ensures
        r == words(crate::text::lower_text(text@)).contains(wake_word()),
{
    let lower = to_lowercase(text);
    let ws = words_of(lower.as_str());
    has_wake(&ws)
}

/// The command that follows the wake word in a transcript, compared in lower
/// case: `None` when the wake word is absent.
pub fn command_from(text: &str) -> (r: Option<String>)
    ensures
        opt_view(r) == command_of(words(crate::text::lower_text(text@))),
{
    let lower = to_lowercase(text);
    let ws = words_of(lower.as_str());
    command_words(&ws)
}

/// The reply to a command that has already been trimmed.
pub fn reply_for(t: &str) -> (r: String)
    ensures
        r@ == reply_for_trimmed(t@),
{
    let cs = chars_of(t);
    if cs.len() == 0 {
        return "Oui, je vous écoute.".to_string();
    }
    let hello = chars_of("bonjour");
    let hi = chars_of("salut");
    if occurs_in(&hello, &cs) || occurs_in(&hi, &cs) {
        "Bonjour ! Ravi de vous voir.".to_string()
    } else {
        let mut s = "Vous avez dit : ".to_string();
        s.append(t);
        s.append(". J'en prends note.");
        s
    }
}

/// The spoken reply to a command: the command is trimmed; an empty one gets an
/// acknowledgement, a greeting gets a greeting, anything else is repeated back.
pub fn brain(command: &str) -> (r: String)
    ensures
        r@ == reply_to(command@),
{
    let c = trim(command);
    reply_for(c.as_str())
}

/// A list of words yields a command exactly when it holds the wake word.
pub proof fn law_command_iff_wake(ws: Seq<Seq<char>>)
    ensures
        command_of(ws) is Some <==> ws.contains(wake_word()),
    decreases ws.len(),
{
    if ws.len() > 0 {
        law_command_iff_wake(ws.drop_last());
        let p = ws.drop_last();
        if p.contains(wake_word()) {
            let k = choose|k: int| 0 <= k < p.len() && p[k] == wake_word();
            assert(ws[k] == wake_word());
        }
        if ws.contains(wake_word()) && ws.last() != wake_word() {
            let k = choose|k: int| 0 <= k < ws.len() && ws[k] == wake_word();
            assert(k < ws.len() - 1);
            assert(p[k] == wake_word());
        }
    }
}

/// A transcript has the wake word exactly when a command is read from it: what
/// `contains_wake` answers is what `command_from` answers by `Some`.
pub proof fn law_contains_wake_iff_command(text: Seq<char>)
    ensures
        words(crate::text::lower_text(text)).contains(wake_word()) <==> command_of(
            words(crate::text::lower_text(text)),
        ) is Some,
{
    law_command_iff_wake(words(crate::text::lower_text(text)));
}

/// The words of a command are words of the transcript and none of them is the
/// wake word.
pub proof fn law_command_words_are_not_wake(ws: Seq<Seq<char>>)
    ensures
        forall|k: int|
            0 <= k < command_state(ws).1.len() ==> #[trigger] command_state(ws).1[k]
                != wake_word() && ws.contains(command_state(ws).1[k]),
    decreases ws.len(),
{
    if ws.len() > 0 {
        let p = ws.drop_last();
        law_command_words_are_not_wake(p);
        assert forall|k: int| 0 <= k < command_state(ws).1.len() implies #[trigger] command_state(ws).1[k]
            != wake_word() && ws.contains(command_state(ws).1[k]) by {
            if k < command_state(p).1.len() {
                let j = choose|j: int| 0 <= j < p.len() && p[j] == command_state(p).1[k];
                assert(ws[j] == p[j]);
            } else {
                assert(ws[ws.len() - 1] == ws.last());
            }
        }
    }
}

/// Every word is non-empty and made of word characters only.
pub proof fn law_words_are_alphanumeric(s: Seq<char>)
    ensures
        forall|k: int|
            0 <= k < words(s).len() ==> #[trigger] words(s)[k].len() > 0 && forall|j: int|
                0 <= j < words(s)[k].len() ==> crate::text::word_char(words(s)[k][j]),
{
    lemma_pending_alphanumeric(s);
    lemma_closed_alphanumeric(s);
}

proof fn lemma_pending_alphanumeric(s: Seq<char>)
    ensures
        forall|j: int|
            0 <= j < pending_word(s).len() ==> crate::text::word_char(#[trigger] pending_word(s)[j]),
    decreases s.len(),
{
    if s.len() > 0 {
        let p = s.drop_last();
        lemma_pending_alphanumeric(p);
        if crate::text::word_char(s.last()) {
            assert forall|j: int| 0 <= j < pending_word(s).len() implies crate::text::word_char(
                #[trigger] pending_word(s)[j],
            ) by {
                if j < pending_word(p).len() {
                    assert(pending_word(s)[j] == pending_word(p)[j]);
                }
            }
        }
    }
}

proof fn lemma_closed_alphanumeric(s: Seq<char>)
    ensures
        forall|k: int|
            0 <= k < closed_words(s).len() ==> #[trigger] closed_words(s)[k].len() > 0 && forall|j: int|
                0 <= j < closed_words(s)[k].len() ==> crate::text::word_char(closed_words(s)[k][j]),
    decreases s.len(),
{
    if s.len() > 0 {
        let p = s.drop_last();
        lemma_closed_alphanumeric(p);
        lemma_pending_alphanumeric(p);
        if !(crate::text::word_char(s.last()) || pending_word(p).len() == 0) {
            assert forall|k: int| 0 <= k < closed_words(s).len() implies #[trigger] closed_words(s)[k].len()
                > 0 && forall|j: int|
                0 <= j < closed_words(s)[k].len() ==> crate::text::word_char(closed_words(s)[k][j]) by {
                if k < closed_words(p).len() {
                    assert(closed_words(s)[k] == closed_words(p)[k]);
                } else {
                    assert(closed_words(s)[k] == pending_word(p));
                    assert forall|j: int| 0 <= j < pending_word(p).len() implies crate::text::word_char(
                        pending_word(p)[j],
                    ) by {
                        assert(crate::text::word_char(pending_word(p)[j]));
                    }
                }
            }
        }
    }
}

/// What the listening loop does with a transcript of the sound window.
pub enum Heard {
    /// The wake word is not in it: keep listening.
    NoWake,
    /// The wake word came with a command: say this reply.
    Reply(String),
    /// The wake word came alone: listen on for the command.
    OpenSession,
}

/// Whether the sound window is worth transcribing: capture has started, nothing
/// is being said, the window holds samples and it is loud enough.
pub fn should_transcribe(mic_started: bool, speaking: bool, window_len: usize, loud: bool) -> (r: bool)
    ensures
        r == (mic_started && !speaking && window_len > 0 && loud),
{
    mic_started && !speaking && window_len > 0 && loud
}

/// Decides what a transcript of the sound window calls for.
pub fn on_transcript(text: &str) -> (r: Heard)
    ensures
        ({
            let ws = words(crate::text::lower_text(text@));
            let c = join_words(command_state(ws).1);
            match r {
                Heard::NoWake => !ws.contains(wake_word()),
                Heard::Reply(s) => ws.contains(wake_word()) && crate::text::trimmed(c).len() > 0
                    && s@ == reply_to(c),
                Heard::OpenSession => ws.contains(wake_word()) && crate::text::trimmed(c).len()
                    == 0,
            }
        }),
{
    proof {
        law_contains_wake_iff_command(text@);
    }
    if !contains_wake(text) {
        return Heard::NoWake;
    }
    match command_from(text) {
        Some(c) => {
            if !trim(c.as_str()).as_str().is_empty() {
                Heard::Reply(brain(c.as_str()))
            } else {
                Heard::OpenSession
            }
        },
        None => Heard::OpenSession,
    }
}

/// Decides what one tick of the listening loop calls for, from the state of the
/// microphone and speaker, the window's size and loudness, and the window's
/// transcript when there is one: nothing unless the window is worth
/// transcribing and a transcript is there, else what the transcript calls for. So a reply or a session only ever follows a transcript
/// that holds the wake word, heard while nothing was being said.
pub fn heard_in_tick(
    mic_started: bool,
    speaking: bool,
    window_len: usize,
    loud: bool,
    transcript: Option<&str>,
) -> (r: Heard)
    ensures
        !(r is NoWake) ==> mic_started && !speaking && window_len > 0 && loud && transcript is Some
            && words(crate::text::lower_text(transcript->0@)).contains(wake_word()),
        (mic_started && !speaking && window_len > 0 && loud && transcript is Some) ==> ({
            let ws = words(crate::text::lower_text(transcript->0@));
            let c = join_words(command_state(ws).1);
            match r {
                Heard::NoWake => !ws.contains(wake_word()),
                Heard::Reply(s) => ws.contains(wake_word()) && crate::text::trimmed(c).len() > 0
                    && s@ == reply_to(c),
                Heard::OpenSession => ws.contains(wake_word()) && crate::text::trimmed(c).len()
                    == 0,
            }
        }),
{
    if !should_transcribe(mic_started, speaking, window_len, loud) {
        return Heard::NoWake;
    }
    match transcript {
        Some(t) => on_transcript(t),
        None => Heard::NoWake,
    }
}

/// Whether a listening session is over: something is being said, or enough
/// samples were collected since it opened.
pub fn session_over(speaking: bool, collected: usize) -> (r: bool)
    ensures
        r == (speaking || collected >= SESSION_SAMPLES),
{
    speaking || collected >= SESSION_SAMPLES
}

/// The command heard in a listening session: the words after the wake word
/// when the transcript repeats it, else all the transcript's words, joined by
/// spaces; empty when nothing was transcribed.
pub open spec fn session_command(transcript: Option<Seq<char>>) -> Seq<char> {
    match transcript {
        Some(t) => match command_of(words(crate::text::lower_text(t))) {
            Some(c) => c,
            None => join_words(words(crate::text::lower_text(t))),
        },
        None => Seq::<char>::empty(),
    }
}

/// All the words of a list joined by single spaces.
pub fn join_all(ws: &Vec<Vec<char>>) -> (r: String)
    ensures
        r@ == join_words(views(ws@)),
{
    let mut out = String::new();
    let mut i: usize = 0;
    proof {
        assert(views(ws@).take(0) =~= Seq::<Seq<char>>::empty());
    }
    while i < ws.len()
        invariant
            i <= ws@.len(),
            out@ == join_words(views(ws@).take(i as int)),
        decreases ws@.len() - i,
    {
        let ghost prefix = views(ws@).take(i as int);
        let ghost next = views(ws@).take(i + 1);
        proof {
            assert(next.drop_last() =~= prefix);
            assert(next.last() == ws@[i as int]@);
        }
        if i > 0 {
            push_char(&mut out, ' ');
        }
        append_chars(&mut out, &ws[i]);
        proof {
            if i == 0 {
                assert(out@ =~= next[0]);
            }
        }
        i = i + 1;
    }
    proof {
        assert(views(ws@).take(ws@.len() as int) =~= views(ws@));
    }
    out
}

/// The reply at the end of a listening session: the reply to the command heard
/// in it.
pub fn session_reply(transcript: Option<&str>) -> (r: String)
    ensures
        r@ == reply_to(
            session_command(
                match transcript {
                    Some(t) => Some(t@),
                    None => None,
                },
            ),
        ),
{
    let cmd = match transcript {
        Some(t) => {
            let lower = to_lowercase(t);
            let ws = words_of(lower.as_str());
            match command_words(&ws) {
                Some(c) => c,
                None => join_all(&ws),
            }
        },
        None => String::new(),
    };
    brain(cmd.as_str())
}

/// Surrounding white space does not change a reply, and a reply is never empty;
/// a command that is not blank and holds no greeting is repeated back trimmed.
pub proof fn law_reply_ignores_surrounding_space(command: Seq<char>)
    ensures
        reply_to(crate::text::trimmed(command)) == reply_to(command),
        reply_to(command).len() > 0,
        crate::text::trimmed(command).len() > 0 && !crate::text::occurs("bonjour"@, crate::text::trimmed(command))
            && !crate::text::occurs("salut"@, crate::text::trimmed(command)) ==> reply_to(command)
            == "Vous avez dit : "@ + crate::text::trimmed(command) + ". J'en prends note."@,
{
    crate::text::law_trim_idempotent(command);
    reveal_strlit("Oui, je vous écoute.");
    reveal_strlit("Bonjour ! Ravi de vous voir.");
    reveal_strlit("Vous avez dit : ");
}

/// A command that is blank once trimmed gets the acknowledgement, and a
/// non-blank one in which `bonjour` or `salut` occurs anywhere gets the
/// greeting, whatever else it says.
pub proof fn law_blank_and_greeting_replies(command: Seq<char>)
    ensures
        crate::text::trimmed(command).len() == 0 ==> reply_to(command) == "Oui, je vous écoute."@,
        crate::text::trimmed(command).len() > 0 && (crate::text::occurs("bonjour"@, crate::text::trimmed(command))
            || crate::text::occurs("salut"@, crate::text::trimmed(command))) ==> reply_to(command)
            == "Bonjour ! Ravi de vous voir."@,
{
}

proof fn lemma_no_wake_no_command(ws: Seq<Seq<char>>)
    requires
        forall|j: int| 0 <= j < ws.len() ==> ws[j] != wake_word(),
    ensures
        command_state(ws) == (false, Seq::<Seq<char>>::empty()),
    decreases ws.len(),
{
    if ws.len() > 0 {
        let p = ws.drop_last();
        assert forall|j: int| 0 <= j < p.len() implies p[j] != wake_word() by {
            assert(p[j] == ws[j]);
        }
        lemma_no_wake_no_command(p);
        assert(ws[ws.len() - 1] != wake_word());
    }
}

/// The command is exactly the words that follow the first wake word, with
/// every later wake word left out: nothing said before the wake word counts.
pub proof fn law_command_follows_first_wake(ws: Seq<Seq<char>>, k: int)
    requires
        0 <= k < ws.len(),
        ws[k] == wake_word(),
        forall|j: int| 0 <= j < k ==> ws[j] != wake_word(),
    ensures
        command_state(ws).0,
        command_state(ws).1 == ws.subrange(k + 1, ws.len() as int).filter(
            |w: Seq<char>| w != wake_word(),
        ),
    decreases ws.len(),
{
    reveal(Seq::filter);
    let f = |w: Seq<char>| w != wake_word();
    let p = ws.drop_last();
    if k == ws.len() - 1 {
        assert forall|j: int| 0 <= j < p.len() implies p[j] != wake_word() by {
            assert(p[j] == ws[j]);
        }
        lemma_no_wake_no_command(p);
        assert(ws.subrange(k + 1, ws.len() as int) =~= Seq::<Seq<char>>::empty());
    } else {
        assert(p[k] == ws[k]);
        assert forall|j: int| 0 <= j < k implies p[j] != wake_word() by {
            assert(p[j] == ws[j]);
        }
        law_command_follows_first_wake(p, k);
        let tail = ws.subrange(k + 1, ws.len() as int);
        assert(tail.drop_last() =~= p.subrange(k + 1, p.len() as int));
        assert(tail.last() == ws.last());
    }
}

} // verus!
