//! What a dialogue shows and decides, said of its lines, notes and calls.

use vstd::prelude::*;
use crate::dialogue;
use crate::dialogue::{ApiToolCall, DialogueArgs, Message, MessageRole, Turn, VerdictView};
use crate::i18n::Locale;
use crate::json;
use crate::json::JsonView;
use crate::text;

verus! {

// ---------- the director's notes ----------

/// The system message that a persona is sent.
pub open spec fn system_sent(
    persona: Seq<char>,
    notes: Seq<String>,
    one_shot: Option<&str>,
    prefix: Seq<char>,
) -> Seq<char> {
    dialogue::with_notes(persona, dialogue::all_notes(notes, one_shot), prefix)
}

/// Every note reaches the persona, whether or not there is one for this turn alone:
/// without notes the message is the persona's own; one standing note more comes behind
/// what was there; and the note for this turn comes behind all standing ones. Each has a
/// paragraph of its own, with the prefix before it.
pub proof fn one_note_more_is_sent(
    persona: Seq<char>,
    notes: Seq<String>,
    note: String,
    one_shot: &str,
    prefix: Seq<char>,
)
    ensures
        system_sent(persona, Seq::empty(), None, prefix) == persona,
        system_sent(persona, notes.push(note), None, prefix) == system_sent(
            persona,
            notes,
            None,
            prefix,
        ) + "\n\n"@ + prefix + " "@ + note@,
        system_sent(persona, notes, Some(one_shot), prefix) == system_sent(
            persona,
            notes,
            None,
            prefix,
        ) + "\n\n"@ + prefix + " "@ + one_shot@,
{
    assert(text::views(Seq::<String>::empty()) =~= Seq::<Seq<char>>::empty());
    assert(text::views(notes.push(note)) =~= text::views(notes).push(note@));
    assert(text::views(notes).push(note@).drop_last() =~= text::views(notes));
    assert(text::views(notes).push(one_shot@).drop_last() =~= text::views(notes));
}

/// Each standing note is in the message, behind the prefix, at every turn.
pub proof fn a_standing_note_is_sent_every_turn(
    persona: Seq<char>,
    notes: Seq<String>,
    i: int,
    one_shot: Option<&str>,
    prefix: Seq<char>,
)
    requires
        0 <= i < notes.len(),
    ensures
        exists|at: int| #[trigger]
            text::stands_at(
                system_sent(persona, notes, one_shot, prefix),
                prefix + " "@ + notes[i]@,
                at,
            ) && at > persona.len(),
        persona.is_prefix_of(system_sent(persona, notes, one_shot, prefix)),
{
    let all = dialogue::all_notes(notes, one_shot);
    assert(all[i] == text::views(notes)[i]);
    assert(all[i] == notes[i]@);
    note_stands(persona, all, i, prefix);
    let sent = system_sent(persona, notes, one_shot, prefix);
    let at = choose|at: int| #[trigger]
        text::stands_at(sent, prefix + " "@ + all[i], at) && at > persona.len();
    assert(text::stands_at(sent, prefix + " "@ + notes[i]@, at));
}

proof fn note_stands(persona: Seq<char>, all: Seq<Seq<char>>, i: int, prefix: Seq<char>)
    requires
        0 <= i < all.len(),
    ensures
        exists|at: int| #[trigger]
            text::stands_at(dialogue::with_notes(persona, all, prefix), prefix + " "@ + all[i], at)
                && at > persona.len(),
        persona.is_prefix_of(dialogue::with_notes(persona, all, prefix)),
    decreases all.len(),
{
    let t = all.drop_last();
    let before = dialogue::with_notes(persona, t, prefix);
    let now = dialogue::with_notes(persona, all, prefix);
    let pat = prefix + " "@ + all[i];
    reveal_strlit("\n\n");
    if i < t.len() {
        note_stands(persona, t, i, prefix);
        let at = choose|at: int| #[trigger]
            text::stands_at(before, prefix + " "@ + t[i], at) && at > persona.len();
        assert(now.subrange(at, at + pat.len()) =~= before.subrange(at, at + pat.len()));
        assert(text::stands_at(now, pat, at));
    } else {
        persona_comes_first(persona, t, prefix);
        let at = before.len() as int + 2;
        assert(now =~= before + "\n\n"@ + pat);
        assert(now.subrange(at, at + pat.len()) =~= pat);
        assert(text::stands_at(now, pat, at));
    }
    persona_comes_first(persona, all, prefix);
}

proof fn persona_comes_first(persona: Seq<char>, all: Seq<Seq<char>>, prefix: Seq<char>)
    ensures
        persona.is_prefix_of(dialogue::with_notes(persona, all, prefix)),
    decreases all.len(),
{
    if all.len() > 0 {
        persona_comes_first(persona, all.drop_last(), prefix);
        let before = dialogue::with_notes(persona, all.drop_last(), prefix);
        let now = dialogue::with_notes(persona, all, prefix);
        assert(now.subrange(0, persona.len() as int) =~= before.subrange(0, persona.len() as int));
    }
}

// ---------- the lines ----------

proof fn spoken_by_one(m: Message, speaker_a: bool)
    requires
        m.role != MessageRole::System,
    ensures
        dialogue::spoken(seq![m], speaker_a) == seq![
            Turn { own: (m.role == MessageRole::Assistant) == speaker_a, text: m.text@ },
        ],
{
    reveal_with_fuel(dialogue::spoken, 2);
    assert(seq![m].drop_last() =~= Seq::<Message>::empty());
    assert(dialogue::spoken(seq![m], speaker_a) =~= seq![
        Turn { own: (m.role == MessageRole::Assistant) == speaker_a, text: m.text@ },
    ]);
}

/// Before anybody spoke, a view is the scene, where there is one.
pub proof fn a_view_begins_with_the_scene(speaker_a: bool, scene: Seq<char>, begins: Seq<char>)
    ensures
        dialogue::view_of(Seq::empty(), speaker_a, None, begins) == Seq::<Turn>::empty(),
        dialogue::view_of(Seq::empty(), speaker_a, Some(scene), begins) == seq![
            Turn { own: false, text: scene },
        ],
{
}

/// The first line as each side hears it: the one who spoke it has a word that the
/// dialogue begins before its own line, or the scene; the other one has the line, behind
/// the scene where there is one. The first persona's lines are the assistant's.
pub proof fn the_first_line_is_heard(
    m: Message,
    speaker_a: bool,
    scene: Seq<char>,
    begins: Seq<char>,
)
    requires
        m.role != MessageRole::System,
    ensures
        ({
            let own = speaker_a && m.role == MessageRole::Assistant || !speaker_a && m.role
                == MessageRole::User;
            &&& dialogue::view_of(seq![m], speaker_a, None, begins) == if own {
                seq![Turn { own: false, text: begins }, Turn { own: true, text: m.text@ }]
            } else {
                seq![Turn { own: false, text: m.text@ }]
            }
            &&& dialogue::view_of(seq![m], speaker_a, Some(scene), begins) == if own {
                seq![Turn { own: false, text: scene }, Turn { own: true, text: m.text@ }]
            } else {
                seq![Turn { own: false, text: scene + "\n\n"@ + m.text@ }]
            }
        }),
{
    spoken_by_one(m, speaker_a);
    let lines = dialogue::spoken(seq![m], speaker_a);
    reveal_with_fuel(dialogue::with_lines, 2);
    assert(lines.drop_last() =~= Seq::<Turn>::empty());
    let own = speaker_a && m.role == MessageRole::Assistant || !speaker_a && m.role
        == MessageRole::User;
    assert(lines[0].own == own);
    let v = dialogue::view_of(seq![m], speaker_a, None, begins);
    let w = dialogue::view_of(seq![m], speaker_a, Some(scene), begins);
    assert(v =~= if own {
        seq![Turn { own: false, text: begins }, Turn { own: true, text: m.text@ }]
    } else {
        seq![Turn { own: false, text: m.text@ }]
    });
    assert(w =~= if own {
        seq![Turn { own: false, text: scene }, Turn { own: true, text: m.text@ }]
    } else {
        seq![Turn { own: false, text: scene + "\n\n"@ + m.text@ }]
    });
}

/// Every line is heard, in its order and by both sides: with one line more, a view of a
/// dialogue that has begun is what it was, with the line behind it; as a turn of its
/// own, or in a new paragraph of the last one where that is the same side's.
pub proof fn one_line_more_is_heard(
    transcript: Seq<Message>,
    m: Message,
    speaker_a: bool,
    scene: Option<Seq<char>>,
    begins: Seq<char>,
)
    requires
        m.role != MessageRole::System,
        exists|i: int|
            0 <= i < transcript.len() && (#[trigger] transcript[i]).role != MessageRole::System,
    ensures
        ({
            let before = dialogue::view_of(transcript, speaker_a, scene, begins);
            let after = dialogue::view_of(transcript.push(m), speaker_a, scene, begins);
            let own = speaker_a && m.role == MessageRole::Assistant || !speaker_a && m.role
                == MessageRole::User;
            let n = before.len() - 1;
            &&& n >= 0
            &&& before[n].own != own ==> after == before.push(Turn { own, text: m.text@ })
            &&& before[n].own == own ==> after == before.update(
                n,
                Turn { own, text: before[n].text + "\n\n"@ + m.text@ },
            )
        }),
{
    let lines = dialogue::spoken(transcript, speaker_a);
    let more = dialogue::spoken(transcript.push(m), speaker_a);
    assert(transcript.push(m).drop_last() =~= transcript);
    something_was_spoken(transcript, speaker_a);
    assert(more.drop_last() =~= lines);
    assert(more[0] == lines[0]);
    let before = dialogue::view_of(transcript, speaker_a, scene, begins);
    let opened = dialogue::prologue(lines, scene, begins);
    turns_are_left(opened, lines);
    let own = (m.role == MessageRole::Assistant) == speaker_a;
    let n = before.len() - 1;
    let after = dialogue::with_line(before, Turn { own, text: m.text@ });
    if before[n].own == own {
        assert(after =~= before.update(
            n,
            Turn { own, text: before[n].text + "\n\n"@ + m.text@ },
        ));
    }
}

proof fn something_was_spoken(transcript: Seq<Message>, speaker_a: bool)
    requires
        exists|i: int|
            0 <= i < transcript.len() && (#[trigger] transcript[i]).role != MessageRole::System,
    ensures
        dialogue::spoken(transcript, speaker_a).len() > 0,
    decreases transcript.len(),
{
    let t = transcript.drop_last();
    if transcript.last().role == MessageRole::System {
        let i = choose|i: int|
            0 <= i < transcript.len() && (#[trigger] transcript[i]).role != MessageRole::System;
        assert(t[i] == transcript[i]);
        something_was_spoken(t, speaker_a);
    }
}

proof fn turns_are_left(turns: Seq<Turn>, lines: Seq<Turn>)
    ensures
        lines.len() > 0 ==> dialogue::with_lines(turns, lines).len() > 0,
    decreases lines.len(),
{
    if lines.len() > 0 {
        turns_are_left(turns, lines.drop_last());
    }
}

/// Nobody's turn it is before the first line.
pub proof fn nobody_begins()
    ensures
        dialogue::next_is_a(Seq::empty()) is None,
{
}

// ---------- what a call asks for ----------

/// A dialogue has between two and 64 messages, 16 where nothing is said, and is looked
/// at after every one to eight of them, two where nothing is said. A number within the
/// bounds is kept.
pub proof fn a_dialogue_is_bounded(d: DialogueArgs, args: JsonView)
    requires
        d.is_read_from(args),
    ensures
        2 <= d.max_messages <= 64,
        1 <= d.moderate_every <= 8,
        args.uint_at("max_messages"@) is None ==> d.max_messages == 16,
        args.uint_at("moderate_every"@) is None ==> d.moderate_every == 2,
        args.uint_at("max_messages"@) matches Some(n) ==> {
            &&& 2 <= n <= 64 ==> d.max_messages == n
            &&& n < 2 ==> d.max_messages == 2
            &&& n > 64 ==> d.max_messages == 64
        },
        args.uint_at("moderate_every"@) matches Some(n) ==> {
            &&& 1 <= n <= 8 ==> d.moderate_every == n
            &&& n < 1 ==> d.moderate_every == 1
            &&& n > 8 ==> d.moderate_every == 8
        },
{
}

/// Both personas have a system message, each its own, and the dialogue an opening line,
/// all without margins; the first persona speaks it unless the call says the second.
pub proof fn a_dialogue_has_two_sides(d: DialogueArgs, args: JsonView)
    requires
        d.is_read_from(args),
    ensures
        d.a.system_message@.len() > 0 && d.b.system_message@.len() > 0 && d.opening@.len() > 0,
        args.field("a"@) matches Some(a) && (a.str_at("system_message"@) matches Some(s)
            && d.a.system_message@ == text::trimmed(s)),
        args.field("b"@) matches Some(b) && (b.str_at("system_message"@) matches Some(s)
            && d.b.system_message@ == text::trimmed(s)),
        args.field("opening"@) matches Some(o) && (o.str_at("text"@) matches Some(s)
            && d.opening@ == text::trimmed(s)) && (d.opening_by_a <==> !(o.str_at(
            "speaker"@,
        ) matches Some(w) && text::trimmed(w) == "b"@)),
        d.a.name matches Some(n) ==> (args.field("a"@)->0.str_at("name"@) matches Some(s) && n@
            == text::trimmed(s) && n@.len() > 0),
        d.b.name matches Some(n) ==> (args.field("b"@)->0.str_at("name"@) matches Some(s) && n@
            == text::trimmed(s) && n@.len() > 0),
        d.a.name is None ==> (args.field("a"@)->0.str_at("name"@) matches Some(s) ==> text::trimmed(
            s,
        ).len() == 0),
        d.b.name is None ==> (args.field("b"@)->0.str_at("name"@) matches Some(s) ==> text::trimmed(
            s,
        ).len() == 0),
        d.scene matches Some(t) ==> (args.str_at("scene"@) matches Some(s) && t@ == text::trimmed(
            s,
        ) && t@.len() > 0),
        d.scene is None ==> (args.str_at("scene"@) matches Some(s) ==> text::trimmed(s).len() == 0),
        d.direction matches Some(t) ==> (args.str_at("direction"@) matches Some(s) && t@
            == text::trimmed(s) && t@.len() > 0),
        d.direction is None ==> (args.str_at("direction"@) matches Some(s) ==> text::trimmed(
            s,
        ).len() == 0),
{
}

/// A persona goes by its name; without one by a word for its side.
pub proof fn a_persona_goes_by_its_name(d: DialogueArgs, loc: Locale)
    ensures
        d.a.name matches Some(n) ==> d.label_text(true, loc) == n@,
        d.b.name matches Some(n) ==> d.label_text(false, loc) == n@,
        d.a.name is None ==> d.label_text(true, loc) == loc.text("tool.run_dialogue.fallback_a"@),
        d.b.name is None ==> d.label_text(false, loc) == loc.text("tool.run_dialogue.fallback_b"@),
{
}

// ---------- the director's decisions ----------

proof fn verdict_names_differ()
    ensures
        "dialogue_continue"@ != "dialogue_stop"@,
        "dialogue_continue"@ != "dialogue_note"@,
        "dialogue_continue"@ != "dialogue_retry"@,
        "dialogue_continue"@ != "dialogue_rewrite"@,
        "dialogue_stop"@ != "dialogue_note"@,
        "dialogue_stop"@ != "dialogue_retry"@,
        "dialogue_stop"@ != "dialogue_rewrite"@,
        "dialogue_note"@ != "dialogue_retry"@,
        "dialogue_note"@ != "dialogue_rewrite"@,
        "dialogue_retry"@ != "dialogue_rewrite"@,
        "a"@ != "b"@,
        "both"@ != "a"@,
        "both"@ != "b"@,
{
    reveal_strlit("dialogue_continue");
    reveal_strlit("dialogue_stop");
    reveal_strlit("dialogue_note");
    reveal_strlit("dialogue_retry");
    reveal_strlit("dialogue_rewrite");
    reveal_strlit("a");
    reveal_strlit("b");
    reveal_strlit("both");
    assert("dialogue_stop"@[9] == 's');
    assert("dialogue_note"@[9] == 'n');
    assert("a"@[0] == 'a');
    assert("b"@[0] == 'b');
    assert("both"@.len() == 4);
    assert("dialogue_continue"@.len() == 17);
    assert("dialogue_stop"@.len() == 13);
    assert("dialogue_note"@.len() == 13);
    assert("dialogue_retry"@.len() == 14);
    assert("dialogue_rewrite"@.len() == 16);
}

/// A text is blank or it is not there.
pub open spec fn says_nothing(s: Option<Seq<char>>) -> bool {
    match s {
        None => true,
        Some(t) => forall|i: int| 0 <= i < t.len() ==> text::is_white(#[trigger] t[i]),
    }
}

/// What each call decides. A stop has its reason and, where one is given, a summary; a
/// note goes to the persona it names and to both where it names none; a retry may have a
/// note; a rewrite has the text to put in the line's place. A note or a rewrite that says
/// nothing decides nothing.
pub proof fn each_call_decides_its_own(args: JsonView)
    ensures
        dialogue::verdict_of("dialogue_continue"@, args) == Some(VerdictView::Continue),
        dialogue::verdict_of("dialogue_stop"@, args) == Some(
            VerdictView::Stop(
                match args.str_at("reason"@) {
                    Some(s) => s,
                    None => Seq::empty(),
                },
                if says_nothing(args.str_at("summary"@)) {
                    None
                } else {
                    args.str_at("summary"@)
                },
            ),
        ),
        dialogue::verdict_of("dialogue_retry"@, args) == Some(
            VerdictView::Retry(
                if says_nothing(args.str_at("note"@)) {
                    None
                } else {
                    args.str_at("note"@)
                },
            ),
        ),
        says_nothing(args.str_at("text"@)) ==> dialogue::verdict_of("dialogue_note"@, args) is None
            && dialogue::verdict_of("dialogue_rewrite"@, args) is None,
        !says_nothing(args.str_at("text"@)) ==> dialogue::verdict_of("dialogue_rewrite"@, args)
            == Some(VerdictView::Rewrite(args.str_at("text"@)->0)),
        !says_nothing(args.str_at("text"@)) ==> dialogue::verdict_of("dialogue_note"@, args) == Some(
            match args.str_at("to"@) {
                Some(to) => if to == "a"@ {
                    VerdictView::Note(true, false, args.str_at("text"@)->0)
                } else if to == "b"@ {
                    VerdictView::Note(false, true, args.str_at("text"@)->0)
                } else {
                    VerdictView::Note(true, true, args.str_at("text"@)->0)
                },
                None => VerdictView::Note(true, true, args.str_at("text"@)->0),
            },
        ),
{
    verdict_names_differ();
    let e = Seq::<char>::empty();
    assert(text::is_blank(e));
}

/// The decisions come in the order of the calls; a call by any other name decides
/// nothing and is counted.
pub proof fn one_call_more_is_read(calls: Seq<ApiToolCall>, c: ApiToolCall)
    ensures
        dialogue::all_verdicts(Seq::empty()) == Seq::<VerdictView>::empty(),
        dialogue::unknown_calls(Seq::empty()) == 0,
        ({
            let args = match json::json_of(c.arguments@) {
                Some(j) => j,
                None => JsonView::Null,
            };
            let name = c.name@;
            let known = name == "dialogue_continue"@ || name == "dialogue_stop"@ || name
                == "dialogue_note"@ || name == "dialogue_retry"@ || name == "dialogue_rewrite"@;
            &&& dialogue::all_verdicts(calls.push(c)) == match dialogue::verdict_of(name, args) {
                Some(v) => dialogue::all_verdicts(calls).push(v),
                None => dialogue::all_verdicts(calls),
            }
            &&& !known ==> dialogue::verdict_of(name, args) is None
            &&& dialogue::unknown_calls(calls.push(c)) == dialogue::unknown_calls(calls) + if known {
                0int
            } else {
                1
            }
        }),
{
    assert(calls.push(c).drop_last() =~= calls);
}

/// What the director said comes first, without its margins; each call has a line of its
/// own behind it, by its name and what it was given, and nothing in the brackets where
/// that is an empty object.
pub proof fn one_call_more_is_shown(said: Seq<char>, calls: Seq<ApiToolCall>, c: ApiToolCall)
    ensures
        dialogue::with_calls(said, Seq::empty()) == said,
        ({
            let before = dialogue::with_calls(said, calls);
            let given = text::trimmed(c.arguments@);
            let line = if given == "{}"@ {
                c.name@ + "("@ + ")"@
            } else {
                c.name@ + "("@ + given + ")"@
            };
            dialogue::with_calls(said, calls.push(c)) == if before.len() == 0 {
                line
            } else {
                before + "\n"@ + line
            }
        }),
{
    assert(calls.push(c).drop_last() =~= calls);
    let e = Seq::<char>::empty();
    assert(c.name@ + "("@ + e + ")"@ =~= c.name@ + "("@ + ")"@);
}

} // verus!
