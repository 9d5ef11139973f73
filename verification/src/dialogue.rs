//! A dialogue of two personas: what a call asks for, what each persona is shown of
//! it, and what the director who watches it may decide.

use vstd::prelude::*;
pub use crate::schema::verdict_tools;
use crate::i18n::Locale;
use crate::json;
use crate::json::{Json, JsonView};
use crate::outcome::ToolOutcome;
use crate::text;

verus! {

pub const RUN_DIALOGUE_ID: &'static str = "run_dialogue";

/// The same dialogue run in the background.
pub const START_DIALOGUE_ID: &'static str = "start_dialogue";

/// The most messages a call may ask for.
pub const MAX_MESSAGES_CAP: u64 = 64;

pub const DEFAULT_MAX_MESSAGES: u64 = 16;

/// The director looks after so many messages.
pub const DEFAULT_MODERATE_EVERY: u64 = 2;

pub const MODERATE_EVERY_CAP: u64 = 8;

/// One persona of a call.
#[derive(Debug, PartialEq, Eq)]
pub struct DialoguePersona {
    pub name: Option<String>,
    pub system_message: String,
}

/// What a call asks for.
#[derive(Debug, PartialEq, Eq)]
pub struct DialogueArgs {
    pub a: DialoguePersona,
    pub b: DialoguePersona,
    /// The opening line is the first persona's.
    pub opening_by_a: bool,
    pub opening: String,
    /// A setting that both personas are shown first.
    pub scene: Option<String>,
    /// What the director is to watch for.
    pub direction: Option<String>,
    pub max_messages: u64,
    pub moderate_every: u64,
}

/// The string under `key` without its margins, where something is left.
pub open spec fn trimmed_at(args: JsonView, key: Seq<char>) -> Option<Seq<char>> {
    match args.str_at(key) {
        Some(s) if text::trimmed(s).len() > 0 => Some(text::trimmed(s)),
        _ => None,
    }
}

/// The string under `key` without its margins, where something is left.
pub fn trimmed_field(args: &Json, key: &str) -> (r: Option<String>)
    ensures
        json::opt_str(r) == trimmed_at(args@, key@),
{
    match args.get_str(key) {
        Some(s) => {
            let t: String = text::trim(s.as_str());
            if t.as_str().is_empty() {
                None
            } else {
                Some(t)
            }
        },
        None => None,
    }
}

/// The persona under `key`: its name, and its system message, which it must have.
pub open spec fn persona_at(args: JsonView, key: Seq<char>) -> Option<
    (Option<Seq<char>>, Seq<char>),
> {
    match args.field(key) {
        Some(obj) => match trimmed_at(obj, "system_message"@) {
            Some(s) => Some((trimmed_at(obj, "name"@), s)),
            None => None,
        },
        None => None,
    }
}

impl DialoguePersona {
    pub open spec fn is(self, p: (Option<Seq<char>>, Seq<char>)) -> bool {
        json::opt_str(self.name) == p.0 && self.system_message@ == p.1
    }
}

fn persona_of(args: &Json, key: &str) -> (r: Option<DialoguePersona>)
    ensures
        match r {
            Some(p) => persona_at(args@, key@) is Some && p.is(persona_at(args@, key@)->0),
            None => persona_at(args@, key@) is None,
        },
{
    match args.get(key) {
        Some(obj) => match trimmed_field(&obj, "system_message") {
            Some(system_message) => Some(
                DialoguePersona { name: trimmed_field(&obj, "name"), system_message },
            ),
            None => None,
        },
        None => None,
    }
}

/// The number under `key` kept between two bounds; a default where there is none.
pub open spec fn clamped_at(args: JsonView, key: Seq<char>, default: u64, lo: u64, hi: u64) -> u64 {
    match args.uint_at(key) {
        Some(n) => if n < lo {
            lo
        } else if n > hi {
            hi
        } else {
            n
        },
        None => default,
    }
}

fn clamped(args: &Json, key: &str, default: u64, lo: u64, hi: u64) -> (r: u64)
    ensures
        r == clamped_at(args@, key@, default, lo, hi),
{
    match args.get_uint(key) {
        Some(n) => if n < lo {
            lo
        } else if n > hi {
            hi
        } else {
            n
        },
        None => default,
    }
}

/// The opening line.
pub open spec fn opening_at(args: JsonView) -> Option<Seq<char>> {
    match args.field("opening"@) {
        Some(obj) => trimmed_at(obj, "text"@),
        None => None,
    }
}

/// The opening line is the second persona's.
pub open spec fn opened_by_b(args: JsonView) -> bool {
    match args.field("opening"@) {
        Some(obj) => match obj.str_at("speaker"@) {
            Some(s) => text::trimmed(s) == "b"@,
            None => false,
        },
        None => false,
    }
}

impl DialogueArgs {
    /// `self` is what the arguments ask for.
    pub open spec fn is_read_from(self, args: JsonView) -> bool {
        &&& persona_at(args, "a"@) is Some && self.a.is(persona_at(args, "a"@)->0)
        &&& persona_at(args, "b"@) is Some && self.b.is(persona_at(args, "b"@)->0)
        &&& opening_at(args) == Some(self.opening@)
        &&& self.opening_by_a == !opened_by_b(args)
        &&& json::opt_str(self.scene) == trimmed_at(args, "scene"@)
        &&& json::opt_str(self.direction) == trimmed_at(args, "direction"@)
        &&& self.max_messages == clamped_at(
            args,
            "max_messages"@,
            DEFAULT_MAX_MESSAGES,
            2,
            MAX_MESSAGES_CAP,
        )
        &&& self.moderate_every == clamped_at(
            args,
            "moderate_every"@,
            DEFAULT_MODERATE_EVERY,
            1,
            MODERATE_EVERY_CAP,
        )
    }

    /// Reads a call's arguments. A call without both personas, or without an opening
    /// line, is wrong.
    pub fn parse(args: &Json, loc: &Locale) -> (r: Result<Self, String>)
        ensures
            match r {
                Ok(d) => d.is_read_from(args@),
                Err(e) => {
                    let personas = persona_at(args@, "a"@) is Some && persona_at(args@, "b"@)
                        is Some;
                    ||| !personas && e@ == loc.text("tool.run_dialogue.err.personas"@)
                    ||| personas && opening_at(args@) is None && e@ == loc.text(
                        "tool.run_dialogue.err.opening"@,
                    )
                },
            },
    {
        let a: DialoguePersona = match persona_of(args, "a") {
            Some(p) => p,
            None => {
                return Err(text::owned(loc.t("tool.run_dialogue.err.personas")));
            },
        };
        let b: DialoguePersona = match persona_of(args, "b") {
            Some(p) => p,
            None => {
                return Err(text::owned(loc.t("tool.run_dialogue.err.personas")));
            },
        };
        let (opening, by_b): (Option<String>, bool) = match args.get("opening") {
            Some(obj) => {
                let by: bool = match obj.get_str("speaker") {
                    Some(s) => text::same(text::trim(s.as_str()).as_str(), "b"),
                    None => false,
                };
                (trimmed_field(&obj, "text"), by)
            },
            None => (None, false),
        };
        match opening {
            None => Err(text::owned(loc.t("tool.run_dialogue.err.opening"))),
            Some(opening) => Ok(
                DialogueArgs {
                    a,
                    b,
                    opening_by_a: !by_b,
                    opening,
                    scene: trimmed_field(args, "scene"),
                    direction: trimmed_field(args, "direction"),
                    max_messages: clamped(
                        args,
                        "max_messages",
                        DEFAULT_MAX_MESSAGES,
                        2,
                        MAX_MESSAGES_CAP,
                    ),
                    moderate_every: clamped(
                        args,
                        "moderate_every",
                        DEFAULT_MODERATE_EVERY,
                        1,
                        MODERATE_EVERY_CAP,
                    ),
                },
            ),
        }
    }

    pub open spec fn label_text(self, speaker_a: bool, loc: Locale) -> Seq<char> {
        if speaker_a {
            match self.a.name {
                Some(n) => n@,
                None => loc.text("tool.run_dialogue.fallback_a"@),
            }
        } else {
            match self.b.name {
                Some(n) => n@,
                None => loc.text("tool.run_dialogue.fallback_b"@),
            }
        }
    }

    /// A persona's name, or a word for it.
    pub fn label(&self, speaker_a: bool, loc: &Locale) -> (r: String)
        ensures
            r@ == self.label_text(speaker_a, *loc),
    {
        if speaker_a {
            match &self.a.name {
                Some(n) => n.clone(),
                None => text::owned(loc.t("tool.run_dialogue.fallback_a")),
            }
        } else {
            match &self.b.name {
                Some(n) => n.clone(),
                None => text::owned(loc.t("tool.run_dialogue.fallback_b")),
            }
        }
    }

    /// The title of a run before anybody names it: both labels, on one line.
    pub fn initial_title(&self, loc: &Locale) -> (r: String)
        ensures
            ({
                let title = text::flattened(
                    self.label_text(true, *loc) + " ↔ "@ + self.label_text(false, *loc),
                );
                r@ == if title.len() == 0 {
                    RUN_DIALOGUE_ID@
                } else {
                    title
                }
            }),
    {
        let a: String = self.label(true, loc);
        let b: String = self.label(false, loc);
        let title: String = text::flatten(text::cat3(a.as_str(), " ↔ ", b.as_str()).as_str());
        if title.as_str().is_empty() {
            text::owned(RUN_DIALOGUE_ID)
        } else {
            title
        }
    }
}

// ---------- what a persona is shown ----------

#[derive(Debug, Clone, Copy, PartialEq, Eq, Structural)]
pub enum MessageRole {
    System,
    User,
    Assistant,
}

/// A line of the transcript: the first persona's are the assistant's, the second
/// one's the user's, the director's the system's.
#[derive(Debug)]
pub struct Message {
    pub role: MessageRole,
    pub text: String,
}

#[derive(Debug, Clone, Copy, PartialEq, Eq, Structural)]
pub enum ApiRole {
    User,
    Assistant,
}

/// A message of a request.
#[derive(Debug)]
pub struct ApiMessage {
    pub role: ApiRole,
    pub content: String,
}

/// The texts that every view shares.
pub struct ViewText<'a> {
    pub scene: Option<&'a str>,
    pub begins: &'a str,
    pub note_prefix: &'a str,
}

/// One turn: the persona's own, or the other side's.
#[verifier::ext_equal]
pub struct Turn {
    pub own: bool,
    pub text: Seq<char>,
}

pub open spec fn turn_of(m: ApiMessage) -> Turn {
    Turn { own: m.role == ApiRole::Assistant, text: m.content@ }
}

pub open spec fn turns_of(v: Seq<ApiMessage>) -> Seq<Turn> {
    v.map_values(|m: ApiMessage| turn_of(m))
}

/// The lines that were spoken, as one side hears them.
pub open spec fn spoken(transcript: Seq<Message>, speaker_a: bool) -> Seq<Turn>
    decreases transcript.len(),
{
    if transcript.len() == 0 {
        Seq::empty()
    } else {
        let before = spoken(transcript.drop_last(), speaker_a);
        let m = transcript.last();
        if m.role == MessageRole::System {
            before
        } else {
            before.push(
                Turn { own: (m.role == MessageRole::Assistant) == speaker_a, text: m.text@ },
            )
        }
    }
}

/// One more line: it goes on the last turn where that is of the same side.
pub open spec fn with_line(turns: Seq<Turn>, line: Turn) -> Seq<Turn> {
    if turns.len() > 0 && turns.last().own == line.own {
        turns.drop_last().push(
            Turn { own: line.own, text: turns.last().text + "\n\n"@ + line.text },
        )
    } else {
        turns.push(line)
    }
}

pub open spec fn with_lines(turns: Seq<Turn>, lines: Seq<Turn>) -> Seq<Turn>
    decreases lines.len(),
{
    if lines.len() == 0 {
        turns
    } else {
        with_line(with_lines(turns, lines.drop_last()), lines.last())
    }
}

/// The other side speaks first: the scene where there is one, or else a word that
/// the dialogue begins, where the persona itself would open.
pub open spec fn prologue(lines: Seq<Turn>, scene: Option<Seq<char>>, begins: Seq<char>) -> Seq<
    Turn,
> {
    match scene {
        Some(s) => seq![Turn { own: false, text: s }],
        None => if lines.len() > 0 && lines[0].own {
            seq![Turn { own: false, text: begins }]
        } else {
            Seq::empty()
        },
    }
}

/// What a persona is shown of the transcript.
pub open spec fn view_of(
    transcript: Seq<Message>,
    speaker_a: bool,
    scene: Option<Seq<char>>,
    begins: Seq<char>,
) -> Seq<Turn> {
    let lines = spoken(transcript, speaker_a);
    with_lines(prologue(lines, scene, begins), lines)
}

/// The persona's system message with the director's notes behind it.
pub open spec fn with_notes(system: Seq<char>, notes: Seq<Seq<char>>, prefix: Seq<char>) -> Seq<
    char,
>
    decreases notes.len(),
{
    if notes.len() == 0 {
        system
    } else {
        with_notes(system, notes.drop_last(), prefix) + "\n\n"@ + prefix + " "@ + notes.last()
    }
}

/// All notes for a persona, the one for this turn last.
pub open spec fn all_notes(notes: Seq<String>, one_shot: Option<&str>) -> Seq<Seq<char>> {
    match one_shot {
        Some(n) => text::views(notes).push(n@),
        None => text::views(notes),
    }
}

fn add_note(system: &mut String, prefix: &str, note: &str)
    ensures
        final(system)@ == old(system)@ + "\n\n"@ + prefix@ + " "@ + note@,
{
    system.push_str("\n\n");
    system.push_str(prefix);
    system.push_str(" ");
    system.push_str(note);
}

fn system_with_notes(persona: &str, notes: &Vec<String>, one_shot: Option<&str>, prefix: &str)
    -> (r: String)
    ensures
        r@ == with_notes(persona@, all_notes(notes@, one_shot), prefix@),
{
    let mut system: String = text::owned(persona);
    let ghost views = text::views(notes@);
    let mut i: usize = 0;
    assert(views.take(0) =~= Seq::<Seq<char>>::empty());
    while i < notes.len()
        invariant
            i <= notes.len(),
            views == text::views(notes@),
            system@ == with_notes(persona@, views.take(i as int), prefix@),
        decreases notes.len() - i,
    {
        assert(views.take(i + 1).drop_last() =~= views.take(i as int));
        add_note(&mut system, prefix, notes[i].as_str());
        i = i + 1;
    }
    assert(views.take(i as int) =~= views);
    match one_shot {
        Some(n) => {
            assert(views.push(n@).drop_last() =~= views);
            add_note(&mut system, prefix, n);
        },
        None => {},
    }
    system
}

fn add_line(messages: &mut Vec<ApiMessage>, own: bool, line: &str)
    ensures
        turns_of(final(messages)@) == with_line(
            turns_of(old(messages)@),
            Turn { own, text: line@ },
        ),
{
    let ghost before = messages@;
    let role: ApiRole = if own {
        ApiRole::Assistant
    } else {
        ApiRole::User
    };
    let n: usize = messages.len();
    assert(turns_of(before).len() == before.len());
    if n > 0 && messages[n - 1].role == role {
        match messages.pop() {
            Some(last) => {
                assert(turns_of(before).last() == turn_of(last));
                let mut content: String = last.content;
                content.push_str("\n\n");
                content.push_str(line);
                messages.push(ApiMessage { role, content });
            },
            None => {},
        }
    } else {
        if n > 0 {
            assert(turns_of(before).last() == turn_of(before[n - 1]));
        }
        messages.push(ApiMessage { role, content: text::owned(line) });
    }
    assert(turns_of(messages@) =~= with_line(turns_of(before), Turn { own, text: line@ }));
}

/// What a persona is sent: its system message with the director's notes, and the
/// transcript as that side hears it. Its own lines are the assistant's and the other
/// one's the user's; what the director said is left out; lines of one side that follow
/// each other are one message.
pub fn participant_view(
    transcript: &Vec<Message>,
    speaker_a: bool,
    persona_system: &str,
    notes: &Vec<String>,
    one_shot_note: Option<&str>,
    texts: &ViewText<'_>,
) -> (r: (String, Vec<ApiMessage>))
    ensures
        r.0@ == with_notes(persona_system@, all_notes(notes@, one_shot_note), texts.note_prefix@),
        turns_of(r.1@) == view_of(
            transcript@,
            speaker_a,
            crate::console::opt_view(texts.scene),
            texts.begins@,
        ),
{
    let system: String = system_with_notes(
        persona_system,
        notes,
        one_shot_note,
        texts.note_prefix,
    );
    let ghost lines = spoken(transcript@, speaker_a);
    let ghost opened = prologue(
        lines,
        crate::console::opt_view(texts.scene),
        texts.begins@,
    );
    let mut messages: Vec<ApiMessage> = Vec::new();
    match texts.scene {
        Some(scene) => {
            messages.push(ApiMessage { role: ApiRole::User, content: text::owned(scene) });
        },
        None => if opens(transcript, speaker_a) {
            messages.push(ApiMessage { role: ApiRole::User, content: text::owned(texts.begins) });
        },
    }
    assert(turns_of(messages@) =~= opened);
    let mut i: usize = 0;
    assert(transcript@.take(0) =~= Seq::<Message>::empty());
    while i < transcript.len()
        invariant
            i <= transcript.len(),
            turns_of(messages@) == with_lines(
                opened,
                spoken(transcript@.take(i as int), speaker_a),
            ),
        decreases transcript.len() - i,
    {
        let m: &Message = &transcript[i];
        proof {
            let now = spoken(transcript@.take(i + 1), speaker_a);
            assert(transcript@.take(i + 1).drop_last() =~= transcript@.take(i as int));
            if m.role != MessageRole::System {
                assert(now.drop_last() =~= spoken(transcript@.take(i as int), speaker_a));
            }
        }
        if m.role != MessageRole::System {
            let own: bool = (m.role == MessageRole::Assistant) == speaker_a;
            add_line(&mut messages, own, m.text.as_str());
        }
        i = i + 1;
    }
    assert(transcript@.take(i as int) =~= transcript@);
    (system, messages)
}

/// The first spoken line is the persona's own.
fn opens(transcript: &Vec<Message>, speaker_a: bool) -> (r: bool)
    ensures
        ({
            let lines = spoken(transcript@, speaker_a);
            r == (lines.len() > 0 && lines[0].own)
        }),
{
    let mut i: usize = 0;
    assert(transcript@.take(0) =~= Seq::<Message>::empty());
    while i < transcript.len()
        invariant
            i <= transcript.len(),
            spoken(transcript@.take(i as int), speaker_a).len() == 0,
        decreases transcript.len() - i,
    {
        let m: &Message = &transcript[i];
        assert(transcript@.take(i + 1).drop_last() =~= transcript@.take(i as int));
        if m.role != MessageRole::System {
            proof {
                spoken_grows(transcript@, i + 1, speaker_a);
            }
            return (m.role == MessageRole::Assistant) == speaker_a;
        }
        i = i + 1;
    }
    assert(transcript@.take(i as int) =~= transcript@);
    false
}

proof fn spoken_grows(transcript: Seq<Message>, n: int, speaker_a: bool)
    requires
        0 <= n <= transcript.len(),
        spoken(transcript.take(n), speaker_a).len() > 0,
    ensures
        spoken(transcript, speaker_a).len() > 0,
        spoken(transcript, speaker_a)[0] == spoken(transcript.take(n), speaker_a)[0],
    decreases transcript.len(),
{
    if n < transcript.len() {
        let t = transcript.drop_last();
        assert(t.take(n) =~= transcript.take(n));
        spoken_grows(t, n, speaker_a);
    } else {
        assert(transcript.take(n) =~= transcript);
    }
}

/// Turns that change sides each time, the other side first.
pub open spec fn alternates(turns: Seq<Turn>) -> bool {
    forall|i: int| 0 <= i < turns.len() ==> (#[trigger] turns[i]).own == (i % 2 == 1)
}

proof fn lines_keep_alternating(turns: Seq<Turn>, lines: Seq<Turn>)
    requires
        alternates(turns),
        turns.len() > 0 || lines.len() == 0 || !lines[0].own,
    ensures
        alternates(with_lines(turns, lines)),
        turns.len() > 0 || lines.len() > 0 ==> with_lines(turns, lines).len() > 0,
    decreases lines.len(),
{
    if lines.len() > 0 {
        let t = lines.drop_last();
        if t.len() > 0 {
            assert(t[0] == lines[0]);
        }
        lines_keep_alternating(turns, t);
        let before = with_lines(turns, t);
        let after = with_line(before, lines.last());
        if before.len() > 0 && before.last().own == lines.last().own {
            assert forall|i: int| 0 <= i < after.len() implies (#[trigger] after[i]).own == (i % 2
                == 1) by {
                assert(before[i].own == (i % 2 == 1));
            }
        } else {
            if before.len() > 0 {
                assert(before[before.len() - 1].own == ((before.len() - 1) % 2 == 1));
            } else {
                assert(t.len() == 0 && turns.len() == 0);
                assert(lines[0] == lines.last());
            }
            assert forall|i: int| 0 <= i < after.len() implies (#[trigger] after[i]).own == (i % 2
                == 1) by {
                if i < before.len() {
                    assert(before[i].own == (i % 2 == 1));
                }
            }
        }
    }
}

/// Whatever was said, and whichever side is asked, a view begins with the other
/// side's turn and the sides take turns from there on.
pub proof fn views_alternate_strictly(
    transcript: Seq<Message>,
    speaker_a: bool,
    scene: Option<Seq<char>>,
    begins: Seq<char>,
)
    ensures
        alternates(view_of(transcript, speaker_a, scene, begins)),
{
    let lines = spoken(transcript, speaker_a);
    lines_keep_alternating(prologue(lines, scene, begins), lines);
}

/// What the director says reaches no persona as a message.
pub proof fn the_director_is_not_heard(
    before: Seq<Message>,
    m: Message,
    after: Seq<Message>,
    speaker_a: bool,
    scene: Option<Seq<char>>,
    begins: Seq<char>,
)
    requires
        m.role == MessageRole::System,
    ensures
        view_of(before.push(m) + after, speaker_a, scene, begins) == view_of(
            before + after,
            speaker_a,
            scene,
            begins,
        ),
{
    system_is_not_spoken(before, m, after, speaker_a);
}

proof fn system_is_not_spoken(
    before: Seq<Message>,
    m: Message,
    after: Seq<Message>,
    speaker_a: bool,
)
    requires
        m.role == MessageRole::System,
    ensures
        spoken(before.push(m) + after, speaker_a) == spoken(before + after, speaker_a),
    decreases after.len(),
{
    let x = before.push(m) + after;
    let y = before + after;
    if after.len() == 0 {
        assert(x.drop_last() =~= before);
        assert(x.last() == m);
        assert(y =~= before);
    } else {
        system_is_not_spoken(before, m, after.drop_last(), speaker_a);
        assert(x.drop_last() =~= before.push(m) + after.drop_last());
        assert(y.drop_last() =~= before + after.drop_last());
        assert(x.last() == y.last());
    }
}

/// Whose turn it is: the other side of whoever spoke last. Nobody's before the
/// first line.
pub open spec fn next_is_a(transcript: Seq<Message>) -> Option<bool>
    decreases transcript.len(),
{
    if transcript.len() == 0 {
        None
    } else if transcript.last().role == MessageRole::System {
        next_is_a(transcript.drop_last())
    } else {
        Some(transcript.last().role != MessageRole::Assistant)
    }
}

/// Whose turn it is: the other side of whoever spoke last.
pub fn next_speaker_a(transcript: &Vec<Message>) -> (r: Option<bool>)
    ensures
        r == next_is_a(transcript@),
{
    let mut n: usize = transcript.len();
    assert(transcript@.take(n as int) =~= transcript@);
    while n > 0
        invariant
            n <= transcript.len(),
            next_is_a(transcript@.take(n as int)) == next_is_a(transcript@),
        decreases n,
    {
        let m: &Message = &transcript[n - 1];
        if m.role != MessageRole::System {
            return Some(m.role != MessageRole::Assistant);
        }
        assert(transcript@.take(n as int).drop_last() =~= transcript@.take(n - 1));
        n = n - 1;
    }
    None
}

/// Speakers take turns: after a line it is the other side's turn, and the director
/// takes none.
pub proof fn speakers_alternate(transcript: Seq<Message>, m: Message)
    ensures
        m.role == MessageRole::Assistant ==> next_is_a(transcript.push(m)) == Some(false),
        m.role == MessageRole::User ==> next_is_a(transcript.push(m)) == Some(true),
        m.role == MessageRole::System ==> next_is_a(transcript.push(m)) == next_is_a(transcript),
{
    assert(transcript.push(m).drop_last() =~= transcript);
}

// ---------- what the director decides ----------

/// A call that a model made.
#[derive(Debug)]
pub struct ApiToolCall {
    pub id: String,
    pub name: String,
    /// The arguments as JSON text.
    pub arguments: String,
}

/// One decision of the director.
#[derive(Debug, PartialEq, Eq)]
pub enum Verdict {
    Continue,
    Stop { reason: String, summary: Option<String> },
    Note { to_a: bool, to_b: bool, text: String },
    Retry { note: Option<String> },
    Rewrite { text: String },
}

/// What a [`Verdict`] holds.
#[verifier::ext_equal]
pub enum VerdictView {
    Continue,
    Stop(Seq<char>, Option<Seq<char>>),
    Note(bool, bool, Seq<char>),
    Retry(Option<Seq<char>>),
    Rewrite(Seq<char>),
}

impl View for Verdict {
    type V = VerdictView;

    open spec fn view(&self) -> VerdictView {
        match *self {
            Verdict::Continue => VerdictView::Continue,
            Verdict::Stop { reason, summary } => VerdictView::Stop(
                reason@,
                json::opt_str(summary),
            ),
            Verdict::Note { to_a, to_b, text } => VerdictView::Note(to_a, to_b, text@),
            Verdict::Retry { note } => VerdictView::Retry(json::opt_str(note)),
            Verdict::Rewrite { text } => VerdictView::Rewrite(text@),
        }
    }
}

pub open spec fn verdict_views(v: Seq<Verdict>) -> Seq<VerdictView> {
    v.map_values(|x: Verdict| x@)
}

pub broadcast proof fn verdict_views_push(v: Seq<Verdict>, x: Verdict)
    ensures
        #[trigger] verdict_views(v.push(x)) == verdict_views(v).push(x@),
{
    assert(verdict_views(v.push(x)) =~= verdict_views(v).push(x@));
}

/// The calls that follow a text, each on a line of its own.
pub open spec fn with_calls(said: Seq<char>, calls: Seq<ApiToolCall>) -> Seq<char>
    decreases calls.len(),
{
    if calls.len() == 0 {
        said
    } else {
        let before = with_calls(said, calls.drop_last());
        let c = calls.last();
        let args = text::trimmed(c.arguments@);
        let shown = if args == "{}"@ {
            Seq::empty()
        } else {
            args
        };
        let line = c.name@ + "("@ + shown + ")"@;
        if before.len() == 0 {
            line
        } else {
            before + "\n"@ + line
        }
    }
}

/// The director's decision as a turn of its own: what it said, then each call as
/// `name(arguments)`.
pub fn verdict_turn(said: &str, calls: &Vec<ApiToolCall>) -> (r: String)
    ensures
        r@ == with_calls(text::trimmed(said@), calls@),
{
    let mut out: String = text::trim(said);
    let mut i: usize = 0;
    assert(calls@.take(0) =~= Seq::<ApiToolCall>::empty());
    while i < calls.len()
        invariant
            i <= calls.len(),
            out@ == with_calls(text::trimmed(said@), calls@.take(i as int)),
        decreases calls.len() - i,
    {
        assert(calls@.take(i + 1).drop_last() =~= calls@.take(i as int));
        let args: String = text::trim(calls[i].arguments.as_str());
        let shown: String = if text::same(args.as_str(), "{}") {
            String::new()
        } else {
            args
        };
        let line: String = text::cat4(calls[i].name.as_str(), "(", shown.as_str(), ")");
        if out.as_str().is_empty() {
            out = line;
        } else {
            out.push_str("\n");
            out.push_str(line.as_str());
        }
        i = i + 1;
    }
    assert(calls@.take(i as int) =~= calls@);
    out
}

/// What a call came to.
#[derive(Debug)]
pub enum CallRead {
    Verdict(Verdict),
    /// A note or a rewrite without text says nothing.
    Nothing,
    /// The name is none of the director's.
    Unknown,
}

pub open spec fn or_empty(s: Option<Seq<char>>) -> Seq<char> {
    match s {
        Some(t) => t,
        None => Seq::empty(),
    }
}

/// A text that is more than white space.
pub open spec fn unless_blank(s: Option<Seq<char>>) -> Option<Seq<char>> {
    match s {
        Some(t) if !text::is_blank(t) => Some(t),
        _ => None,
    }
}

/// A known name of the director's.
pub open spec fn is_verdict_name(name: Seq<char>) -> bool {
    name == "dialogue_continue"@ || name == "dialogue_stop"@ || name == "dialogue_note"@ || name
        == "dialogue_retry"@ || name == "dialogue_rewrite"@
}

/// The decision that a call stands for.
pub open spec fn verdict_of(name: Seq<char>, args: JsonView) -> Option<VerdictView> {
    let note = or_empty(args.str_at("text"@));
    let to = match args.str_at("to"@) {
        Some(t) => t,
        None => "both"@,
    };
    if name == "dialogue_continue"@ {
        Some(VerdictView::Continue)
    } else if name == "dialogue_stop"@ {
        Some(
            VerdictView::Stop(
                or_empty(args.str_at("reason"@)),
                unless_blank(args.str_at("summary"@)),
            ),
        )
    } else if name == "dialogue_note"@ {
        if text::is_blank(note) {
            None
        } else {
            Some(VerdictView::Note(to != "b"@, to != "a"@, note))
        }
    } else if name == "dialogue_retry"@ {
        Some(VerdictView::Retry(unless_blank(args.str_at("note"@))))
    } else if name == "dialogue_rewrite"@ {
        if text::is_blank(note) {
            None
        } else {
            Some(VerdictView::Rewrite(note))
        }
    } else {
        None
    }
}

fn filled(s: Option<String>) -> (r: Option<String>)
    ensures
        json::opt_str(r) == unless_blank(json::opt_str(s)),
{
    match s {
        Some(t) => if text::blank(t.as_str()) {
            None
        } else {
            Some(t)
        },
        None => None,
    }
}

fn text_or_empty(s: Option<String>) -> (r: String)
    ensures
        r@ == or_empty(json::opt_str(s)),
{
    match s {
        Some(t) => t,
        None => String::new(),
    }
}

/// The decision that a call stands for, by its arguments as they were read.
pub fn read_verdict(name: &str, args: &Json) -> (r: CallRead)
    ensures
        match r {
            CallRead::Verdict(v) => is_verdict_name(name@) && verdict_of(name@, args@) == Some(v@),
            CallRead::Nothing => is_verdict_name(name@) && verdict_of(name@, args@) is None,
            CallRead::Unknown => !is_verdict_name(name@),
        },
{
    proof {
        reveal_strlit("dialogue_continue");
        reveal_strlit("dialogue_stop");
        reveal_strlit("dialogue_note");
        reveal_strlit("dialogue_retry");
        reveal_strlit("dialogue_rewrite");
    }
    if text::same(name, "dialogue_continue") {
        return CallRead::Verdict(Verdict::Continue);
    }
    if text::same(name, "dialogue_stop") {
        return CallRead::Verdict(
            Verdict::Stop {
                reason: text_or_empty(args.get_str("reason")),
                summary: filled(args.get_str("summary")),
            },
        );
    }
    if text::same(name, "dialogue_note") {
        let note: String = text_or_empty(args.get_str("text"));
        if text::blank(note.as_str()) {
            return CallRead::Nothing;
        }
        let to: String = match args.get_str("to") {
            Some(t) => t,
            None => text::owned("both"),
        };
        return CallRead::Verdict(
            Verdict::Note {
                to_a: !text::same(to.as_str(), "b"),
                to_b: !text::same(to.as_str(), "a"),
                text: note,
            },
        );
    }
    if text::same(name, "dialogue_retry") {
        return CallRead::Verdict(Verdict::Retry { note: filled(args.get_str("note")) });
    }
    if text::same(name, "dialogue_rewrite") {
        let note: String = text_or_empty(args.get_str("text"));
        if text::blank(note.as_str()) {
            return CallRead::Nothing;
        }
        return CallRead::Verdict(Verdict::Rewrite { text: note });
    }
    CallRead::Unknown
}

/// The arguments of a call; null where they are no JSON.
pub open spec fn call_args(c: ApiToolCall) -> JsonView {
    match json::json_of(c.arguments@) {
        Some(j) => j,
        None => JsonView::Null,
    }
}

pub open spec fn all_verdicts(calls: Seq<ApiToolCall>) -> Seq<VerdictView>
    decreases calls.len(),
{
    if calls.len() == 0 {
        Seq::empty()
    } else {
        let before = all_verdicts(calls.drop_last());
        match verdict_of(calls.last().name@, call_args(calls.last())) {
            Some(v) => before.push(v),
            None => before,
        }
    }
}

pub open spec fn unknown_calls(calls: Seq<ApiToolCall>) -> nat
    decreases calls.len(),
{
    if calls.len() == 0 {
        0
    } else if is_verdict_name(calls.last().name@) {
        unknown_calls(calls.drop_last())
    } else {
        unknown_calls(calls.drop_last()) + 1
    }
}

/// The director's decisions in the order of its calls, and how many calls were
/// unknown.
pub fn parse_verdicts(calls: &Vec<ApiToolCall>) -> (r: (Vec<Verdict>, usize))
    ensures
        verdict_views(r.0@) == all_verdicts(calls@),
        r.1 == unknown_calls(calls@),
{
    let mut verdicts: Vec<Verdict> = Vec::new();
    let mut unknown: usize = 0;
    let mut i: usize = 0;
    assert(calls@.take(0) =~= Seq::<ApiToolCall>::empty());
    assert(verdict_views(verdicts@) =~= Seq::<VerdictView>::empty());
    while i < calls.len()
        invariant
            i <= calls.len(),
            unknown <= i,
            verdict_views(verdicts@) == all_verdicts(calls@.take(i as int)),
            unknown == unknown_calls(calls@.take(i as int)),
        decreases calls.len() - i,
    {
        broadcast use verdict_views_push;

        assert(calls@.take(i + 1).drop_last() =~= calls@.take(i as int));
        let args: Json = match Json::from_text(calls[i].arguments.as_str()) {
            Some(j) => j,
            None => Json::Null,
        };
        match read_verdict(calls[i].name.as_str(), &args) {
            CallRead::Verdict(v) => {
                verdicts.push(v);
            },
            CallRead::Nothing => {},
            CallRead::Unknown => {
                unknown = unknown + 1;
            },
        }
        i = i + 1;
    }
    assert(calls@.take(i as int) =~= calls@);
    (verdicts, unknown)
}

// ---------- the two tools ----------

/// `run_dialogue`.
pub struct RunDialogue;

/// `start_dialogue`.
pub struct StartDialogue;

/// What either tool answers outside of the loop that runs dialogues: a wrong call is
/// an error, a right one is told that only the loop runs it.
pub fn loop_only(args: &Json, loc: &Locale) -> (r: Result<ToolOutcome, String>)
    ensures
        match r {
            Ok(o) => o.says(loc.text("tool.run_dialogue.result.loop_only"@)) && exists|
                d: DialogueArgs,
            | #[trigger] d.is_read_from(args@),
            Err(e) => {
                let personas = persona_at(args@, "a"@) is Some && persona_at(args@, "b"@) is Some;
                ||| !personas && e@ == loc.text("tool.run_dialogue.err.personas"@)
                ||| personas && opening_at(args@) is None && e@ == loc.text(
                    "tool.run_dialogue.err.opening"@,
                )
            },
        },
{
    match DialogueArgs::parse(args, loc) {
        Ok(d) => {
            assert(d.is_read_from(args@));
            Ok(ToolOutcome::text(text::owned(loc.t("tool.run_dialogue.result.loop_only"))))
        },
        Err(e) => Err(e),
    }
}

} // verus!
