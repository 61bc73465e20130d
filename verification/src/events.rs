//! How a transcript event becomes a hook event.

use vstd::prelude::*;
use vstd::string::*;

use crate::text;

verus! {

/// What a transcript event records.
#[derive(Debug, Clone, Copy, PartialEq, Eq, Structural)]
pub enum WorkstreamEventKind {
    Message,
    ToolCall,
    ToolResult,
    Compaction,
    Checkpoint,
    Annotation,
}

/// One visible event of a native transcript.
#[derive(Debug)]
pub struct NewWorkstreamEvent {
    pub event_id: String,
    pub kind: WorkstreamEventKind,
    pub role: Option<String>,
    pub content: String,
}

/// A hook event: what the query of its URL carries, and its JSON body as the
/// string fields of one object.
#[derive(Debug)]
pub struct MappedEvent {
    pub event: String,
    pub source_event: Option<String>,
    pub ingest_key: String,
    pub body: Vec<(String, String)>,
}

/// The text of a [`MappedEvent`].
pub struct MappedText {
    pub event: Seq<char>,
    pub source_event: Option<Seq<char>>,
    pub ingest_key: Seq<char>,
    pub body: Seq<(Seq<char>, Seq<char>)>,
}

impl View for MappedEvent {
    type V = MappedText;

    open spec fn view(&self) -> MappedText {
        MappedText {
            event: self.event@,
            source_event: self.source_event.deep_view(),
            ingest_key: self.ingest_key@,
            body: self.body.deep_view(),
        }
    }
}

/// The one-line title of an event with the given content: its first line,
/// trimmed and cut off after 120 characters, or a stand-in when that is empty.
pub open spec fn title_of(content: Seq<char>) -> Seq<char> {
    let line = text::trimmed(text::up_to(content, '\n'));
    if line.len() == 0 {
        "(backfilled event)"@
    } else if line.len() > 120 {
        line.take(120)
    } else {
        line
    }
}

/// A short one-line title from the event content.
pub fn first_line(content: &str) -> (title: String)
    ensures
        title@ == title_of(content@),
{
    let line = text::trim(text::head_of(content, '\n'));
    let len = line.unicode_len();
    if len == 0 {
        "(backfilled event)".to_owned()
    } else if len > 120 {
        line.substring_char(0, 120).to_owned()
    } else {
        line.to_owned()
    }
}

/// The key under which the event `event_id` of a session is ingested.
pub open spec fn ingest_key(session_id: Seq<char>, event_id: Seq<char>) -> Seq<char> {
    session_id + ":"@ + event_id
}

/// The hook event of a prompt that the user typed.
pub open spec fn user_prompt(
    session_id: Seq<char>,
    key: Seq<char>,
    content: Seq<char>,
) -> MappedText {
    MappedText {
        event: "user-prompt"@,
        source_event: None,
        ingest_key: key,
        body: seq![("session_id"@, session_id), ("prompt"@, content)],
    }
}

/// The hook event of any other content, recorded as an extension event under
/// the name `source`.
pub open spec fn extension_event(
    session_id: Seq<char>,
    key: Seq<char>,
    source: Seq<char>,
    content: Seq<char>,
) -> MappedText {
    MappedText {
        event: "backfill."@ + source,
        source_event: Some(source),
        ingest_key: key,
        body: seq![
            ("session_id"@, session_id),
            ("title"@, title_of(text::trimmed(content))),
            ("message"@, content),
        ],
    }
}

/// The role of an event, empty when it has none.
pub open spec fn role_of(event: NewWorkstreamEvent) -> Seq<char> {
    match event.role {
        None => Seq::empty(),
        Some(role) => role@,
    }
}

/// What a transcript event is recorded as. Nothing for an event without
/// content and for the boundary kinds; a prompt for a message of the user; an
/// extension event, named after the kind or the role, for the rest.
pub open spec fn mapped(session_id: Seq<char>, event: NewWorkstreamEvent) -> Option<MappedText> {
    let role = role_of(event);
    let key = ingest_key(session_id, event.event_id@);
    let content = event.content@;
    if text::trimmed(content).len() == 0 {
        None
    } else {
        match event.kind {
            WorkstreamEventKind::Message => if role == "user"@ || role == "human"@ {
                Some(user_prompt(session_id, key, content))
            } else if role.len() == 0 {
                Some(extension_event(session_id, key, "message"@, content))
            } else {
                Some(extension_event(session_id, key, role + "-message"@, content))
            },
            WorkstreamEventKind::ToolCall => Some(
                extension_event(session_id, key, "tool_call"@, content),
            ),
            WorkstreamEventKind::ToolResult => Some(
                extension_event(session_id, key, "tool_result"@, content),
            ),
            WorkstreamEventKind::Compaction
            | WorkstreamEventKind::Checkpoint
            | WorkstreamEventKind::Annotation => None,
        }
    }
}

/// `a`, then `b`, then `c`.
fn concat3(a: &str, b: &str, c: &str) -> (whole: String)
    ensures
        whole@ == a@ + b@ + c@,
{
    let mut whole = a.to_owned();
    whole.append(b);
    whole.append(c);
    whole
}

/// Maps one transcript event to a hook event. A message of the user becomes
/// the canonical `user-prompt`; every other event with content is recorded as
/// a backfill extension event. Boundary events (compaction, checkpoint,
/// annotation) are dropped: they are not session content.
pub fn map_event(session_id: &str, event: &NewWorkstreamEvent) -> (result: Option<MappedEvent>)
    ensures
        match result {
            None => mapped(session_id@, *event) is None,
            Some(request) => mapped(session_id@, *event) == Some(request@),
        },
{
    let content = text::trim(event.content.as_str());
    if content.is_empty() {
        return None;
    }
    let role: &str = match &event.role {
        None => "",
        Some(role) => role.as_str(),
    };
    proof {
        reveal_strlit("");
        assert(role@ == role_of(*event));
    }
    let source: String = match event.kind {
        WorkstreamEventKind::Message => {
            if text::same_text(role, "user") || text::same_text(role, "human") {
                let request = MappedEvent {
                    event: "user-prompt".to_owned(),
                    source_event: None,
                    ingest_key: concat3(session_id, ":", event.event_id.as_str()),
                    body: vec![
                        ("session_id".to_owned(), session_id.to_owned()),
                        ("prompt".to_owned(), event.content.clone()),
                    ],
                };
                assert(request@.body == seq![
                    ("session_id"@, session_id@),
                    ("prompt"@, event.content@),
                ]);
                return Some(request);
            }
            if role.is_empty() {
                "message".to_owned()
            } else {
                role.to_owned().concat("-message")
            }
        },
        WorkstreamEventKind::ToolCall => "tool_call".to_owned(),
        WorkstreamEventKind::ToolResult => "tool_result".to_owned(),
        WorkstreamEventKind::Compaction
        | WorkstreamEventKind::Checkpoint
        | WorkstreamEventKind::Annotation => {
            return None;
        },
    };
    let request = MappedEvent {
        event: "backfill.".to_owned().concat(source.as_str()),
        source_event: Some(source),
        ingest_key: concat3(session_id, ":", event.event_id.as_str()),
        body: vec![
            ("session_id".to_owned(), session_id.to_owned()),
            ("title".to_owned(), first_line(content)),
            ("message".to_owned(), event.content.clone()),
        ],
    };
    assert(request@.body == seq![
        ("session_id"@, session_id@),
        ("title"@, title_of(text::trimmed(event.content@))),
        ("message"@, event.content@),
    ]);
    Some(request)
}

/// An event is dropped exactly when it has no content beyond whitespace or is
/// of a boundary kind.
pub proof fn only_blank_and_boundary_events_are_dropped(
    session_id: Seq<char>,
    event: NewWorkstreamEvent,
)
    ensures
        mapped(session_id, event) is None <==> {
            ||| text::trimmed(event.content@).len() == 0
            ||| event.kind is Compaction
            ||| event.kind is Checkpoint
            ||| event.kind is Annotation
        },
{
}

/// The recorded text is the content of the event as it stands, and it is
/// attributed to the session under a key made of the two ids. A prompt is the
/// only hook event that is not an extension event.
pub proof fn a_mapped_event_keeps_content_and_origin(
    session_id: Seq<char>,
    event: NewWorkstreamEvent,
)
    ensures
        mapped(session_id, event) matches Some(request) ==> {
            &&& request.ingest_key == ingest_key(session_id, event.event_id@)
            &&& request.body[0] == ("session_id"@, session_id)
            &&& request.body.last().1 == event.content@
            &&& request.source_event is None <==> request.event == "user-prompt"@
            &&& request.source_event is None <==> event.kind is Message && (role_of(event)
                == "user"@ || role_of(event) == "human"@)
        },
{
    if let Some(request) = mapped(session_id, event) {
        if let Some(source) = request.source_event {
            reveal_strlit("user-prompt");
            reveal_strlit("backfill.");
            assert(request.event[0] == 'b');
            assert("user-prompt"@[0] == 'u');
        }
    }
}

/// Within a session, events with different ids are ingested under different
/// keys, so importing a transcript again meets the same keys event by event.
pub proof fn ingest_keys_tell_events_apart(session_id: Seq<char>, a: Seq<char>, b: Seq<char>)
    ensures
        ingest_key(session_id, a) == ingest_key(session_id, b) <==> a == b,
{
    let head = session_id + ":"@;
    if ingest_key(session_id, a) == ingest_key(session_id, b) {
        assert(a == (head + a).skip(head.len() as int));
        assert(b == (head + b).skip(head.len() as int));
    }
}

/// A title is never empty and never longer than 120 characters, and the event
/// that is recorded with one is titled by its own first line: the stand-in is
/// only for content that starts with a blank line, which no mapped event has
/// once it is trimmed.
pub proof fn titles_are_short_and_never_empty(content: Seq<char>)
    ensures
        1 <= title_of(content).len() <= 120,
        text::trimmed(content).len() > 0 ==> title_of(text::trimmed(content)).first()
            == text::trimmed(content).first(),
{
    reveal_strlit("(backfilled event)");
    let inner = text::trimmed(content);
    if inner.len() > 0 {
        text::trimmed_text_starts_with_text(content);
        let line = text::up_to(inner, '\n');
        assert(inner.first() != '\n');
        assert(line.first() == inner.first());
        text::trimming_keeps_the_first_of_text(line);
    }
}

/// An event is recorded exactly when it is a message, a tool call or a tool
/// result and its content holds something that is not whitespace.
pub proof fn content_with_text_is_recorded(session_id: Seq<char>, event: NewWorkstreamEvent)
    ensures
        mapped(session_id, event) is Some <==> {
            &&& event.kind is Message || event.kind is ToolCall || event.kind is ToolResult
            &&& exists|k: int|
                0 <= k < event.content@.len() && !text::is_white_space(
                    #[trigger] event.content@[k],
                )
        },
{
    text::trimming_strips_exactly_the_surrounding_whitespace(event.content@);
}

/// What an event is recorded as goes by its kind and role. A message of the
/// user or of a human is a prompt that holds the content as it stands. Tool
/// calls, tool results and other messages are extension events named after the
/// kind or the role, with a title and the content as it stands. The key is made
/// of the two ids in every case.
pub proof fn events_are_recorded_by_kind_and_role(
    session_id: Seq<char>,
    event: NewWorkstreamEvent,
    role: String,
)
    requires
        mapped(session_id, event) is Some,
    ensures
        ({
            let request = mapped(session_id, event)->Some_0;
            let typed = event.kind is Message && event.role == Some(role) && (role@ == "user"@
                || role@ == "human"@);
            let said = event.kind is Message && event.role == Some(role) && role@.len() > 0
                && role@ != "user"@ && role@ != "human"@;
            &&& request.ingest_key == session_id + ":"@ + event.event_id@
            &&& typed ==> request.event == "user-prompt"@ && request.source_event is None
                && request.body == seq![
                ("session_id"@, session_id),
                ("prompt"@, event.content@),
            ]
            &&& said ==> request.source_event == Some(role@ + "-message"@)
            &&& event.kind is Message && event.role is None ==> request.source_event == Some(
                "message"@,
            )
            &&& event.kind is Message && event.role == Some(role) && role@.len() == 0
                ==> request.source_event == Some("message"@)
            &&& event.kind is ToolCall ==> request.source_event == Some("tool_call"@)
            &&& event.kind is ToolResult ==> request.source_event == Some("tool_result"@)
            &&& request.source_event matches Some(source) ==> {
                &&& request.event == "backfill."@ + source
                &&& request.body.len() == 3
                &&& request.body[0] == ("session_id"@, session_id)
                &&& request.body[1].0 == "title"@
                &&& request.body[2] == ("message"@, event.content@)
            }
        }),
{
    reveal_strlit("user");
    reveal_strlit("human");
    let none = Seq::<char>::empty();
    assert(none.len() != "user"@.len() && none.len() != "human"@.len());
}

/// A title is the start of the first line without the whitespace around it: all
/// of it up to 120 characters, the first 120 of a longer one. A blank first line
/// is titled by a stand-in. The title of a recorded event is that of its
/// trimmed content.
pub proof fn a_title_is_the_start_of_the_first_line(
    session_id: Seq<char>,
    event: NewWorkstreamEvent,
    content: Seq<char>,
)
    ensures
        ({
            let line = text::trimmed(text::up_to(content, '\n'));
            let title = title_of(content);
            &&& line.len() == 0 ==> title == "(backfilled event)"@
            &&& line.len() > 0 ==> title == line.take(title.len() as int)
            &&& 0 < line.len() <= 120 ==> title.len() == line.len()
            &&& line.len() > 120 ==> title.len() == 120
        }),
        mapped(session_id, event) matches Some(request) ==> request.source_event is Some
            ==> request.body[1].1 == title_of(text::trimmed(event.content@)),
{
    let line = text::trimmed(text::up_to(content, '\n'));
    assert(line.take(line.len() as int) == line);
}

} // verus!
