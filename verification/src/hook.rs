//! The hook items that replay a session: one URL and one body for each event.

use vstd::prelude::*;
use vstd::string::*;
use vstd::utf8::*;

use crate::events::{map_event, MappedEvent, MappedText, NewWorkstreamEvent};
use crate::text;

verus! {

/// One item of a hook batch: the hook URL, whose query names the event and its
/// scope, and the JSON body as the string fields of one object.
#[derive(Debug)]
pub struct HookItem {
    pub url: String,
    pub body: Vec<(String, String)>,
}

/// The text of a [`HookItem`].
pub struct HookText {
    pub url: Seq<char>,
    pub body: Seq<(Seq<char>, Seq<char>)>,
}

impl View for HookItem {
    type V = HookText;

    open spec fn view(&self) -> HookText {
        HookText { url: self.url@, body: self.body.deep_view() }
    }
}

/// The query parameters of the hook URL of one event, in order.
pub open spec fn hook_query(
    workspace: Seq<char>,
    project: Seq<char>,
    agent: Seq<char>,
    event: Seq<char>,
    session_id: Seq<char>,
    ingest_key: Seq<char>,
    source_event: Option<Seq<char>>,
) -> Seq<(Seq<char>, Seq<char>)> {
    let common = seq![
        ("event"@, event),
        ("agent"@, agent),
        ("workspace"@, workspace),
        ("project"@, project),
        ("project_src"@, "marker"@),
        ("session_id"@, session_id),
        ("ingest_key"@, ingest_key),
    ];
    match source_event {
        None => common,
        Some(source) => common + seq![
            ("extension"@, "ai-memory-backfill"@),
            ("source_event"@, source),
        ],
    }
}

/// The text that `result` holds, on its side.
pub open spec fn result_text(result: Result<String, String>) -> Result<Seq<char>, Seq<char>> {
    match result {
        Ok(text) => Ok(text@),
        Err(text) => Err(text@),
    }
}

/// What `reqwest::Url::parse` makes of a text: the serialized URL, or the
/// message of the parse error.
pub uninterp spec fn parsed_url(base: Seq<char>) -> Result<Seq<char>, Seq<char>>;

/// `reqwest::Url::parse` parses `base` as an absolute URL. The result depends
/// on `base` alone; it is named, not spelled out.
#[verifier::external_body]
fn parse_url(base: &str) -> (url: Result<String, String>)
    ensures
        result_text(url) == parsed_url(base@),
{
    match reqwest::Url::parse(base) {
        Ok(url) => Ok(url.into()),
        Err(error) => Err(error.to_string()),
    }
}

/// The byte is written as one in a form-encoded query: it stands for itself, or
/// it is a space, which becomes a plus sign. Any other is written as three.
pub open spec fn is_form_byte(b: u8) -> bool {
    ||| b == 32
    ||| b == 42
    ||| b == 45
    ||| b == 46
    ||| 48 <= b <= 57
    ||| 65 <= b <= 90
    ||| b == 95
    ||| 97 <= b <= 122
}

/// The length of a byte string in form encoding.
pub open spec fn form_len(bytes: Seq<u8>) -> nat
    decreases bytes.len(),
{
    if bytes.len() == 0 {
        0
    } else {
        form_len(bytes.drop_last()) + if is_form_byte(bytes.last()) {
            1nat
        } else {
            3
        }
    }
}

/// The length of `pairs` in a form-encoded query, each with an equals sign and
/// an ampersand.
pub open spec fn pairs_len(pairs: Seq<(Seq<char>, Seq<char>)>) -> nat
    decreases pairs.len(),
{
    if pairs.len() == 0 {
        0
    } else {
        pairs_len(pairs.drop_last()) + form_len(encode_utf8(pairs.last().0)) + form_len(
            encode_utf8(pairs.last().1),
        ) + 2
    }
}

/// By how much `pairs` lengthen `head`, a serialized URL without its fragment:
/// a question mark when there is no query yet, and the pairs, the first of them
/// without an ampersand when nothing stands before it in the query.
pub open spec fn added_len(head: Seq<char>, pairs: Seq<(Seq<char>, Seq<char>)>) -> int {
    let path = text::up_to(head, '?');
    let mark: int = if path.len() < head.len() {
        0
    } else {
        1
    };
    let first: int = if path.len() + 1 >= head.len() && pairs.len() > 0 {
        1
    } else {
        0
    };
    mark + pairs_len(pairs) - first
}

/// Appending `pairs` to the query of the serialized URL `url` leaves every
/// offset that a URL records within 32 bits: where the fragment starts, if
/// there is one, and otherwise where the query starts, if there is none yet.
pub open spec fn text_room(url: Seq<char>, pairs: Seq<(Seq<char>, Seq<char>)>) -> bool {
    let head = text::up_to(url, '#');
    let end = encode_utf8(head).len();
    if head.len() < url.len() {
        end + added_len(head, pairs) <= u32::MAX
    } else {
        text::up_to(head, '?').len() < head.len() || end <= u32::MAX
    }
}

/// If `base` is a URL, it has room for the query `pairs`.
pub open spec fn url_room(base: Seq<char>, pairs: Seq<(Seq<char>, Seq<char>)>) -> bool {
    parsed_url(base) matches Ok(url) ==> text_room(url, pairs)
}

/// What `reqwest::Url::parse_with_params` makes of a base URL and query
/// parameters: the serialized URL, or the message of the parse error.
pub uninterp spec fn url_with_params(
    base: Seq<char>,
    pairs: Seq<(Seq<char>, Seq<char>)>,
) -> Result<Seq<char>, Seq<char>>;

/// `reqwest::Url::parse_with_params` parses `base` as `reqwest::Url::parse`
/// does and appends `pairs` to the query of the URL in form encoding. The
/// result depends on these two arguments alone; it is named, not spelled out.
/// It is an error exactly when `base` does not parse, and then the same one.
#[verifier::external_body]
fn parse_with_params(base: &str, pairs: &Vec<(String, String)>) -> (url: Result<String, String>)
    requires
        url_room(base@, pairs.deep_view()),
    ensures
        result_text(url) == url_with_params(base@, pairs.deep_view()),
        url is Ok <==> parsed_url(base@) is Ok,
        url is Err ==> result_text(url) == parsed_url(base@),
{
    match reqwest::Url::parse_with_params(base, pairs) {
        Ok(url) => Ok(url.into()),
        Err(error) => Err(error.to_string()),
    }
}

/// The item of an event, given what became of its URL.
pub open spec fn item_text(
    url: Result<Seq<char>, Seq<char>>,
    body: Seq<(Seq<char>, Seq<char>)>,
) -> Result<HookText, Seq<char>> {
    match url {
        Ok(url) => Ok(HookText { url, body }),
        Err(error) => Err("building the hook URL for backfill: "@ + error),
    }
}

/// The text of the item, or of the error, that `result` holds.
pub open spec fn item_result(result: Result<HookItem, String>) -> Result<HookText, Seq<char>> {
    match result {
        Ok(item) => Ok(item@),
        Err(message) => Err(message@),
    }
}

/// Makes the item of an event out of its URL and body; a URL that could not be
/// built is an error that says so.
pub fn item_with_url(url: Result<String, String>, body: Vec<(String, String)>) -> (item: Result<
    HookItem,
    String,
>)
    ensures
        item_result(item) == item_text(result_text(url), body.deep_view()),
{
    match url {
        Ok(url) => Ok(HookItem { url, body }),
        Err(error) => Err(
            "building the hook URL for backfill: ".to_owned().concat(error.as_str()),
        ),
    }
}

/// The query parameters of the hook URL of one event.
fn query_pairs(
    workspace: &str,
    project: &str,
    agent: &str,
    event: &str,
    session_id: &str,
    ingest_key: &str,
    source_event: Option<&str>,
) -> (pairs: Vec<(String, String)>)
    ensures
        pairs.deep_view() == hook_query(
            workspace@,
            project@,
            agent@,
            event@,
            session_id@,
            ingest_key@,
            source_event.deep_view(),
        ),
{
    let mut pairs: Vec<(String, String)> = vec![
        ("event".to_owned(), event.to_owned()),
        ("agent".to_owned(), agent.to_owned()),
        ("workspace".to_owned(), workspace.to_owned()),
        ("project".to_owned(), project.to_owned()),
        ("project_src".to_owned(), "marker".to_owned()),
        ("session_id".to_owned(), session_id.to_owned()),
        ("ingest_key".to_owned(), ingest_key.to_owned()),
    ];
    if let Some(source) = source_event {
        pairs.push(("extension".to_owned(), "ai-memory-backfill".to_owned()));
        pairs.push(("source_event".to_owned(), source.to_owned()));
    }
    assert(pairs.deep_view() =~= hook_query(
        workspace@,
        project@,
        agent@,
        event@,
        session_id@,
        ingest_key@,
        source_event.deep_view(),
    ));
    pairs
}

/// Builds the hook item of one event against the URL of the hook endpoint.
pub fn hook_item(
    hook_url: &str,
    workspace: &str,
    project: &str,
    agent: &str,
    event: &str,
    session_id: &str,
    ingest_key: &str,
    source_event: Option<&str>,
    body: Vec<(String, String)>,
) -> (item: Result<HookItem, String>)
    requires
        url_room(
            hook_url@,
            hook_query(
                workspace@,
                project@,
                agent@,
                event@,
                session_id@,
                ingest_key@,
                source_event.deep_view(),
            ),
        ),
    ensures
        item_result(item) == item_text(
            url_with_params(
                hook_url@,
                hook_query(
                    workspace@,
                    project@,
                    agent@,
                    event@,
                    session_id@,
                    ingest_key@,
                    source_event.deep_view(),
                ),
            ),
            body.deep_view(),
        ),
        item is Ok <==> parsed_url(hook_url@) is Ok,
        item is Err ==> item_result(item) == item_text(
            parsed_url(hook_url@),
            body.deep_view(),
        ),
{
    let pairs = query_pairs(
        workspace,
        project,
        agent,
        event,
        session_id,
        ingest_key,
        source_event,
    );
    item_with_url(parse_with_params(hook_url, &pairs), body)
}

/// The hook event that opens or closes a session.
pub open spec fn boundary(session_id: Seq<char>, event: Seq<char>) -> MappedText {
    MappedText {
        event,
        source_event: None,
        ingest_key: session_id + ":"@ + event,
        body: seq![("session_id"@, session_id)],
    }
}

/// The hook events of the transcript events that are kept, in their order.
pub open spec fn content_events(session_id: Seq<char>, events: Seq<NewWorkstreamEvent>) -> Seq<
    MappedText,
>
    decreases events.len(),
{
    if events.len() == 0 {
        Seq::empty()
    } else {
        let before = content_events(session_id, events.drop_last());
        match crate::events::mapped(session_id, events.last()) {
            None => before,
            Some(request) => before.push(request),
        }
    }
}

/// The hook events that replay a session: its start, its content, its end.
pub open spec fn replay(session_id: Seq<char>, events: Seq<NewWorkstreamEvent>) -> Seq<MappedText> {
    seq![boundary(session_id, "session-start"@)] + content_events(session_id, events) + seq![
        boundary(session_id, "session-end"@),
    ]
}

/// The texts of a list of hook events.
pub open spec fn request_texts(requests: Seq<MappedEvent>) -> Seq<MappedText> {
    requests.map_values(|request: MappedEvent| request@)
}

/// The texts of a list of hook items.
pub open spec fn item_texts(items: Seq<HookItem>) -> Seq<HookText> {
    items.map_values(|item: HookItem| item@)
}

/// The hook event that opens or closes a session.
fn boundary_event(session_id: &str, event: &str) -> (request: MappedEvent)
    ensures
        request@ == boundary(session_id@, event@),
{
    let request = MappedEvent {
        event: event.to_owned(),
        source_event: None,
        ingest_key: session_id.to_owned().concat(":").concat(event),
        body: vec![("session_id".to_owned(), session_id.to_owned())],
    };
    assert(request@.body == seq![("session_id"@, session_id@)]);
    request
}

/// The hook events that replay a session's transcript, oldest first.
pub fn replay_requests(session_id: &str, events: &Vec<NewWorkstreamEvent>) -> (requests: Vec<
    MappedEvent,
>)
    ensures
        request_texts(requests@) == replay(session_id@, events@),
{
    let mut requests: Vec<MappedEvent> = Vec::new();
    requests.push(boundary_event(session_id, "session-start"));
    let ghost opening = seq![boundary(session_id@, "session-start"@)];
    assert(request_texts(requests@) == opening + content_events(session_id@, events@.take(0)));
    for n in 0..events.len()
        invariant
            request_texts(requests@) == opening + content_events(
                session_id@,
                events@.take(n as int),
            ),
    {
        let ghost texts = request_texts(requests@);
        assert(events@.take(n + 1).drop_last() == events@.take(n as int));
        if let Some(request) = map_event(session_id, &events[n]) {
            requests.push(request);
            assert(request_texts(requests@) == texts.push(request@));
        }
    }
    assert(events@.take(events@.len() as int) == events@);
    let ghost texts = request_texts(requests@);
    let end = boundary_event(session_id, "session-end");
    requests.push(end);
    assert(request_texts(requests@) == texts.push(end@));
    requests
}

/// The query parameters of the hook URL of one of a session's events.
pub open spec fn request_query(
    workspace: Seq<char>,
    project: Seq<char>,
    agent: Seq<char>,
    session_id: Seq<char>,
    request: MappedText,
) -> Seq<(Seq<char>, Seq<char>)> {
    hook_query(
        workspace,
        project,
        agent,
        request.event,
        session_id,
        request.ingest_key,
        request.source_event,
    )
}

/// The hook URL has room for the query of every one of these events.
pub open spec fn requests_have_room(
    hook_url: Seq<char>,
    workspace: Seq<char>,
    project: Seq<char>,
    agent: Seq<char>,
    session_id: Seq<char>,
    requests: Seq<MappedText>,
) -> bool {
    forall|i: int|
        0 <= i < requests.len() ==> url_room(
            hook_url,
            request_query(workspace, project, agent, session_id, #[trigger] requests[i]),
        )
}

/// The item of one of a session's events, or why it cannot be built.
pub open spec fn request_item(
    hook_url: Seq<char>,
    workspace: Seq<char>,
    project: Seq<char>,
    agent: Seq<char>,
    session_id: Seq<char>,
    request: MappedText,
) -> Result<HookText, Seq<char>> {
    item_text(
        url_with_params(hook_url, request_query(workspace, project, agent, session_id, request)),
        request.body,
    )
}

/// The items of a list of events, each with the URL that its query gives.
pub open spec fn built(
    hook_url: Seq<char>,
    workspace: Seq<char>,
    project: Seq<char>,
    agent: Seq<char>,
    session_id: Seq<char>,
    requests: Seq<MappedText>,
    items: Seq<HookText>,
) -> bool {
    &&& items.len() == requests.len()
    &&& forall|i: int|
        0 <= i < items.len() ==> request_item(
            hook_url,
            workspace,
            project,
            agent,
            session_id,
            #[trigger] requests[i],
        ) == Ok::<HookText, Seq<char>>(items[i])
}

/// One more item keeps a list of items built.
proof fn built_push(
    hook_url: Seq<char>,
    workspace: Seq<char>,
    project: Seq<char>,
    agent: Seq<char>,
    session_id: Seq<char>,
    requests: Seq<MappedText>,
    items: Seq<HookText>,
    request: MappedText,
    item: HookText,
)
    requires
        built(hook_url, workspace, project, agent, session_id, requests, items),
        request_item(hook_url, workspace, project, agent, session_id, request) == Ok::<
            HookText,
            Seq<char>,
        >(item),
    ensures
        built(
            hook_url,
            workspace,
            project,
            agent,
            session_id,
            requests.push(request),
            items.push(item),
        ),
{
    let asked = requests.push(request);
    let made = items.push(item);
    assert forall|i: int| 0 <= i < made.len() implies request_item(
        hook_url,
        workspace,
        project,
        agent,
        session_id,
        #[trigger] asked[i],
    ) == Ok::<HookText, Seq<char>>(made[i]) by {
        if i < items.len() {
            assert(asked[i] == requests[i]);
        }
    }
}

/// A session ready to be replayed: its hook items, oldest first, and how many
/// of them carry content.
#[derive(Debug)]
pub struct Replay {
    pub items: Vec<HookItem>,
    pub content: usize,
}

/// `result` is what replaying a transcript gives: its hook items exactly when
/// the hook URL is one, otherwise the error that says why it is not.
pub open spec fn replayed(
    hook_url: Seq<char>,
    workspace: Seq<char>,
    project: Seq<char>,
    agent: Seq<char>,
    session_id: Seq<char>,
    events: Seq<NewWorkstreamEvent>,
    result: Result<Replay, String>,
) -> bool {
    match parsed_url(hook_url) {
        Ok(_) => {
            &&& result matches Ok(ready)
            &&& built(
                hook_url,
                workspace,
                project,
                agent,
                session_id,
                replay(session_id, events),
                item_texts(ready.items@),
            )
            &&& ready.content == content_events(session_id, events).len()
        },
        Err(error) => {
            &&& result matches Err(message)
            &&& message@ == "building the hook URL for backfill: "@ + error
        },
    }
}

/// Builds the hook items that replay a session's transcript. They are built
/// exactly when the hook URL is one; otherwise the error says why not.
pub fn replay_items(
    hook_url: &str,
    workspace: &str,
    project: &str,
    agent: &str,
    session_id: &str,
    events: &Vec<NewWorkstreamEvent>,
) -> (result: Result<Replay, String>)
    requires
        requests_have_room(
            hook_url@,
            workspace@,
            project@,
            agent@,
            session_id@,
            replay(session_id@, events@),
        ),
    ensures
        replayed(hook_url@, workspace@, project@, agent@, session_id@, events@, result),
{
    let requests = replay_requests(session_id, events);
    let ghost texts = replay(session_id@, events@);
    assert(request_texts(requests@).len() == requests@.len());
    assert(texts.len() == content_events(session_id@, events@).len() + 2);
    let content: usize = requests.len() - 2;
    let ghost source = requests@;
    let mut items: Vec<HookItem> = Vec::new();
    for request in it: requests
        invariant
            texts == replay(session_id@, events@),
            it.seq() == source,
            request_texts(source) == texts,
            requests_have_room(hook_url@, workspace@, project@, agent@, session_id@, texts),
            items@.len() == it.index(),
            it.index() > 0 ==> parsed_url(hook_url@) is Ok,
            built(
                hook_url@,
                workspace@,
                project@,
                agent@,
                session_id@,
                texts.take(it.index() as int),
                item_texts(items@),
            ),
    {
        let ghost at = it.index() as int;
        let ghost held = item_texts(items@);
        let ghost text = request@;
        assert(texts[at] == text);
        let source_event: Option<&str> = match &request.source_event {
            None => None,
            Some(name) => Some(name.as_str()),
        };
        let item = hook_item(
            hook_url,
            workspace,
            project,
            agent,
            request.event.as_str(),
            session_id,
            request.ingest_key.as_str(),
            source_event,
            request.body,
        )?;
        items.push(item);
        proof {
            built_push(
                hook_url@,
                workspace@,
                project@,
                agent@,
                session_id@,
                texts.take(at),
                held,
                text,
                item@,
            );
            assert(item_texts(items@) == held.push(item@));
            assert(texts.take(at + 1) == texts.take(at).push(text));
        }
    }
    assert(texts.take(texts.len() as int) == texts);
    Ok(Replay { items, content })
}

/// Fewer pairs never take more bytes.
proof fn pairs_len_of_prefix(pairs: Seq<(Seq<char>, Seq<char>)>, n: int)
    requires
        0 <= n <= pairs.len(),
    ensures
        pairs_len(pairs.take(n)) <= pairs_len(pairs),
    decreases pairs.len(),
{
    if n < pairs.len() {
        pairs_len_of_prefix(pairs.drop_last(), n);
        assert(pairs.drop_last().take(n) == pairs.take(n));
    } else {
        assert(pairs.take(n) == pairs);
    }
}

/// The length of `s` in form encoding.
fn form_len_of(s: &str) -> (len: u128)
    ensures
        len == form_len(encode_utf8(s@)),
        len <= 3 * usize::MAX,
{
    let bytes = s.as_bytes();
    let mut len: u128 = 0;
    for n in 0..bytes.len()
        invariant
            len == form_len(bytes@.take(n as int)),
            len <= 3 * n,
    {
        assert(bytes@.take(n + 1).drop_last() == bytes@.take(n as int));
        let b: u8 = bytes[n];
        let plain = b == 32 || b == 42 || b == 45 || b == 46 || (48 <= b && b <= 57) || (65 <= b
            && b <= 90) || b == 95 || (97 <= b && b <= 122);
        len = len + if plain {
            1
        } else {
            3
        };
    }
    assert(bytes@.take(bytes@.len() as int) == bytes@);
    len
}

/// Whether the serialized URL `url` has room for the query `pairs`.
fn has_room(url: &str, pairs: &Vec<(String, String)>) -> (room: bool)
    ensures
        room == text_room(url@, pairs.deep_view()),
{
    let ghost texts = pairs.deep_view();
    let head = text::head_of(url, '#');
    let path = text::head_of(head, '?');
    let end: u128 = head.as_bytes().len() as u128;
    let has_query = path.unicode_len() < head.unicode_len();
    let limit: u128 = u32::MAX as u128;
    if head.unicode_len() == url.unicode_len() {
        return has_query || end <= limit;
    }
    let bare = !has_query || path.unicode_len() + 1 == head.unicode_len();
    let most: u128 = if bare && pairs.len() > 0 {
        limit + 1
    } else {
        limit
    };
    let mut size: u128 = if has_query {
        end
    } else {
        end + 1
    };
    let ghost fixed = size as int;
    assert(texts.take(0) == Seq::<(Seq<char>, Seq<char>)>::empty());
    for n in 0..pairs.len()
        invariant
            texts == pairs.deep_view(),
            size == fixed + pairs_len(texts.take(n as int)),
            size <= 0x1_0000_0000_0000_0000,
            most <= 0x1_0000_0000,
            !(fixed + pairs_len(texts) <= most) ==> !text_room(url@, texts),
    {
        let pair = &pairs[n];
        let name: u128 = form_len_of(pair.0.as_str());
        let value: u128 = form_len_of(pair.1.as_str());
        size = size + name + value + 2;
        assert(texts.take(n + 1).drop_last() == texts.take(n as int));
        assert(texts[n as int] == (pair.0@, pair.1@));
        if size > most {
            proof {
                pairs_len_of_prefix(texts, n + 1);
            }
            return false;
        }
    }
    assert(texts.take(texts.len() as int) == texts);
    size <= most
}

/// Whether the hook URL has room for every query of a session's replay.
fn replay_has_room(
    hook_url: &str,
    workspace: &str,
    project: &str,
    agent: &str,
    session_id: &str,
    events: &Vec<NewWorkstreamEvent>,
) -> (room: bool)
    ensures
        room == requests_have_room(
            hook_url@,
            workspace@,
            project@,
            agent@,
            session_id@,
            replay(session_id@, events@),
        ),
{
    let url = match parse_url(hook_url) {
        Ok(url) => url,
        Err(_) => {
            return true;
        },
    };
    let requests = replay_requests(session_id, events);
    let ghost texts = request_texts(requests@);
    for n in 0..requests.len()
        invariant
            parsed_url(hook_url@) == Ok::<Seq<char>, Seq<char>>(url@),
            texts == request_texts(requests@),
            texts == replay(session_id@, events@),
            forall|i: int|
                0 <= i < n ==> url_room(
                    hook_url@,
                    request_query(
                        workspace@,
                        project@,
                        agent@,
                        session_id@,
                        #[trigger] texts[i],
                    ),
                ),
    {
        let request = &requests[n];
        assert(texts[n as int] == request@);
        let source_event: Option<&str> = match &request.source_event {
            None => None,
            Some(name) => Some(name.as_str()),
        };
        let pairs = query_pairs(
            workspace,
            project,
            agent,
            request.event.as_str(),
            session_id,
            request.ingest_key.as_str(),
            source_event,
        );
        if !has_room(url.as_str(), &pairs) {
            return false;
        }
    }
    assert(texts.len() == requests@.len());
    true
}

/// Builds the hook items that replay a session's transcript, as
/// [`replay_items`] does; `None` exactly when the hook URL has no room for the
/// query of one of them, which takes an offset of 4 GiB or more.
pub fn replay_session(
    hook_url: &str,
    workspace: &str,
    project: &str,
    agent: &str,
    session_id: &str,
    events: &Vec<NewWorkstreamEvent>,
) -> (outcome: Option<Result<Replay, String>>)
    ensures
        outcome is Some <==> requests_have_room(
            hook_url@,
            workspace@,
            project@,
            agent@,
            session_id@,
            replay(session_id@, events@),
        ),
        outcome matches Some(result) ==> replayed(
            hook_url@,
            workspace@,
            project@,
            agent@,
            session_id@,
            events@,
            result,
        ),
{
    if replay_has_room(hook_url, workspace, project, agent, session_id, events) {
        Some(replay_items(hook_url, workspace, project, agent, session_id, events))
    } else {
        None
    }
}

/// A replay opens with the session's start and closes with its end, and
/// between them stands what each transcript event is recorded as, in order.
pub proof fn a_replay_is_start_content_end(session_id: Seq<char>, events: Seq<NewWorkstreamEvent>)
    ensures
        replay(session_id, events).first() == boundary(session_id, "session-start"@),
        replay(session_id, events).last() == boundary(session_id, "session-end"@),
        replay(session_id, events).subrange(1, replay(session_id, events).len() - 1)
            == content_events(session_id, events),
        content_events(session_id, events).len() <= events.len(),
    decreases events.len(),
{
    let whole = replay(session_id, events);
    assert(whole.subrange(1, whole.len() - 1) == content_events(session_id, events));
    if events.len() > 0 {
        a_replay_is_start_content_end(session_id, events.drop_last());
    }
}

/// What a transcript is recorded as is what its parts are recorded as, one
/// after the other.
pub proof fn content_of_parts(
    session_id: Seq<char>,
    a: Seq<NewWorkstreamEvent>,
    b: Seq<NewWorkstreamEvent>,
)
    ensures
        content_events(session_id, a + b) == content_events(session_id, a) + content_events(
            session_id,
            b,
        ),
    decreases b.len(),
{
    if b.len() == 0 {
        assert(a + b == a);
    } else {
        assert((a + b).drop_last() == a + b.drop_last());
        content_of_parts(session_id, a, b.drop_last());
    }
}

/// Every hook URL of a session names the session, its agent and its project,
/// and it names the extension exactly when the event is an extension event.
pub proof fn every_item_is_attributed(
    workspace: Seq<char>,
    project: Seq<char>,
    agent: Seq<char>,
    session_id: Seq<char>,
    request: MappedText,
)
    ensures
        ({
            let query = request_query(workspace, project, agent, session_id, request);
            &&& query.contains(("event"@, request.event))
            &&& query.contains(("agent"@, agent))
            &&& query.contains(("workspace"@, workspace))
            &&& query.contains(("project"@, project))
            &&& query.contains(("session_id"@, session_id))
            &&& query.contains(("ingest_key"@, request.ingest_key))
            &&& query.contains(("extension"@, "ai-memory-backfill"@)) <==> request.source_event
                is Some
        }),
{
    let query = request_query(workspace, project, agent, session_id, request);
    assert(query[0] == ("event"@, request.event));
    assert(query[1] == ("agent"@, agent));
    assert(query[2] == ("workspace"@, workspace));
    assert(query[3] == ("project"@, project));
    assert(query[5] == ("session_id"@, session_id));
    assert(query[6] == ("ingest_key"@, request.ingest_key));
    if request.source_event is Some {
        assert(query[7] == ("extension"@, "ai-memory-backfill"@));
    } else {
        reveal_strlit("extension");
        reveal_strlit("event");
        reveal_strlit("agent");
        reveal_strlit("workspace");
        reveal_strlit("project");
        reveal_strlit("project_src");
        reveal_strlit("session_id");
        reveal_strlit("ingest_key");
        assert(query.len() == 7);
        assert forall|i: int| 0 <= i < query.len() implies query[i].0 != "extension"@ by {
            if i == 2 {
                assert(query[2].0[0] == 'w' && "extension"@[0] == 'e');
            } else {
                assert(query[i].0.len() != "extension"@.len());
            }
        }
    }
}

/// Every hook event of a transcript is ingested under the key of one of its
/// events.
proof fn content_keys_come_from_events(
    session_id: Seq<char>,
    events: Seq<NewWorkstreamEvent>,
    k: int,
)
    requires
        0 <= k < content_events(session_id, events).len(),
    ensures
        exists|e: int|
            0 <= e < events.len() && content_events(session_id, events)[k].ingest_key
                == crate::events::ingest_key(session_id, (#[trigger] events[e]).event_id@),
    decreases events.len(),
{
    let before = events.drop_last();
    let last = events.len() - 1;
    if k < content_events(session_id, before).len() {
        content_keys_come_from_events(session_id, before, k);
        let e = choose|e: int|
            0 <= e < before.len() && content_events(session_id, before)[k].ingest_key
                == crate::events::ingest_key(session_id, (#[trigger] before[e]).event_id@);
        assert(events[e] == before[e]);
    } else {
        crate::events::a_mapped_event_keeps_content_and_origin(session_id, events.last());
        assert(events[last] == events.last());
    }
}

/// The hook events of a transcript have different keys when its events have
/// different ids.
proof fn content_keys_are_distinct(
    session_id: Seq<char>,
    events: Seq<NewWorkstreamEvent>,
    i: int,
    j: int,
)
    requires
        forall|a: int, b: int|
            0 <= a < b < events.len() ==> (#[trigger] events[a]).event_id@ != (
            #[trigger] events[b]).event_id@,
        0 <= i < j < content_events(session_id, events).len(),
    ensures
        content_events(session_id, events)[i].ingest_key != content_events(
            session_id,
            events,
        )[j].ingest_key,
    decreases events.len(),
{
    let before = events.drop_last();
    let last = events.len() - 1;
    if j < content_events(session_id, before).len() {
        content_keys_are_distinct(session_id, before, i, j);
    } else {
        content_keys_come_from_events(session_id, before, i);
        let e = choose|e: int|
            0 <= e < before.len() && content_events(session_id, before)[i].ingest_key
                == crate::events::ingest_key(session_id, (#[trigger] before[e]).event_id@);
        assert(events[e] == before[e]);
        assert(events[last] == events.last());
        crate::events::a_mapped_event_keeps_content_and_origin(session_id, events.last());
        crate::events::ingest_keys_tell_events_apart(
            session_id,
            events[e].event_id@,
            events[last].event_id@,
        );
    }
}

/// No two items of a replay share an ingest key, as long as the transcript's
/// events have different ids and none is called like the start or the end.
pub proof fn replayed_items_have_their_own_keys(
    session_id: Seq<char>,
    events: Seq<NewWorkstreamEvent>,
    i: int,
    j: int,
)
    requires
        forall|a: int, b: int|
            0 <= a < b < events.len() ==> (#[trigger] events[a]).event_id@ != (
            #[trigger] events[b]).event_id@,
        forall|a: int|
            0 <= a < events.len() ==> (#[trigger] events[a]).event_id@ != "session-start"@
                && events[a].event_id@ != "session-end"@,
        0 <= i < j < replay(session_id, events).len(),
    ensures
        replay(session_id, events)[i].ingest_key != replay(session_id, events)[j].ingest_key,
{
    let content = content_events(session_id, events);
    let n = content.len() as int;
    if 0 < i && j <= n {
        content_keys_are_distinct(session_id, events, i - 1, j - 1);
    } else if i == 0 && j == n + 1 {
        reveal_strlit("session-start");
        reveal_strlit("session-end");
        assert("session-start"@.len() != "session-end"@.len());
        crate::events::ingest_keys_tell_events_apart(
            session_id,
            "session-start"@,
            "session-end"@,
        );
    } else {
        let (k, name) = if i == 0 {
            (j - 1, "session-start"@)
        } else {
            (i - 1, "session-end"@)
        };
        content_keys_come_from_events(session_id, events, k);
        let e = choose|e: int|
            0 <= e < events.len() && content[k].ingest_key == crate::events::ingest_key(
                session_id,
                (#[trigger] events[e]).event_id@,
            );
        crate::events::ingest_keys_tell_events_apart(session_id, events[e].event_id@, name);
    }
}

/// A transcript of one event is recorded as what that event is recorded as:
/// one hook event, or none.
pub proof fn one_event_is_recorded_at_most_once(session_id: Seq<char>, event: NewWorkstreamEvent)
    ensures
        content_events(session_id, seq![event]) == match crate::events::mapped(session_id, event) {
            Some(request) => seq![request],
            None => Seq::empty(),
        },
{
    let one = seq![event];
    assert(one.drop_last() == Seq::<NewWorkstreamEvent>::empty());
    assert(content_events(session_id, one.drop_last()) == Seq::<MappedText>::empty());
}

/// The content of a replay is one hook event for each message, tool call and
/// tool result that holds text, in the order of the transcript; nothing else is
/// in it and nothing of this is left out.
pub proof fn every_event_with_text_is_replayed(
    session_id: Seq<char>,
    events: Seq<NewWorkstreamEvent>,
)
    ensures
        ({
            let recorded = events.filter(
                |event: NewWorkstreamEvent|
                    {
                        &&& event.kind is Message || event.kind is ToolCall
                            || event.kind is ToolResult
                        &&& exists|k: int|
                            0 <= k < event.content@.len() && !text::is_white_space(
                                #[trigger] event.content@[k],
                            )
                    },
            );
            let content = content_events(session_id, events);
            &&& content.len() == recorded.len()
            &&& forall|i: int|
                0 <= i < content.len() ==> crate::events::mapped(session_id, recorded[i]) == Some(
                    #[trigger] content[i],
                )
        }),
    decreases events.len(),
{
    reveal(Seq::filter);
    if events.len() > 0 {
        let before = events.drop_last();
        every_event_with_text_is_replayed(session_id, before);
        crate::events::content_with_text_is_recorded(session_id, events.last());
        let keep = |event: NewWorkstreamEvent|
            {
                &&& event.kind is Message || event.kind is ToolCall || event.kind is ToolResult
                &&& exists|k: int|
                    0 <= k < event.content@.len() && !text::is_white_space(
                        #[trigger] event.content@[k],
                    )
            };
        let (old_recorded, recorded) = (before.filter(keep), events.filter(keep));
        let (old_content, content) = (
            content_events(session_id, before),
            content_events(session_id, events),
        );
        assert(recorded == if keep(events.last()) {
            old_recorded.push(events.last())
        } else {
            old_recorded
        });
        assert forall|i: int| 0 <= i < content.len() implies crate::events::mapped(
            session_id,
            recorded[i],
        ) == Some(#[trigger] content[i]) by {
            if i < old_content.len() {
                assert(content[i] == old_content[i]);
                assert(recorded[i] == old_recorded[i]);
            }
        }
    }
}

/// A replay is two items longer than its content. The first opens the session
/// and the last closes it, each under a key of its own and with the session id
/// as its body; neither is an extension event.
pub proof fn a_replay_opens_and_closes_its_session(
    session_id: Seq<char>,
    events: Seq<NewWorkstreamEvent>,
)
    ensures
        ({
            let whole = replay(session_id, events);
            let (first, last) = (whole[0], whole[whole.len() - 1]);
            &&& whole.len() == content_events(session_id, events).len() + 2
            &&& first.event == "session-start"@
            &&& first.ingest_key == session_id + ":"@ + "session-start"@
            &&& first.source_event is None
            &&& first.body == seq![("session_id"@, session_id)]
            &&& last.event == "session-end"@
            &&& last.ingest_key == session_id + ":"@ + "session-end"@
            &&& last.source_event is None
            &&& last.body == seq![("session_id"@, session_id)]
        }),
{
}

/// The query of an event names the event, the agent, the scope and how it was
/// found, the session and the key, in this order and each once; that of an
/// extension event goes on with the extension and the source event.
pub proof fn a_query_names_the_event_and_its_scope(
    workspace: Seq<char>,
    project: Seq<char>,
    agent: Seq<char>,
    session_id: Seq<char>,
    request: MappedText,
)
    ensures
        ({
            let query = request_query(workspace, project, agent, session_id, request);
            &&& query.len() == if request.source_event is Some {
                9int
            } else {
                7
            }
            &&& query[0] == ("event"@, request.event)
            &&& query[1] == ("agent"@, agent)
            &&& query[2] == ("workspace"@, workspace)
            &&& query[3] == ("project"@, project)
            &&& query[4] == ("project_src"@, "marker"@)
            &&& query[5] == ("session_id"@, session_id)
            &&& query[6] == ("ingest_key"@, request.ingest_key)
            &&& request.source_event matches Some(source) ==> query[7] == (
                "extension"@,
                "ai-memory-backfill"@,
            ) && query[8] == ("source_event"@, source)
        }),
{
}

/// A session that could be replayed has one item for each event of its replay,
/// in order: its URL is the hook URL with the query of that event, and its body
/// is that of the event. The count leaves out the start and the end. If the
/// hook URL is none there are no items, and the error gives the reason.
pub proof fn each_event_has_its_item(
    hook_url: Seq<char>,
    workspace: Seq<char>,
    project: Seq<char>,
    agent: Seq<char>,
    session_id: Seq<char>,
    events: Seq<NewWorkstreamEvent>,
    result: Result<Replay, String>,
)
    requires
        replayed(hook_url, workspace, project, agent, session_id, events, result),
    ensures
        result is Ok <==> parsed_url(hook_url) is Ok,
        result matches Ok(ready) ==> {
            let whole = replay(session_id, events);
            &&& ready.items@.len() == whole.len()
            &&& ready.content == whole.len() - 2
            &&& forall|i: int|
                0 <= i < ready.items@.len() ==> {
                    let request = whole[i];
                    let query = hook_query(
                        workspace,
                        project,
                        agent,
                        request.event,
                        session_id,
                        request.ingest_key,
                        request.source_event,
                    );
                    &&& url_with_params(hook_url, query) is Ok
                    &&& url_with_params(hook_url, query)->Ok_0 == (#[trigger] ready.items@[i]).url@
                    &&& ready.items@[i].body.deep_view() == request.body
                }
        },
        result matches Err(message) ==> message@ == "building the hook URL for backfill: "@
            + parsed_url(hook_url)->Err_0,
{
    if let Ok(ready) = result {
        let whole = replay(session_id, events);
        let texts = item_texts(ready.items@);
        a_replay_opens_and_closes_its_session(session_id, events);
        assert forall|i: int| 0 <= i < ready.items@.len() implies {
            let request = whole[i];
            let query = hook_query(
                workspace,
                project,
                agent,
                request.event,
                session_id,
                request.ingest_key,
                request.source_event,
            );
            &&& url_with_params(hook_url, query) is Ok
            &&& url_with_params(hook_url, query)->Ok_0 == (#[trigger] ready.items@[i]).url@
            &&& ready.items@[i].body.deep_view() == request.body
        } by {
            assert(texts[i] == ready.items@[i]@);
            assert(request_item(hook_url, workspace, project, agent, session_id, whole[i]) == Ok::<
                HookText,
                Seq<char>,
            >(texts[i]));
        }
    }
}

/// The bytes of the names and values of `pairs`.
pub open spec fn pairs_bytes(pairs: Seq<(Seq<char>, Seq<char>)>) -> nat
    decreases pairs.len(),
{
    if pairs.len() == 0 {
        0
    } else {
        pairs_bytes(pairs.drop_last()) + encode_utf8(pairs.last().0).len() + encode_utf8(
            pairs.last().1,
        ).len()
    }
}

proof fn form_len_is_at_most_threefold(bytes: Seq<u8>)
    ensures
        bytes.len() <= form_len(bytes) <= 3 * bytes.len(),
    decreases bytes.len(),
{
    if bytes.len() > 0 {
        form_len_is_at_most_threefold(bytes.drop_last());
    }
}

proof fn pairs_len_is_bounded(pairs: Seq<(Seq<char>, Seq<char>)>)
    ensures
        pairs_bytes(pairs) + 2 * pairs.len() <= pairs_len(pairs) <= 3 * pairs_bytes(pairs) + 2
            * pairs.len(),
    decreases pairs.len(),
{
    if pairs.len() > 0 {
        pairs_len_is_bounded(pairs.drop_last());
        form_len_is_at_most_threefold(encode_utf8(pairs.last().0));
        form_len_is_at_most_threefold(encode_utf8(pairs.last().1));
    }
}

/// A URL has room for any query that keeps it below 4 GiB even when every byte
/// of it is written as three; a URL without a fragment has room for any query
/// once it is below 4 GiB itself. A URL with a fragment has no room for a query
/// of 4 GiB or more.
pub proof fn there_is_room_below_4_gib(url: Seq<char>, pairs: Seq<(Seq<char>, Seq<char>)>)
    ensures
        ({
            let head = text::up_to(url, '#');
            let end = encode_utf8(head).len();
            &&& end + 1 + 3 * pairs_bytes(pairs) + 2 * pairs.len() <= u32::MAX ==> text_room(
                url,
                pairs,
            )
            &&& !url.contains('#') && end <= u32::MAX ==> text_room(url, pairs)
            &&& url.contains('#') && end + pairs_bytes(pairs) + 2 * pairs.len() > u32::MAX + 1
                ==> !text_room(url, pairs)
        }),
{
    pairs_len_is_bounded(pairs);
    text::a_head_ends_at_the_first_stop(url, '#');
    text::a_head_ends_at_the_first_stop(text::up_to(url, '#'), '?');
    let head = text::up_to(url, '#');
    if head.len() == url.len() {
        assert(head == url);
    } else {
        assert(url[head.len() as int] == '#');
    }
}

/// In form encoding letters, digits, the four marks `*-._` and the space take
/// one byte and every other byte takes three; strings add up.
pub proof fn form_encoding_goes_byte_by_byte(a: Seq<u8>, b: Seq<u8>, byte: u8)
    ensures
        form_len(a + b) == form_len(a) + form_len(b),
        form_len(Seq::empty()) == 0,
        form_len(seq![byte]) == if byte == ' ' as u8 || byte == '*' as u8 || byte == '-' as u8
            || byte == '.' as u8 || byte == '_' as u8 || '0' as u8 <= byte <= '9' as u8 || 'A' as u8
            <= byte <= 'Z' as u8 || 'a' as u8 <= byte <= 'z' as u8 {
            1nat
        } else {
            3
        },
    decreases b.len(),
{
    let one = seq![byte];
    assert(one.drop_last() == Seq::<u8>::empty());
    assert(form_len(one.drop_last()) == 0);
    if b.len() == 0 {
        assert(a + b == a);
    } else {
        assert((a + b).drop_last() == a + b.drop_last());
        form_encoding_goes_byte_by_byte(a, b.drop_last(), byte);
    }
}

/// A pair lengthens a query that already has text by its name and its value in
/// form encoding, with an equals sign and an ampersand. The first pair of an
/// empty query needs no ampersand, and a URL without a query gets its question
/// mark.
pub proof fn a_pair_lengthens_the_query(
    head: Seq<char>,
    pairs: Seq<(Seq<char>, Seq<char>)>,
    pair: (Seq<char>, Seq<char>),
)
    ensures
        ({
            let own = form_len(encode_utf8(pair.0)) + 1 + form_len(encode_utf8(pair.1));
            let queried = head.contains('?');
            &&& added_len(head, Seq::empty()) == if queried {
                0int
            } else {
                1
            }
            &&& pairs.len() > 0 ==> added_len(head, pairs.push(pair)) == added_len(head, pairs)
                + own + 1
            &&& queried && head.drop_last().contains('?') ==> added_len(head, seq![pair]) == own + 1
            &&& queried && !head.drop_last().contains('?') ==> added_len(head, seq![pair]) == own
            &&& !queried ==> added_len(head, seq![pair]) == own + 1
        }),
{
    let path = text::up_to(head, '?');
    text::a_head_ends_at_the_first_stop(head, '?');
    assert(pairs.push(pair).drop_last() == pairs);
    let one = seq![pair];
    assert(one.drop_last() == Seq::<(Seq<char>, Seq<char>)>::empty());
    assert(pairs_len(one.drop_last()) == 0);
    if path.len() < head.len() {
        assert(head[path.len() as int] == '?');
        assert(head.contains('?'));
        if path.len() + 1 < head.len() {
            assert(head.drop_last()[path.len() as int] == '?');
        } else if head.drop_last().contains('?') {
            let i = head.drop_last().index_of('?');
            assert(head.take(path.len() as int)[i] == '?');
            assert(path[i] == '?');
        }
    } else {
        assert(path == head);
    }
}

/// Whether there is room goes by the offset that is recorded last: where the
/// fragment comes to start, or else where a first query starts.
pub proof fn room_goes_by_the_last_offset(url: Seq<char>, pairs: Seq<(Seq<char>, Seq<char>)>)
    ensures
        ({
            let head = text::up_to(url, '#');
            let end = encode_utf8(head).len();
            &&& url.contains('#') ==> (text_room(url, pairs) <==> end + added_len(head, pairs)
                <= 0xffff_ffff)
            &&& !url.contains('#') && url.contains('?') ==> text_room(url, pairs)
            &&& !url.contains('#') && !url.contains('?') ==> (text_room(url, pairs)
                <==> encode_utf8(url).len() <= 0xffff_ffff)
        }),
{
    let head = text::up_to(url, '#');
    text::a_head_ends_at_the_first_stop(url, '#');
    text::a_head_ends_at_the_first_stop(head, '?');
    if head.len() == url.len() {
        assert(head == url);
        let path = text::up_to(head, '?');
        if path.len() == head.len() {
            assert(path == head);
        } else {
            assert(url[path.len() as int] == '?');
        }
    } else {
        assert(url[head.len() as int] == '#');
    }
}

} // verus!
