//! Selecting, mapping, replaying and delivering local sessions.

use ai_memory::backfill::{
    gate, Action, Backfill, BackfillOptions, Event, Gate, Stage, MAX_EVENTS_TOTAL,
};
use ai_memory::delivery::{Advice, Batch, Delivery, HOOK_BATCH_ITEMS};
use ai_memory::events::{
    first_line, map_event, MappedEvent, NewWorkstreamEvent, WorkstreamEventKind,
};
use ai_memory::harness::{
    scanned_harnesses, HarnessListing, ManagedHarness, NativeSession,
};
use ai_memory::hook::{hook_item, item_with_url, replay_items, replay_requests, replay_session};
use ai_memory::report::{
    display_id, failure_line, finish, outcome, summary_line, BackfillReport, Output,
};
use ai_memory::sentinel::{sentinel_path, sentinel_path_of_digest};
use ai_memory::sessions::{collect_local_sessions, select_sessions, SessionRef};
use ai_memory::time::Timestamp;

fn session(id: &str, secs_ago: u64) -> SessionRef {
    SessionRef {
        harness: ManagedHarness::Claude,
        native_session_id: id.to_string(),
        updated_at: Timestamp { secs: 1_000_000 - secs_ago as i64, nanos: 0 },
    }
}

fn ids(sessions: &[SessionRef]) -> Vec<&str> {
    sessions.iter().map(|s| s.native_session_id.as_str()).collect()
}

#[test]
fn select_sessions_keeps_the_newest_up_to_the_cap() {
    let all = vec![session("old", 300), session("new", 10), session("mid", 100)];
    let picked = select_sessions(all, 2);
    assert_eq!(
        picked
            .iter()
            .map(|s| s.native_session_id.as_str())
            .collect::<Vec<_>>(),
        vec!["new", "mid"],
        "newest first, capped to 2"
    );
}

#[test]
fn select_sessions_cap_zero_is_raised_to_one_by_caller_contract() {
    // A run raises a cap of zero to one; select_sessions itself honors whatever
    // it is given, so a literal 0 yields nothing.
    assert!(select_sessions(vec![session("a", 1)], 0).is_empty());
    assert_eq!(select_sessions(vec![session("a", 1)], 1).len(), 1);
}

#[test]
fn sessions_of_the_same_age_go_by_id_and_then_by_position() {
    let mut second = session("b", 5);
    second.harness = ManagedHarness::Codex;
    let picked = select_sessions(
        vec![session("b", 5), second, session("a", 5), session("é", 5), session("z", 5)],
        10,
    );
    assert_eq!(ids(&picked), vec!["a", "b", "b", "z", "é"]);
    assert_eq!(picked[1].harness, ManagedHarness::Claude);
    assert_eq!(picked[2].harness, ManagedHarness::Codex);
}

#[test]
fn a_fraction_of_a_second_makes_a_session_newer() {
    let mut later = session("later", 5);
    later.updated_at.nanos = 1;
    let picked = select_sessions(vec![session("a", 5), later], 1);
    assert_eq!(ids(&picked), vec!["later"]);
}

#[test]
fn a_smaller_cap_keeps_a_prefix_of_the_selection() {
    let all = || vec![session("c", 3), session("a", 1), session("d", 4), session("b", 2)];
    assert_eq!(ids(&select_sessions(all(), 4)), vec!["a", "b", "c", "d"]);
    assert_eq!(ids(&select_sessions(all(), 3)), vec!["a", "b", "c"]);
    assert_eq!(ids(&select_sessions(all(), 99)), vec!["a", "b", "c", "d"]);
}

fn listing(
    harness: ManagedHarness,
    agent: &str,
    sessions: Option<Vec<(&str, i64)>>,
) -> HarnessListing {
    HarnessListing {
        harness,
        agent: agent.to_string(),
        sessions: sessions.map(|list| {
            list.into_iter()
                .map(|(id, secs)| NativeSession {
                    native_session_id: id.to_string(),
                    updated_at: Timestamp { secs, nanos: 0 },
                })
                .collect()
        }),
    }
}

#[test]
fn collected_sessions_come_from_readable_stores_and_can_be_narrowed() {
    let listings = vec![
        listing(ManagedHarness::Omp, "omp", Some(vec![("one", 10), ("two", 20)])),
        listing(ManagedHarness::Codex, "codex", None),
        listing(ManagedHarness::Kimi, "kimi-code", Some(vec![("one", 30)])),
    ];
    let all = collect_local_sessions(&listings, None);
    assert_eq!(ids(&all), vec!["one", "two", "one"]);
    assert_eq!(all[2].harness, ManagedHarness::Kimi);
    assert_eq!(all[1].updated_at.secs, 20);
    let only = collect_local_sessions(&listings, Some("one"));
    assert_eq!(ids(&only), vec!["one", "one"]);
    assert!(collect_local_sessions(&listings, Some("nope")).is_empty());
}

#[test]
fn every_harness_is_scanned_exactly_once() {
    let order = scanned_harnesses();
    assert_eq!(order.len(), 13);
    assert_eq!(order[0], ManagedHarness::Claude);
    assert_eq!(order[12], ManagedHarness::Antigravity);
    for (i, a) in order.iter().enumerate() {
        assert!(order.iter().skip(i + 1).all(|b| a != b));
    }
}

#[test]
fn sentinel_path_is_cwd_specific_and_path_safe() {
    let dir: &[u8] = b"/data";
    let a = sentinel_path(dir, b"/home/me/projects/app");
    let b = sentinel_path(dir, b"/home/me/projects/other");
    let c = sentinel_path(dir, b"/home/me/projects/app");
    assert_eq!(a, c, "same cwd -> same path");
    assert_ne!(a, b, "different cwd -> different path");
    assert!(
        a.starts_with(b"/data/backfill-state/"),
        "under the data dir: {a:?}"
    );
    // A path with separators hashes to a single flat, path-safe leaf.
    let text = String::from_utf8(a.clone()).unwrap();
    assert_eq!(
        std::path::Path::new(&text)
            .strip_prefix("/data/backfill-state/")
            .unwrap()
            .components()
            .count(),
        1,
        "the hashed leaf must be a single path component: {a:?}"
    );
}

#[test]
fn the_sentinel_is_named_after_the_sha256_of_the_working_directory() {
    let path = sentinel_path(b"/data", b"abc");
    assert_eq!(
        String::from_utf8(path).unwrap(),
        "/data/backfill-state/ba7816bf8f01cfea414140de5dae2223b00361a396177a9cb410ff61f20015ad"
    );
    assert_eq!(
        sentinel_path_of_digest(b"/data/", &[0x00, 0x0f, 0xa0, 0xff]),
        b"/data/backfill-state/000fa0ff".to_vec()
    );
    assert_eq!(
        sentinel_path_of_digest(b"", &[0x12]),
        b"backfill-state/12".to_vec()
    );
}

fn event(kind: WorkstreamEventKind, role: Option<&str>, content: &str) -> NewWorkstreamEvent {
    NewWorkstreamEvent {
        event_id: "evt-1".to_string(),
        kind,
        role: role.map(str::to_string),
        content: content.to_string(),
    }
}

fn field<'a>(request: &'a MappedEvent, name: &str) -> &'a str {
    request
        .body
        .iter()
        .find(|(key, _)| key == name)
        .map(|(_, value)| value.as_str())
        .unwrap_or_else(|| panic!("expected the field {name}; got {request:?}"))
}

#[test]
fn user_message_maps_to_the_canonical_user_prompt() {
    let m = map_event(
        "sid",
        &event(WorkstreamEventKind::Message, Some("user"), "do the thing"),
    )
    .expect("user message maps");
    assert_eq!(m.event, "user-prompt");
    assert!(
        m.source_event.is_none(),
        "user-prompt is a lifecycle event, not an extension"
    );
    assert_eq!(field(&m, "prompt"), "do the thing");
    assert_eq!(
        m.ingest_key, "sid:evt-1",
        "ingest key is stable per source event"
    );
}

#[test]
fn assistant_and_tool_events_map_to_backfill_extension_observations() {
    let a = map_event(
        "sid",
        &event(
            WorkstreamEventKind::Message,
            Some("assistant"),
            "here is the plan\nline2",
        ),
    )
    .expect("assistant maps");
    assert_eq!(a.event, "backfill.assistant-message");
    assert_eq!(a.source_event.as_deref(), Some("assistant-message"));
    assert_eq!(
        field(&a, "title"),
        "here is the plan",
        "title is the first line"
    );
    assert_eq!(field(&a, "message"), "here is the plan\nline2");

    let t = map_event(
        "sid",
        &event(WorkstreamEventKind::ToolCall, None, "grep foo"),
    )
    .expect("tool call maps");
    assert_eq!(t.event, "backfill.tool_call");
    assert_eq!(t.source_event.as_deref(), Some("tool_call"));
}

#[test]
fn empty_and_boundary_events_are_dropped() {
    assert!(
        map_event(
            "sid",
            &event(WorkstreamEventKind::Message, Some("user"), "   ")
        )
        .is_none(),
        "whitespace-only content is not an observation"
    );
    for kind in [
        WorkstreamEventKind::Compaction,
        WorkstreamEventKind::Checkpoint,
        WorkstreamEventKind::Annotation,
    ] {
        assert!(
            map_event("sid", &event(kind, None, "boundary")).is_none(),
            "{kind:?} is not session content"
        );
    }
}

#[test]
fn the_remaining_roles_and_kinds_map_as_named() {
    let human = map_event("s", &event(WorkstreamEventKind::Message, Some("human"), " hi \n"))
        .expect("human message maps");
    assert_eq!(human.event, "user-prompt");
    assert_eq!(field(&human, "prompt"), " hi \n", "the prompt is kept as it stands");
    assert_eq!(field(&human, "session_id"), "s");
    let bare = map_event("s", &event(WorkstreamEventKind::Message, None, "x")).expect("maps");
    assert_eq!(bare.event, "backfill.message");
    assert_eq!(bare.source_event.as_deref(), Some("message"));
    let result = map_event("s", &event(WorkstreamEventKind::ToolResult, Some("user"), "\n\tout\nmore"))
        .expect("tool result maps");
    assert_eq!(result.event, "backfill.tool_result");
    assert_eq!(field(&result, "title"), "out");
    assert_eq!(field(&result, "message"), "\n\tout\nmore");
}

#[test]
fn titles_are_one_trimmed_line_of_at_most_120_characters() {
    assert_eq!(first_line(""), "(backfilled event)");
    assert_eq!(first_line("\nsecond"), "(backfilled event)");
    assert_eq!(first_line(" \u{00A0}\u{3000}a b\u{2003}\r\nc"), "a b");
    let long = "é".repeat(121);
    assert_eq!(first_line(&long), "é".repeat(120));
    assert_eq!(first_line(&"x".repeat(120)), "x".repeat(120));
    // A zero-width space is no whitespace.
    assert_eq!(first_line("\u{200B}"), "\u{200B}");
}

#[test]
fn trimming_agrees_with_the_standard_library_on_every_character() {
    for n in 0..=0x10FFFFu32 {
        if let Some(c) = char::from_u32(n) {
            assert_eq!(ai_memory::text::is_whitespace(c), c.is_whitespace(), "{n:x}");
        }
    }
    assert_eq!(ai_memory::text::trim("\t a \u{2029}"), "a");
    assert_eq!(ai_memory::text::head_of("é?a?b", '?'), "é");
    assert_eq!(ai_memory::text::head_of("é", '?'), "é");
    assert_eq!(ai_memory::text::head_of("?", '?'), "");
}

#[test]
fn a_replay_opens_and_closes_the_session() {
    let events = vec![
        event(WorkstreamEventKind::Message, Some("user"), "hello"),
        event(WorkstreamEventKind::Checkpoint, None, "mark"),
        event(WorkstreamEventKind::ToolCall, None, "ls"),
    ];
    let requests = replay_requests("sid", &events);
    let names: Vec<&str> = requests.iter().map(|r| r.event.as_str()).collect();
    assert_eq!(names, vec!["session-start", "user-prompt", "backfill.tool_call", "session-end"]);
    assert_eq!(requests[0].ingest_key, "sid:session-start");
    assert_eq!(requests[3].ingest_key, "sid:session-end");
    assert_eq!(requests[0].body, vec![("session_id".to_string(), "sid".to_string())]);
}

#[test]
fn replayed_items_have_keys_of_their_own() {
    let events: Vec<NewWorkstreamEvent> = ["e1", "e2", "e3"]
        .iter()
        .map(|id| NewWorkstreamEvent {
            event_id: id.to_string(),
            ..event(WorkstreamEventKind::ToolCall, None, "ls")
        })
        .collect();
    let requests = replay_requests("sid", &events);
    let keys: Vec<&str> = requests.iter().map(|r| r.ingest_key.as_str()).collect();
    assert_eq!(
        keys,
        vec!["sid:session-start", "sid:e1", "sid:e2", "sid:e3", "sid:session-end"]
    );
}

fn query(url: &str) -> Vec<(String, String)> {
    reqwest::Url::parse(url)
        .unwrap()
        .query_pairs()
        .map(|(k, v)| (k.into_owned(), v.into_owned()))
        .collect()
}

fn pair(name: &str, value: &str) -> (String, String) {
    (name.to_string(), value.to_string())
}

#[test]
fn a_hook_url_carries_the_event_and_its_scope() {
    let body = vec![pair("session_id", "s 1")];
    let item = hook_item(
        "http://127.0.0.1:49374/hook",
        "my ws",
        "a&b=c",
        "codex",
        "backfill.tool_call",
        "s 1",
        "s 1:évt",
        Some("tool_call"),
        body.clone(),
    )
    .unwrap();
    assert_eq!(
        item.url,
        "http://127.0.0.1:49374/hook?event=backfill.tool_call&agent=codex&workspace=my+ws\
         &project=a%26b%3Dc&project_src=marker&session_id=s+1&ingest_key=s+1%3A%C3%A9vt\
         &extension=ai-memory-backfill&source_event=tool_call"
    );
    assert_eq!(item.body, body);
    assert_eq!(
        query(&item.url),
        vec![
            pair("event", "backfill.tool_call"),
            pair("agent", "codex"),
            pair("workspace", "my ws"),
            pair("project", "a&b=c"),
            pair("project_src", "marker"),
            pair("session_id", "s 1"),
            pair("ingest_key", "s 1:évt"),
            pair("extension", "ai-memory-backfill"),
            pair("source_event", "tool_call"),
        ]
    );
}

#[test]
fn a_hook_base_that_is_no_url_is_an_error() {
    let error = hook_item("/hook", "w", "p", "a", "e", "s", "k", None, Vec::new()).unwrap_err();
    assert_eq!(error, "building the hook URL for backfill: relative URL without a base");
    let error = item_with_url(Err("why".to_string()), Vec::new()).unwrap_err();
    assert_eq!(error, "building the hook URL for backfill: why");
    let item = item_with_url(Ok("u".to_string()), vec![pair("a", "b")]).unwrap();
    assert_eq!(item.url, "u");
    assert_eq!(item.body, vec![pair("a", "b")]);
}

#[test]
fn replaying_a_session_builds_one_item_per_request() {
    let events = vec![
        event(WorkstreamEventKind::Message, Some("user"), "hello"),
        event(WorkstreamEventKind::Message, Some("user"), " "),
    ];
    let replay = replay_items("http://h/hook", "w", "p", "codex", "sid", &events).unwrap();
    assert_eq!(replay.content, 1);
    assert_eq!(replay.items.len(), 3);
    assert_eq!(
        replay.items[1].url,
        "http://h/hook?event=user-prompt&agent=codex&workspace=w&project=p&project_src=marker\
         &session_id=sid&ingest_key=sid%3Aevt-1"
    );
    assert_eq!(replay.items[1].body[1], pair("prompt", "hello"));
    assert!(replay.items[2].url.contains("event=session-end"));
    assert!(replay_items("nowhere", "w", "p", "codex", "sid", &events).is_err());
}

#[test]
fn a_session_is_replayed_whatever_its_hook_url_is() {
    let events = vec![event(WorkstreamEventKind::Message, Some("user"), "hello")];
    let replay = replay_session("http://h/hook?a=1#top", "w", "p", "codex", "sid", &events)
        .expect("there is room")
        .expect("it is a URL");
    assert_eq!(replay.content, 1);
    assert_eq!(
        replay.items[1].url,
        "http://h/hook?a=1&event=user-prompt&agent=codex&workspace=w&project=p\
         &project_src=marker&session_id=sid&ingest_key=sid%3Aevt-1#top"
    );
    for base in ["http://h/hook", "http://h/hook?"] {
        let replay = replay_session(&format!("{base}#a#b?c"), "w", "p", "codex", "s", &events)
            .expect("there is room")
            .expect("it is a URL");
        assert_eq!(
            replay.items[0].url,
            "http://h/hook?event=session-start&agent=codex&workspace=w&project=p\
             &project_src=marker&session_id=s&ingest_key=s%3Asession-start#a#b?c"
        );
    }
    let long = format!("http://h/{}", "x".repeat(5_000_000));
    let replay = replay_session(&long, "w", "p", "codex", "sid", &events)
        .expect("there is room")
        .expect("it is a URL");
    assert!(replay.items[0].url.starts_with(&format!("{long}?event=session-start&")));
    match replay_session("nowhere", "w", "p", "codex", "sid", &events) {
        Some(Err(error)) => assert_eq!(
            error,
            "building the hook URL for backfill: relative URL without a base"
        ),
        other => panic!("expected an error, got {other:?}"),
    }
}

#[test]
fn items_are_delivered_in_batches_of_256() {
    let mut delivery = Delivery::new(600);
    let mut batches = Vec::new();
    while let Some(batch) = delivery.next_batch() {
        batches.push((batch.from, batch.to));
        assert!(matches!(delivery.acknowledge(batch.to - batch.from), Advice::Continue));
    }
    assert_eq!(batches, vec![(0, HOOK_BATCH_ITEMS), (256, 512), (512, 600)]);
    assert!(Delivery::new(0).next_batch().is_none());
}

#[test]
fn a_partly_accepted_batch_is_resumed_behind_the_accepted_prefix() {
    let mut delivery = Delivery::new(300);
    assert!(matches!(delivery.acknowledge(100), Advice::Continue));
    assert_eq!(delivery.next_batch(), Some(Batch { from: 100, to: 256 }));
    // More than was posted counts as all of it.
    assert!(matches!(delivery.acknowledge(1_000), Advice::Continue));
    assert_eq!(delivery.next_batch(), Some(Batch { from: 256, to: 300 }));
}

#[test]
fn delivery_pauses_longer_each_time_and_gives_up_at_the_fifth_stall() {
    let mut delivery = Delivery::new(10);
    for expected in [200, 400, 600, 800] {
        match delivery.acknowledge(0) {
            Advice::Pause(millis) => assert_eq!(millis, expected),
            other => panic!("expected a pause, got {other:?}"),
        }
        assert_eq!(delivery.next_batch(), Some(Batch { from: 0, to: 10 }));
    }
    match delivery.acknowledge(0) {
        Advice::GiveUp(message) => assert_eq!(
            message,
            "server accepted none of a hook batch after 5 attempts (rate limited or saturated); rerun to resume"
        ),
        other => panic!("expected to give up, got {other:?}"),
    }
}

#[test]
fn progress_resets_the_stalls() {
    let mut delivery = Delivery::new(10);
    for _ in 0..4 {
        assert!(matches!(delivery.acknowledge(0), Advice::Pause(_)));
    }
    assert!(matches!(delivery.acknowledge(1), Advice::Continue));
    match delivery.acknowledge(0) {
        Advice::Pause(millis) => assert_eq!(millis, 200),
        other => panic!("expected a pause, got {other:?}"),
    }
}

fn options() -> BackfillOptions {
    BackfillOptions { auto: false, dry_run: false, force: false, max_sessions: 25 }
}

fn start(options: BackfillOptions) -> (Backfill, Action) {
    Backfill::start(options, "review".to_string(), "fixture".to_string())
}

#[test]
fn an_opted_out_automatic_run_stops_and_marks_the_attempt() {
    let auto = BackfillOptions { auto: true, ..options() };
    assert_eq!(gate(auto, false), Gate::OptedOut { write_sentinel: true });
    assert_eq!(gate(auto, true), Gate::Proceed);
    assert_eq!(gate(options(), false), Gate::Proceed, "a manual run ignores the opt-out");
    let planned = BackfillOptions { dry_run: true, ..auto };
    assert_eq!(gate(planned, false), Gate::OptedOut { write_sentinel: false });
}

#[test]
fn a_populated_store_is_left_alone_unless_forced() {
    let (mut run, first) = start(options());
    assert!(matches!(first, Action::CheckStore));
    let action = run.step(Event::Store { empty: false });
    assert!(matches!(action, Action::Finish { write_sentinel: true }));
    assert!(run.report.skipped_non_empty);
    assert_eq!(run.report.selected, 0);
    let (_, forced) = start(BackfillOptions { force: true, ..options() });
    assert!(matches!(forced, Action::ListSessions));
}

#[test]
fn a_dry_run_plans_and_leaves_no_mark() {
    for empty in [true, false] {
        let (mut run, _) = start(BackfillOptions { dry_run: true, ..options() });
        let mut action = run.step(Event::Store { empty });
        if empty {
            action = run.step(Event::Sessions(vec![session("a", 2), session("b", 1)]));
            assert_eq!(run.report.selected, 2);
        }
        assert!(matches!(action, Action::Finish { write_sentinel: false }));
        assert_eq!(run.report.imported_sessions, 0);
        assert_eq!(run.stage, Stage::Finished);
    }
}

#[test]
fn sessions_are_imported_newest_first_past_failures() {
    let (mut run, _) = start(options());
    assert!(matches!(run.step(Event::Store { empty: true }), Action::ListSessions));
    let mut action = run.step(Event::Sessions(vec![
        session("mid", 20),
        session("new", 10),
        session("old", 30),
    ]));
    let mut order = Vec::new();
    while let Action::Import(next) = action {
        let failed = next.native_session_id == "new";
        order.push(next.native_session_id);
        action = run.step(if failed { Event::Failed } else { Event::Imported(7) });
    }
    assert_eq!(order, vec!["new", "mid", "old"]);
    assert!(matches!(action, Action::Finish { write_sentinel: true }));
    assert_eq!(run.report.selected, 3);
    assert_eq!(run.report.imported_sessions, 2);
    assert_eq!(run.report.imported_events, 14);
    assert_eq!(run.report.failed_sessions, 1);
    assert_eq!(
        outcome(&run.report),
        Err("backfill failed to import 1 of 3 selected session(s)".to_string())
    );
}

#[test]
fn the_cap_on_events_skips_the_older_sessions() {
    let (mut run, _) = start(BackfillOptions { force: true, ..options() });
    let action = run.step(Event::Sessions(vec![
        session("z", 4),
        session("b", 2),
        session("a", 3),
        session("c", 1),
    ]));
    assert!(matches!(action, Action::Import(ref s) if s.native_session_id == "c"));
    let action = run.step(Event::Imported(MAX_EVENTS_TOTAL - 1));
    assert!(matches!(action, Action::Import(ref s) if s.native_session_id == "b"));
    let action = run.step(Event::Imported(1));
    assert!(matches!(action, Action::Finish { write_sentinel: true }));
    assert_eq!(run.report.skipped_for_cap, 2, "the two oldest sessions are left out");
    assert_eq!(run.report.imported_sessions, 2);
    assert_eq!(outcome(&run.report), Ok(()));
}

#[test]
fn a_cap_of_zero_sessions_counts_as_one() {
    let (mut run, _) = start(BackfillOptions { force: true, max_sessions: 0, ..options() });
    let action = run.step(Event::Sessions(vec![session("a", 3), session("b", 2)]));
    assert!(matches!(action, Action::Import(ref s) if s.native_session_id == "b"));
    assert_eq!(run.report.selected, 1);
}

fn report() -> BackfillReport {
    BackfillReport {
        workspace: "w".to_string(),
        project: "p".to_string(),
        selected: 4,
        imported_sessions: 0,
        imported_events: 0,
        skipped_for_cap: 0,
        failed_sessions: 0,
        skipped_non_empty: false,
        dry_run: false,
    }
}

#[test]
fn the_summary_tells_what_the_run_did() {
    let mut r = report();
    assert_eq!(
        summary_line(&r),
        "ai-memory: no local session history found to backfill for w/p."
    );
    r.imported_sessions = 1;
    r.imported_events = 1203;
    assert_eq!(
        summary_line(&r),
        "📼 ai-memory imported 1 prior local session(s) (~1203 events) for w/p. Opt out with AI_MEMORY_BACKFILL_ON_START=false."
    );
    r.failed_sessions = 2;
    r.skipped_for_cap = 10;
    assert_eq!(
        summary_line(&r),
        "📼 ai-memory imported 1 prior local session(s) (~1203 events) for w/p. 2 session(s) failed. 10 older session(s) skipped (import cap). Opt out with AI_MEMORY_BACKFILL_ON_START=false."
    );
    r.dry_run = true;
    assert_eq!(
        summary_line(&r),
        "ai-memory: would import 4 local session(s) into w/p (dry run)."
    );
    r.skipped_non_empty = true;
    assert_eq!(
        summary_line(&r),
        "ai-memory: w/p already has captured sessions — nothing to backfill (use --force to import anyway)."
    );
}

#[test]
fn json_wins_over_quiet_and_quiet_over_the_summary() {
    let r = report();
    assert!(matches!(finish(true, true, &r), Output::Json));
    assert!(matches!(finish(true, false, &r), Output::Json));
    assert!(matches!(finish(false, true, &r), Output::Nothing));
    match finish(false, false, &r) {
        Output::Line(line) => assert_eq!(line, summary_line(&r)),
        other => panic!("expected a line, got {other:?}"),
    }
}

#[test]
fn ids_are_shown_by_their_first_eight_bytes() {
    assert_eq!(display_id("11111111-2222-3333"), "11111111");
    assert_eq!(display_id("short"), "short");
    assert_eq!(display_id("exactly8"), "exactly8");
    assert_eq!(display_id("1234567é9"), "1234567é9", "no cut through a character");
    assert_eq!(display_id("ééééé"), "éééé");
    assert_eq!(
        failure_line("codex", "11111111-2222", "injected batch failure"),
        "ai-memory: backfill of codex session 11111111 failed: injected batch failure"
    );
}
