use stfed::config::Config;
use stfed::dispatch::{on_stream_error, Recovery};
use stfed::syncthing::{
    classify_read_failure, raw_event_kind, single_event, RawEventKind, Client, Event, FolderEventIterator, RawEvent,
    RawEventData, ServerConfigChanged, Step, StreamError, SystemFolder, TransportFailure,
};

fn client() -> Client {
    let cfg = Config { url: "http://localhost:8384".to_string(), api_key: "key".to_string() };
    let folders = vec![
        SystemFolder { id: "abcd-1234".to_string(), path: "/data".to_string() },
        SystemFolder { id: "efgh-5678".to_string(), path: "/music".to_string() },
    ];
    Client::new(&cfg, folders)
}

fn summary(id: u64, folder: &str, need: u64, changed: &str) -> RawEvent {
    RawEvent {
        id,
        data: RawEventData::FolderSummary {
            folder: folder.to_string(),
            need_total_items: need,
            state_changed: changed.to_string(),
        },
    }
}

fn local_change(id: u64, item_type: &str, action: &str, path: &str) -> RawEvent {
    RawEvent {
        id,
        data: RawEventData::LocalChangeDetected {
            action: action.to_string(),
            folder: "abcd-1234".to_string(),
            item_type: item_type.to_string(),
            path: path.to_string(),
        },
    }
}

fn folder_done(step: &Step) -> Option<String> {
    match step {
        Step::Emit(Event::FolderDownSyncDone { folder }) => Some(folder.clone()),
        _ => None,
    }
}

#[test]
fn duplicate_folder_summaries_emit_once() {
    let c = client();
    let mut it = c.iter_events();
    let mut emitted = 0;
    for id in 1..6 {
        let step = it.handle(&c, summary(id, "abcd-1234", 0, "2024-01-01T00:00:00Z"));
        if let Some(folder) = folder_done(&step) {
            assert_eq!(folder, "/data");
            emitted += 1;
        } else {
            assert!(matches!(step, Step::Skip));
        }
    }
    assert_eq!(emitted, 1);
    assert_eq!(it.last_id, 5);
}

#[test]
fn new_state_change_time_emits_again() {
    let c = client();
    let mut it = c.iter_events();
    assert!(folder_done(&it.handle(&c, summary(1, "abcd-1234", 0, "t1"))).is_some());
    assert!(matches!(it.handle(&c, summary(2, "abcd-1234", 0, "t1")), Step::Skip));
    assert!(folder_done(&it.handle(&c, summary(3, "abcd-1234", 0, "t2"))).is_some());
    // Another folder with the same time is tracked on its own.
    assert_eq!(folder_done(&it.handle(&c, summary(4, "efgh-5678", 0, "t2"))), Some("/music".to_string()));
}

#[test]
fn pending_items_never_complete_a_folder() {
    let c = client();
    let mut it = c.iter_events();
    for id in 1..4 {
        assert!(matches!(it.handle(&c, summary(id, "abcd-1234", id, "t1")), Step::Skip));
    }
    // Nothing was recorded: the first complete summary is still reported.
    assert!(folder_done(&it.handle(&c, summary(9, "abcd-1234", 0, "t1"))).is_some());
}

#[test]
fn local_conflict_change_is_reported() {
    let c = client();
    let mut it = c.iter_events();
    let path = "notes.sync-conflict-20240101-120000-ABCDEFG.txt";
    match it.handle(&c, local_change(1, "file", "modified", path)) {
        Step::Emit(Event::FileConflict { path: p, folder }) => {
            assert_eq!(p, path);
            assert_eq!(folder, "/data");
        }
        other => panic!("unexpected step {:?}", other),
    }
}

#[test]
fn other_local_changes_are_skipped() {
    let c = client();
    let mut it = c.iter_events();
    let conflict = "a.sync-conflict-1.txt";
    assert!(matches!(it.handle(&c, local_change(1, "dir", "modified", conflict)), Step::Skip));
    assert!(matches!(it.handle(&c, local_change(2, "file", "deleted", conflict)), Step::Skip));
    assert!(matches!(it.handle(&c, local_change(3, "file", "modified", "a.txt")), Step::Skip));
    assert!(matches!(it.handle(&c, local_change(4, "file", "modified", "a.sync-conflict.txt")), Step::Skip));
    assert_eq!(it.last_id, 4);
}

#[test]
fn item_finished_is_a_file_synced_down() {
    let c = client();
    let mut it = c.iter_events();
    let raw = RawEvent {
        id: 42,
        data: RawEventData::ItemFinished { item: "dir/notes.txt".to_string(), folder: "efgh-5678".to_string() },
    };
    match it.handle(&c, raw) {
        Step::Emit(Event::FileDownSyncDone { path, folder }) => {
            assert_eq!(path, "dir/notes.txt");
            assert_eq!(folder, "/music");
        }
        other => panic!("unexpected step {:?}", other),
    }
    assert_eq!(it.request().since, 42);
}

#[test]
fn unknown_folder_ends_the_stream() {
    let c = client();
    let mut it = c.iter_events();
    let raw = RawEvent {
        id: 1,
        data: RawEventData::ItemFinished { item: "a".to_string(), folder: "nope".to_string() },
    };
    match it.handle(&c, raw) {
        Step::Stop(StreamError::UnknownFolder(id)) => assert_eq!(id, "nope"),
        other => panic!("unexpected step {:?}", other),
    }
    match it.handle(&c, summary(2, "nope", 0, "t")) {
        Step::Stop(StreamError::UnknownFolder(id)) => assert_eq!(id, "nope"),
        other => panic!("unexpected step {:?}", other),
    }
}

#[test]
fn config_saved_restarts_with_fresh_cursor() {
    let c = client();
    let mut it = c.iter_events();
    assert!(folder_done(&it.handle(&c, summary(10, "abcd-1234", 0, "t1"))).is_some());
    let step = it.handle(&c, RawEvent { id: 11, data: RawEventData::ConfigSaved });
    let err = match step {
        Step::Stop(e) => e,
        other => panic!("unexpected step {:?}", other),
    };
    assert!(matches!(err, StreamError::ConfigChanged(ServerConfigChanged::ConfigSaved)));
    assert_eq!(on_stream_error(&err), Recovery::Reconnect);
    // The restarted client starts from scratch.
    let c2 = client();
    let mut fresh: FolderEventIterator = c2.iter_events();
    assert_eq!(fresh.request().since, 0);
    assert!(folder_done(&fresh.handle(&c2, summary(1, "abcd-1234", 0, "t1"))).is_some());
}

#[test]
fn unsubscribed_kind_is_fatal() {
    let c = client();
    let mut it = c.iter_events();
    let step = it.handle(&c, RawEvent { id: 3, data: RawEventData::Other });
    let err = match step {
        Step::Stop(e) => e,
        other => panic!("unexpected step {:?}", other),
    };
    assert!(matches!(err, StreamError::UnexpectedEvent));
    assert_eq!(on_stream_error(&err), Recovery::Fatal);
}

#[test]
fn request_asks_for_one_handled_event() {
    let c = client();
    let it = c.iter_events();
    let req = it.request();
    assert_eq!(req.since, 0);
    assert_eq!(req.limit, 1);
    assert_eq!(req.timeout_secs, 3600);
    assert_eq!(req.event_types, vec!["ItemFinished", "FolderSummary", "LocalChangeDetected", "ConfigSaved"]);
}

#[test]
fn response_holds_at_most_one_event() {
    assert!(matches!(single_event(vec![]), Ok(None)));
    let one = single_event(vec![RawEvent { id: 5, data: RawEventData::ConfigSaved }]);
    match one {
        Ok(Some(e)) => assert_eq!(e.id, 5),
        _ => panic!("expected one event"),
    }
    let two = single_event(vec![
        RawEvent { id: 5, data: RawEventData::ConfigSaved },
        RawEvent { id: 6, data: RawEventData::ConfigSaved },
    ]);
    assert!(matches!(two, Err(StreamError::TooManyEvents)));
}

#[test]
fn closed_connection_means_server_gone() {
    match classify_read_failure(TransportFailure::ClosedUnexpectedly("eof".to_string())) {
        StreamError::Gone(g) => assert_eq!(g.detail, "eof"),
        other => panic!("unexpected {:?}", other),
    }
    match classify_read_failure(TransportFailure::Other("tls".to_string())) {
        StreamError::Transport(d) => assert_eq!(d, "tls"),
        other => panic!("unexpected {:?}", other),
    }
    let gone = classify_read_failure(TransportFailure::ClosedUnexpectedly("eof".to_string()));
    assert_eq!(on_stream_error(&gone), Recovery::Reconnect);
    assert_eq!(on_stream_error(&StreamError::Transport("x".to_string())), Recovery::Fatal);
    assert_eq!(on_stream_error(&StreamError::Malformed("x".to_string())), Recovery::Fatal);
    assert_eq!(on_stream_error(&StreamError::TooManyEvents), Recovery::Fatal);
}

#[test]
fn later_folder_with_same_id_wins() {
    let cfg = Config { url: "http://h".to_string(), api_key: "k".to_string() };
    let c = Client::new(
        &cfg,
        vec![
            SystemFolder { id: "x".to_string(), path: "/old".to_string() },
            SystemFolder { id: "x".to_string(), path: "/new".to_string() },
        ],
    );
    assert_eq!(c.base_url, "http://h");
    assert_eq!(c.folder_map.get(&"x".to_string()), Some("/new".to_string()));
    assert_eq!(c.folder_map.get(&"y".to_string()), None);
}

#[test]
fn raw_event_kinds_by_name() {
    assert_eq!(raw_event_kind("ItemFinished"), RawEventKind::ItemFinished);
    assert_eq!(raw_event_kind("FolderSummary"), RawEventKind::FolderSummary);
    assert_eq!(raw_event_kind("LocalChangeDetected"), RawEventKind::LocalChangeDetected);
    assert_eq!(raw_event_kind("ConfigSaved"), RawEventKind::ConfigSaved);
    assert_eq!(raw_event_kind("DeviceConnected"), RawEventKind::Other);
    assert_eq!(raw_event_kind("itemfinished"), RawEventKind::Other);
}
