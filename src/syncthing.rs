//! The event stream of the synchronisation service: normalisation of raw
//! events into folder events, with duplicate suppression, and the signals
//! that end a stream.
use vstd::prelude::*;

use crate::config::{Config, FolderEvent};
use crate::strmap::StrMap;
use crate::text::{seq_contains, str_contains, str_eq};

verus! {

/// Seconds the service may hold a long-poll request open.
pub const EVENT_STREAM_TIMEOUT_SECS: u64 = 3600;

/// Seconds allowed for an ordinary request.
pub const HTTP_TIMEOUT_SECS: u64 = 10;

/// Error when the server vanished while a long poll was pending.
#[derive(Clone, Debug)]
pub struct ServerGone {
    /// What the transport reported
    pub detail: String,
}

/// Error when the server configuration changed.
#[derive(Clone, Copy, Debug, PartialEq, Eq, Structural)]
pub enum ServerConfigChanged {
    /// Server initiated config changed notification via event
    ConfigSaved,
}

/// Everything that ends an event stream.
#[derive(Clone, Debug)]
pub enum StreamError {
    /// The connection was closed while waiting for an event
    Gone(ServerGone),
    /// The server announced a configuration change
    ConfigChanged(ServerConfigChanged),
    /// An event named a folder id that the folder list does not hold
    UnknownFolder(String),
    /// An event of a kind that was not subscribed to
    UnexpectedEvent,
    /// A response held more events than were asked for
    TooManyEvents,
    /// Any other failure of a request
    Transport(String),
    /// A response that is not in the expected shape
    Malformed(String),
}

/// A failure met while reading a long-poll response.
#[derive(Clone, Debug)]
pub enum TransportFailure {
    /// The socket was closed unexpectedly (reported as invalid input)
    ClosedUnexpectedly(String),
    /// Any other failure
    Other(String),
}

/// A folder event, with normalised folder paths.
#[derive(Clone, Debug)]
pub enum Event {
    /// A file has been synced down
    FileDownSyncDone { path: String, folder: String },
    /// A whole folder has been synced down
    FolderDownSyncDone { folder: String },
    /// A conflict has occured locally
    FileConflict { path: String, folder: String },
}

impl View for Event {
    /// Kind, path (for path-bearing events) and folder.
    type V = (FolderEvent, Option<Seq<char>>, Seq<char>);

    open spec fn view(&self) -> (FolderEvent, Option<Seq<char>>, Seq<char>) {
        match self {
            Event::FileDownSyncDone { path, folder } => (
                FolderEvent::FileDownSyncDone,
                Some(path@),
                folder@,
            ),
            Event::FolderDownSyncDone { folder } => (
                FolderEvent::FolderDownSyncDone,
                None,
                folder@,
            ),
            Event::FileConflict { path, folder } => (FolderEvent::FileConflict, Some(path@), folder@),
        }
    }
}

/// What a raw event of the service carries, for the kinds subscribed to.
#[derive(Clone, Debug)]
pub enum RawEventData {
    /// An item finished synchronising
    ItemFinished { item: String, folder: String },
    /// Summary of a folder's state
    FolderSummary { folder: String, need_total_items: u64, state_changed: String },
    /// A local change was detected
    LocalChangeDetected { action: String, folder: String, item_type: String, path: String },
    /// The service saved its configuration
    ConfigSaved,
    /// Any other kind
    Other,
}

/// Raw event kinds that the stream tells apart.
#[derive(Clone, Copy, Debug, PartialEq, Eq, Structural)]
pub enum RawEventKind {
    ItemFinished,
    FolderSummary,
    LocalChangeDetected,
    ConfigSaved,
    /// Any kind that is not subscribed to
    Other,
}

/// The kind that the service's type name `name` denotes.
pub open spec fn kind_named(name: Seq<char>) -> RawEventKind {
    if name == "ItemFinished"@ {
        RawEventKind::ItemFinished
    } else if name == "FolderSummary"@ {
        RawEventKind::FolderSummary
    } else if name == "LocalChangeDetected"@ {
        RawEventKind::LocalChangeDetected
    } else if name == "ConfigSaved"@ {
        RawEventKind::ConfigSaved
    } else {
        RawEventKind::Other
    }
}

/// The kind of a raw event from its type name.
pub fn raw_event_kind(name: &str) -> (r: RawEventKind)
    ensures
        r == kind_named(name@),
{
    if str_eq(name, "ItemFinished") {
        RawEventKind::ItemFinished
    } else if str_eq(name, "FolderSummary") {
        RawEventKind::FolderSummary
    } else if str_eq(name, "LocalChangeDetected") {
        RawEventKind::LocalChangeDetected
    } else if str_eq(name, "ConfigSaved") {
        RawEventKind::ConfigSaved
    } else {
        RawEventKind::Other
    }
}

/// A raw event of the service.
#[derive(Clone, Debug)]
pub struct RawEvent {
    /// Event id, increasing along the stream
    pub id: u64,
    /// Payload
    pub data: RawEventData,
}

/// A folder of the service's configuration.
#[derive(Clone, Debug)]
pub struct SystemFolder {
    /// Opaque folder id
    pub id: String,
    /// Local path
    pub path: String,
}

/// Folder id to path map that a folder list gives, later folders overriding
/// earlier ones with the same id.
pub open spec fn folders_map(s: Seq<SystemFolder>) -> Map<Seq<char>, Seq<char>>
    decreases s.len(),
{
    if s.len() == 0 {
        Map::empty()
    } else {
        folders_map(s.drop_last()).insert(s.last().id@, s.last().path@)
    }
}

/// Client state for one connection to the service.
pub struct Client {
    /// Base URL of the REST interface
    pub base_url: String,
    /// API key
    pub api_key: String,
    /// Folder id to path
    pub folder_map: StrMap,
}

/// Parameters of one long-poll request for events.
#[derive(Clone, Debug)]
pub struct EventsRequest {
    /// Only events with a larger id are asked for
    pub since: u64,
    /// Largest number of events in the answer
    pub limit: u64,
    /// Raw event kinds subscribed to
    pub event_types: Vec<String>,
    /// Seconds the server may wait for an event before answering
    pub timeout_secs: u64,
}

impl Client {
    /// Well-formedness: the folder map is well formed.
    pub open spec fn wf(&self) -> bool {
        self.folder_map.wf()
    }

    /// A client for the service of `cfg`, with the folder list that its
    /// configuration holds.
    pub fn new(cfg: &Config, folders: Vec<SystemFolder>) -> (r: Client)
        ensures
            r.wf(),
            r.base_url == cfg.url,
            r.api_key == cfg.api_key,
            r.folder_map@ == folders_map(folders@),
    {
        let mut folder_map = StrMap::new();
        let mut i: usize = 0;
        while i < folders.len()
            invariant
                i <= folders@.len(),
                folder_map.wf(),
                folder_map@ == folders_map(folders@.subrange(0, i as int)),
            decreases folders@.len() - i,
        {
            let f = &folders[i];
            folder_map.insert(f.id.clone(), f.path.clone());
            proof {
                assert(folders@.subrange(0, i + 1).drop_last() =~= folders@.subrange(0, i as int));
            }
            i = i + 1;
        }
        assert(folders@.subrange(0, folders@.len() as int) =~= folders@);
        Client { base_url: cfg.url.clone(), api_key: cfg.api_key.clone(), folder_map }
    }

    /// Stream of events, starting from the first event the service holds.
    pub fn iter_events(&self) -> (r: FolderEventIterator)
        ensures
            r.wf(),
            r.last_id == 0,
            r.folder_state_change_time@ == Map::<Seq<char>, Seq<char>>::empty(),
    {
        FolderEventIterator { last_id: 0, folder_state_change_time: StrMap::new() }
    }

    /// Local path of the folder with id `id`, or the error that ends the
    /// stream when there is none.
    fn resolve(&self, id: String) -> (r: Result<String, StreamError>)
        requires
            self.wf(),
        ensures
            resolution(r, self.folder_map@, id@),
    {
        match self.folder_map.get(&id) {
            Some(p) => Ok(p),
            None => Err(StreamError::UnknownFolder(id)),
        }
    }
}

/// `r` holds the path of folder `id`, or the unknown-folder error when the
/// map does not hold `id`.
pub open spec fn resolution(
    r: Result<String, StreamError>,
    map: Map<Seq<char>, Seq<char>>,
    id: Seq<char>,
) -> bool {
    if map.contains_key(id) {
        r matches Ok(p) && p@ == map[id]
    } else {
        r matches Err(StreamError::UnknownFolder(i)) && i@ == id
    }
}

/// What handling one raw event gives.
#[derive(Clone, Debug)]
pub enum Step {
    /// A folder event to dispatch
    Emit(Event),
    /// Nothing to report: ask for the next event
    Skip,
    /// The stream ends
    Stop(StreamError),
}

/// `r` emits the event of kind `kind` for the folder with id `id`, or stops
/// on an unknown folder.
pub open spec fn emits_for(
    r: Step,
    map: Map<Seq<char>, Seq<char>>,
    id: Seq<char>,
    kind: FolderEvent,
    path: Option<Seq<char>>,
) -> bool {
    if map.contains_key(id) {
        r matches Step::Emit(e) && e@ == (kind, path, map[id])
    } else {
        r matches Step::Stop(StreamError::UnknownFolder(i)) && i@ == id
    }
}

/// A folder summary reports a completion not seen before: nothing is left
/// to sync and the state-change time differs from the one recorded.
pub open spec fn summary_completes(
    state: Map<Seq<char>, Seq<char>>,
    folder: Seq<char>,
    need_total_items: u64,
    state_changed: Seq<char>,
) -> bool {
    need_total_items == 0 && !(state.contains_key(folder) && state[folder] == state_changed)
}

/// Recorded state-change times after a folder summary.
pub open spec fn after_summary(
    state: Map<Seq<char>, Seq<char>>,
    folder: Seq<char>,
    need_total_items: u64,
    state_changed: Seq<char>,
) -> Map<Seq<char>, Seq<char>> {
    if summary_completes(state, folder, need_total_items, state_changed) {
        state.insert(folder, state_changed)
    } else {
        state
    }
}

/// Marker that the service puts in the names of conflict copies.
pub const CONFLICT_MARKER: &'static str = ".sync-conflict-";

/// A local change reveals a conflict copy: a file was modified whose path
/// holds the conflict marker.
pub open spec fn is_conflict_change(item_type: Seq<char>, action: Seq<char>, path: Seq<char>) -> bool {
    item_type == "file"@ && action == "modified"@ && seq_contains(path, CONFLICT_MARKER@)
}

/// `states` are the recorded state-change times before a run of summaries
/// of `folder` with time `state_changed`, one summary per entry of `needs`
/// (its count of items left to sync), and after each of them: what the
/// `ensures` of successive `handle` calls on those summaries gives.
pub open spec fn summary_chain(
    states: Seq<Map<Seq<char>, Seq<char>>>,
    folder: Seq<char>,
    state_changed: Seq<char>,
    needs: Seq<u64>,
) -> bool {
    &&& states.len() == needs.len() + 1
    &&& forall|k: int|
        0 <= k < needs.len() ==> states[k + 1] == after_summary(
            states[k],
            folder,
            #[trigger] needs[k],
            state_changed,
        )
}

/// `state` records `state_changed` for `folder`.
pub open spec fn records(state: Map<Seq<char>, Seq<char>>, folder: Seq<char>, state_changed: Seq<char>) -> bool {
    state.contains_key(folder) && state[folder] == state_changed
}

proof fn lemma_record_stays(
    states: Seq<Map<Seq<char>, Seq<char>>>,
    folder: Seq<char>,
    state_changed: Seq<char>,
    needs: Seq<u64>,
    i: int,
    k: int,
)
    requires
        summary_chain(states, folder, state_changed, needs),
        0 <= i <= k < states.len(),
        records(states[i], folder, state_changed),
    ensures
        records(states[k], folder, state_changed),
    decreases k - i,
{
    if k > i {
        lemma_record_stays(states, folder, state_changed, needs, i, k - 1);
        assert(states[k] == after_summary(states[k - 1], folder, needs[k - 1], state_changed));
    }
}

/// Summaries of one folder that repeat one state-change time report at most
/// one completion, none when that time is already recorded, and leave the
/// time recorded once one was reported.
pub proof fn lemma_duplicate_summaries_complete_once(
    states: Seq<Map<Seq<char>, Seq<char>>>,
    folder: Seq<char>,
    state_changed: Seq<char>,
    needs: Seq<u64>,
)
    requires
        summary_chain(states, folder, state_changed, needs),
    ensures
        forall|i: int, j: int|
            0 <= i < j < needs.len() && #[trigger] summary_completes(
                states[i],
                folder,
                needs[i],
                state_changed,
            ) ==> !#[trigger] summary_completes(states[j], folder, needs[j], state_changed),
        records(states[0], folder, state_changed) ==> forall|k: int|
            0 <= k < needs.len() ==> !#[trigger] summary_completes(
                states[k],
                folder,
                needs[k],
                state_changed,
            ),
        forall|k: int|
            0 <= k < needs.len() && #[trigger] summary_completes(
                states[k],
                folder,
                needs[k],
                state_changed,
            ) ==> records(states.last(), folder, state_changed),
{
    assert forall|i: int, j: int|
        0 <= i < j < needs.len() && #[trigger] summary_completes(
            states[i],
            folder,
            needs[i],
            state_changed,
        ) implies !#[trigger] summary_completes(states[j], folder, needs[j], state_changed) by {
        assert(states[i + 1] == after_summary(states[i], folder, needs[i], state_changed));
        lemma_record_stays(states, folder, state_changed, needs, i + 1, j);
    }
    if records(states[0], folder, state_changed) {
        assert forall|k: int| 0 <= k < needs.len() implies !#[trigger] summary_completes(
            states[k],
            folder,
            needs[k],
            state_changed,
        ) by {
            lemma_record_stays(states, folder, state_changed, needs, 0, k);
        }
    }
    assert forall|k: int|
        0 <= k < needs.len() && #[trigger] summary_completes(
            states[k],
            folder,
            needs[k],
            state_changed,
        ) implies records(states.last(), folder, state_changed) by {
        assert(states[k + 1] == after_summary(states[k], folder, needs[k], state_changed));
        lemma_record_stays(states, folder, state_changed, needs, k + 1, states.len() - 1);
    }
}

/// Cursor over the event stream of one connection.
pub struct FolderEventIterator {
    /// Id of the last event received
    pub last_id: u64,
    /// Last state-change time seen per folder id, to drop duplicate
    /// completions
    pub folder_state_change_time: StrMap,
}

impl FolderEventIterator {
    /// Well-formedness: the map of state-change times is well formed.
    pub open spec fn wf(&self) -> bool {
        self.folder_state_change_time.wf()
    }

    /// The next long-poll request: at most one event newer than the last
    /// one received, of the kinds that are handled.
    pub fn request(&self) -> (r: EventsRequest)
        ensures
            r.since == self.last_id,
            r.limit == 1,
            r.timeout_secs == EVENT_STREAM_TIMEOUT_SECS,
            r.event_types@.len() == 4,
            r.event_types@[0]@ == "ItemFinished"@,
            r.event_types@[1]@ == "FolderSummary"@,
            r.event_types@[2]@ == "LocalChangeDetected"@,
            r.event_types@[3]@ == "ConfigSaved"@,
    {
        let mut event_types: Vec<String> = Vec::new();
        event_types.push(String::from_str("ItemFinished"));
        event_types.push(String::from_str("FolderSummary"));
        event_types.push(String::from_str("LocalChangeDetected"));
        event_types.push(String::from_str("ConfigSaved"));
        EventsRequest {
            since: self.last_id,
            limit: 1,
            event_types,
            timeout_secs: EVENT_STREAM_TIMEOUT_SECS,
        }
    }

    /// Handle the raw event that the last request returned.
    pub fn handle(&mut self, client: &Client, raw: RawEvent) -> (r: Step)
        requires
            old(self).wf(),
            client.wf(),
        ensures
            final(self).wf(),
            final(self).last_id == raw.id,
            match raw.data {
                RawEventData::ItemFinished { item, folder } => {
                    &&& final(self).folder_state_change_time@ == old(
                        self,
                    ).folder_state_change_time@
                    &&& emits_for(
                        r,
                        client.folder_map@,
                        folder@,
                        FolderEvent::FileDownSyncDone,
                        Some(item@),
                    )
                },
                RawEventData::FolderSummary { folder, need_total_items, state_changed } => {
                    let old_state = old(self).folder_state_change_time@;
                    &&& final(self).folder_state_change_time@ == after_summary(
                        old_state,
                        folder@,
                        need_total_items,
                        state_changed@,
                    )
                    &&& need_total_items > 0 ==> r is Skip
                    &&& if summary_completes(old_state, folder@, need_total_items, state_changed@) {
                        emits_for(r, client.folder_map@, folder@, FolderEvent::FolderDownSyncDone, None)
                    } else {
                        r is Skip
                    }
                },
                RawEventData::LocalChangeDetected { action, folder, item_type, path } => {
                    &&& final(self).folder_state_change_time@ == old(
                        self,
                    ).folder_state_change_time@
                    &&& (r is Emit) <==> (is_conflict_change(item_type@, action@, path@)
                        && client.folder_map@.contains_key(folder@))
                    &&& if is_conflict_change(item_type@, action@, path@) {
                        emits_for(r, client.folder_map@, folder@, FolderEvent::FileConflict, Some(path@))
                    } else {
                        r is Skip
                    }
                },
                RawEventData::ConfigSaved => {
                    &&& final(self).folder_state_change_time@ == old(
                        self,
                    ).folder_state_change_time@
                    &&& r matches Step::Stop(
                        StreamError::ConfigChanged(ServerConfigChanged::ConfigSaved),
                    )
                },
                RawEventData::Other => {
                    &&& final(self).folder_state_change_time@ == old(
                        self,
                    ).folder_state_change_time@
                    &&& r matches Step::Stop(StreamError::UnexpectedEvent)
                },
            },
    {
        self.last_id = raw.id;
        match raw.data {
            RawEventData::ItemFinished { item, folder } => match client.resolve(folder) {
                Ok(p) => Step::Emit(Event::FileDownSyncDone { path: item, folder: p }),
                Err(e) => Step::Stop(e),
            },
            RawEventData::FolderSummary { folder, need_total_items, state_changed } => {
                if need_total_items > 0 {
                    return Step::Skip;
                }
                match self.folder_state_change_time.get(&folder) {
                    Some(prev) => {
                        if prev == state_changed {
                            return Step::Skip;
                        }
                    },
                    None => {},
                }
                self.folder_state_change_time.insert(folder.clone(), state_changed);
                match client.resolve(folder) {
                    Ok(p) => Step::Emit(Event::FolderDownSyncDone { folder: p }),
                    Err(e) => Step::Stop(e),
                }
            },
            RawEventData::LocalChangeDetected { action, folder, item_type, path } => {
                if str_eq(item_type.as_str(), "file") && str_eq(action.as_str(), "modified")
                    && str_contains(path.as_str(), CONFLICT_MARKER) {
                    match client.resolve(folder) {
                        Ok(p) => Step::Emit(Event::FileConflict { path, folder: p }),
                        Err(e) => Step::Stop(e),
                    }
                } else {
                    Step::Skip
                }
            },
            RawEventData::ConfigSaved => Step::Stop(
                StreamError::ConfigChanged(ServerConfigChanged::ConfigSaved),
            ),
            RawEventData::Other => Step::Stop(StreamError::UnexpectedEvent),
        }
    }
}

/// The event of a long-poll response asked to hold at most one: none when
/// the server's own timeout elapsed, an error when it holds more.
pub fn single_event(events: Vec<RawEvent>) -> (r: Result<Option<RawEvent>, StreamError>)
    ensures
        events@.len() == 0 ==> r matches Ok(None),
        events@.len() == 1 ==> r == Ok::<Option<RawEvent>, StreamError>(Some(events@[0])),
        events@.len() > 1 ==> r matches Err(StreamError::TooManyEvents),
{
    if events.len() > 1 {
        return Err(StreamError::TooManyEvents);
    }
    let mut events = events;
    Ok(events.pop())
}

/// The stream error for a failure met while reading a long-poll response: a
/// connection closed unexpectedly means that the server is gone.
pub fn classify_read_failure(f: TransportFailure) -> (r: StreamError)
    ensures
        match f {
            TransportFailure::ClosedUnexpectedly(d) => r matches StreamError::Gone(g) && g.detail
                == d,
            TransportFailure::Other(d) => r matches StreamError::Transport(t) && t == d,
        },
{
    match f {
        TransportFailure::ClosedUnexpectedly(d) => StreamError::Gone(ServerGone { detail: d }),
        TransportFailure::Other(d) => StreamError::Transport(d),
    }
}

} // verus!
