//! Matching folder events against hook rules, the launches that follow, and
//! what to do when a stream or a connection fails.
use vstd::prelude::*;

use crate::config::{glob_match, glob_outcome, FolderConfig, FolderEvent, FolderHook};
use crate::hook::FolderHookId;
use crate::syncthing::{Event, StreamError};

verus! {

/// Glob that the names of conflict copies match.
pub const CONFLICT_GLOB: &'static str = "*.sync-conflict-*";

/// Environment variable that carries the path of the triggering file.
pub const ENV_PATH: &'static str = "STFED_PATH";

/// Environment variable that carries the folder of the triggering event.
pub const ENV_FOLDER: &'static str = "STFED_FOLDER";

/// Seconds to wait before connecting again.
pub const RECONNECT_DELAY_SECS: u64 = 5;

/// Hook, path and folder of a launch.
pub type LaunchView = (usize, Option<Seq<char>>, Seq<char>);

/// A decision to run a hook for an event.
#[derive(Clone, Debug)]
pub struct Launch {
    /// The hook to run
    pub hook: FolderHookId,
    /// Path of the triggering file, for path-bearing events
    pub path: Option<String>,
    /// Folder of the event
    pub folder: String,
}

/// View of an optional string.
pub open spec fn opt_view(o: Option<String>) -> Option<Seq<char>> {
    match o {
        Some(s) => Some(s@),
        None => None,
    }
}

impl View for Launch {
    type V = LaunchView;

    open spec fn view(&self) -> LaunchView {
        (self.hook.val, opt_view(self.path), self.folder@)
    }
}

/// Views of a list of launches.
pub open spec fn launch_views(s: Seq<Launch>) -> Seq<LaunchView> {
    s.map_values(|l: Launch| l@)
}

/// A hook's filter lets a path through: a path-bearing event passes when
/// the hook has no filter or its glob matches the path; an event without a
/// path always passes.
pub open spec fn filter_passes(filter: Option<String>, path: Option<Seq<char>>) -> bool {
    match filter {
        Some(f) => match path {
            Some(p) => glob_outcome(f@, true, p) == Some(true),
            None => true,
        },
        None => true,
    }
}

/// The path names a conflict copy.
pub open spec fn is_conflict_path(path: Option<Seq<char>>) -> bool {
    match path {
        Some(p) => glob_outcome(CONFLICT_GLOB@, false, p) == Some(true),
        None => false,
    }
}

/// Hook `h` is bound to events of `kind` in `folder` and lets `path` through.
pub open spec fn rule_applies(
    h: FolderHook,
    kind: FolderEvent,
    path: Option<Seq<char>>,
    folder: Seq<char>,
) -> bool {
    h.event == kind && h.folder@ == folder && filter_passes(h.filter, path)
}

/// Launches, in configuration order, of the hooks of `hooks` that apply to
/// an event of `kind` with `path` in `folder`.
pub open spec fn rule_launches(
    hooks: Seq<FolderHook>,
    kind: FolderEvent,
    path: Option<Seq<char>>,
    folder: Seq<char>,
) -> Seq<LaunchView>
    decreases hooks.len(),
{
    if hooks.len() == 0 {
        Seq::empty()
    } else {
        let prev = rule_launches(hooks.drop_last(), kind, path, folder);
        if rule_applies(hooks.last(), kind, path, folder) {
            prev.push(((hooks.len() - 1) as usize, path, folder))
        } else {
            prev
        }
    }
}

/// Launches for an event: those of the rules of its kind and, for a file
/// synced down whose name is that of a conflict copy, also those of the
/// remote-conflict rules.
pub open spec fn planned_launches(
    hooks: Seq<FolderHook>,
    event: (FolderEvent, Option<Seq<char>>, Seq<char>),
) -> Seq<LaunchView> {
    let (kind, path, folder) = event;
    let own = rule_launches(hooks, kind, path, folder);
    if kind == FolderEvent::FileDownSyncDone && is_conflict_path(path) {
        own + rule_launches(hooks, FolderEvent::RemoteFileConflict, path, folder)
    } else {
        own
    }
}

/// Each launch of `rule_launches` names a hook that applies, with the event's
/// path and folder; and each hook that applies is launched.
pub proof fn lemma_rule_launches_exact(
    hooks: Seq<FolderHook>,
    kind: FolderEvent,
    path: Option<Seq<char>>,
    folder: Seq<char>,
)
    requires
        hooks.len() <= usize::MAX + 1,
    ensures
        forall|i: int|
            0 <= i < rule_launches(hooks, kind, path, folder).len() ==> {
                let l = #[trigger] rule_launches(hooks, kind, path, folder)[i];
                &&& l.0 < hooks.len()
                &&& rule_applies(hooks[l.0 as int], kind, path, folder)
                &&& l.1 == path
                &&& l.2 == folder
            },
        forall|j: int|
            0 <= j < hooks.len() && rule_applies(#[trigger] hooks[j], kind, path, folder)
                ==> rule_launches(hooks, kind, path, folder).contains((j as usize, path, folder)),
    decreases hooks.len(),
{
    if hooks.len() > 0 {
        let prev = hooks.drop_last();
        lemma_rule_launches_exact(prev, kind, path, folder);
        let r = rule_launches(hooks, kind, path, folder);
        let pr = rule_launches(prev, kind, path, folder);
        assert forall|j: int|
            0 <= j < hooks.len() && rule_applies(#[trigger] hooks[j], kind, path, folder)
                implies r.contains((j as usize, path, folder)) by {
            if j < hooks.len() - 1 {
                assert(prev[j] == hooks[j]);
                let k = choose|k: int| 0 <= k < pr.len() && pr[k] == (j as usize, path, folder);
                assert(r[k] == pr[k]);
            } else {
                assert(r[r.len() - 1] == (j as usize, path, folder));
            }
        }
        assert forall|i: int| 0 <= i < r.len() implies {
            let l = #[trigger] r[i];
            &&& l.0 < hooks.len()
            &&& rule_applies(hooks[l.0 as int], kind, path, folder)
            &&& l.1 == path
            &&& l.2 == folder
        } by {
            if i < pr.len() {
                assert(r[i] == pr[i]);
                assert(prev[pr[i].0 as int] == hooks[pr[i].0 as int]);
            }
        }
    }
}

/// A file synced down under a conflict copy's name is dispatched twice: to
/// the rules for synced files and to the rules for remote conflicts, each
/// launch naming a rule of the right kind for the event's folder and path.
pub proof fn lemma_conflict_copy_fans_out(
    hooks: Seq<FolderHook>,
    path: Seq<char>,
    folder: Seq<char>,
)
    requires
        hooks.len() <= usize::MAX + 1,
        is_conflict_path(Some(path)),
    ensures
        planned_launches(hooks, (FolderEvent::FileDownSyncDone, Some(path), folder)) == rule_launches(
            hooks,
            FolderEvent::FileDownSyncDone,
            Some(path),
            folder,
        ) + rule_launches(hooks, FolderEvent::RemoteFileConflict, Some(path), folder),
        forall|j: int|
            0 <= j < hooks.len() && rule_applies(
                #[trigger] hooks[j],
                FolderEvent::RemoteFileConflict,
                Some(path),
                folder,
            ) ==> planned_launches(
                hooks,
                (FolderEvent::FileDownSyncDone, Some(path), folder),
            ).contains((j as usize, Some(path), folder)),
        forall|j: int|
            0 <= j < hooks.len() && rule_applies(
                #[trigger] hooks[j],
                FolderEvent::FileDownSyncDone,
                Some(path),
                folder,
            ) ==> planned_launches(
                hooks,
                (FolderEvent::FileDownSyncDone, Some(path), folder),
            ).contains((j as usize, Some(path), folder)),
{
    let a = rule_launches(hooks, FolderEvent::FileDownSyncDone, Some(path), folder);
    let b = rule_launches(hooks, FolderEvent::RemoteFileConflict, Some(path), folder);
    lemma_rule_launches_exact(hooks, FolderEvent::FileDownSyncDone, Some(path), folder);
    lemma_rule_launches_exact(hooks, FolderEvent::RemoteFileConflict, Some(path), folder);
    assert forall|j: int|
        0 <= j < hooks.len() && rule_applies(
            #[trigger] hooks[j],
            FolderEvent::RemoteFileConflict,
            Some(path),
            folder,
        ) implies (a + b).contains((j as usize, Some(path), folder)) by {
        let k = choose|k: int| 0 <= k < b.len() && b[k] == (j as usize, Some(path), folder);
        assert((a + b)[a.len() + k] == b[k]);
    }
    assert forall|j: int|
        0 <= j < hooks.len() && rule_applies(
            #[trigger] hooks[j],
            FolderEvent::FileDownSyncDone,
            Some(path),
            folder,
        ) implies (a + b).contains((j as usize, Some(path), folder)) by {
        let k = choose|k: int| 0 <= k < a.len() && a[k] == (j as usize, Some(path), folder);
        assert((a + b)[k] == a[k]);
    }
}

/// Whether a synced file is a conflict copy, given the outcome of matching
/// its path against the conflict glob: only a match counts.
pub fn is_conflict_match(outcome: Option<bool>) -> (r: bool)
    ensures
        r == (outcome == Some(true)),
{
    match outcome {
        Some(b) => b,
        None => false,
    }
}

/// Hook rules indexed for matching, in configuration order; a hook's
/// identifier is its position.
pub struct HookRegistry {
    /// The rules
    pub hooks: Vec<FolderHook>,
}

fn clone_opt(o: &Option<String>) -> (r: Option<String>)
    ensures
        opt_view(r) == opt_view(*o),
{
    match o {
        Some(s) => Some(s.clone()),
        None => None,
    }
}

impl HookRegistry {
    /// The registry of the configured hooks.
    pub fn new(cfg: FolderConfig) -> (r: HookRegistry)
        ensures
            r.hooks@ == cfg.hooks@,
    {
        HookRegistry { hooks: cfg.hooks }
    }

    /// The hook with identifier `id`.
    pub fn hook(&self, id: FolderHookId) -> (r: Option<&FolderHook>)
        ensures
            id.val < self.hooks@.len() ==> r == Some(&self.hooks@[id.val as int]),
            id.val >= self.hooks@.len() ==> r is None,
    {
        if id.val < self.hooks.len() {
            Some(&self.hooks[id.val])
        } else {
            None
        }
    }

    /// Whether hook `h` applies to an event of `kind` with `path` in
    /// `folder`, given `filter_match`, the outcome of matching the path
    /// against the hook's filter (not looked at when the hook has no filter
    /// or the event no path): the hook must be bound to that kind and folder,
    /// and its filter must have compiled and matched.
    pub fn rule_applies_given(
        h: &FolderHook,
        kind: FolderEvent,
        path: &Option<String>,
        folder: &String,
        filter_match: Option<bool>,
    ) -> (r: bool)
        ensures
            r == (h.event == kind && h.folder@ == folder@ && (h.filter is None || path is None
                || filter_match == Some(true))),
    {
        if h.event != kind || h.folder != *folder {
            return false;
        }
        if h.filter.is_none() || path.is_none() {
            return true;
        }
        match filter_match {
            Some(b) => b,
            None => false,
        }
    }

    /// Whether hook `h` applies to an event of `kind` with `path` in `folder`.
    fn applies(h: &FolderHook, kind: FolderEvent, path: &Option<String>, folder: &String) -> (r:
        bool)
        ensures
            r == rule_applies(*h, kind, opt_view(*path), folder@),
    {
        let filter_match = match &h.filter {
            Some(f) => match path {
                Some(p) => glob_match(f.as_str(), true, p.as_str()),
                None => None,
            },
            None => None,
        };
        Self::rule_applies_given(h, kind, path, folder, filter_match)
    }

    /// Append the launches of the rules that apply to an event of `kind`.
    fn push_launches(
        &self,
        out: &mut Vec<Launch>,
        kind: FolderEvent,
        path: &Option<String>,
        folder: &String,
    )
        ensures
            launch_views(final(out)@) == launch_views(old(out)@) + rule_launches(
                self.hooks@,
                kind,
                opt_view(*path),
                folder@,
            ),
    {
        let ghost start = launch_views(out@);
        let n = self.hooks.len();
        let mut i: usize = 0;
        while i < n
            invariant
                n == self.hooks@.len(),
                i <= n,
                launch_views(out@) == start + rule_launches(
                    self.hooks@.subrange(0, i as int),
                    kind,
                    opt_view(*path),
                    folder@,
                ),
            decreases self.hooks@.len() - i,
        {
            let ghost before = out@;
            assert(self.hooks@.subrange(0, i + 1).drop_last() =~= self.hooks@.subrange(0, i as int));
            if Self::applies(&self.hooks[i], kind, path, folder) {
                out.push(Launch { hook: FolderHookId::from_hook(i), path: clone_opt(path), folder: folder.clone() });
                assert(launch_views(out@) =~= launch_views(before).push(out@.last()@));
            }
            assert(launch_views(out@) =~= start + rule_launches(
                self.hooks@.subrange(0, i + 1),
                kind,
                opt_view(*path),
                folder@,
            ));
            i = i + 1;
        }
        assert(self.hooks@.subrange(0, self.hooks@.len() as int) =~= self.hooks@);
    }

    /// The hooks to run for an event, in order: the rules bound to its kind
    /// and folder whose filter lets its path through, then, for a file
    /// synced down under a conflict copy's name, the remote-conflict rules of
    /// the folder that let it through.
    pub fn dispatch(&self, event: &Event) -> (r: Vec<Launch>)
        ensures
            launch_views(r@) == planned_launches(self.hooks@, event@),
    {
        let mut out: Vec<Launch> = Vec::new();
        proof {
            assert(launch_views(out@) =~= Seq::<LaunchView>::empty());
        }
        match event {
            Event::FileDownSyncDone { path, folder } => {
                let p = Some(path.clone());
                self.push_launches(&mut out, FolderEvent::FileDownSyncDone, &p, folder);
                if is_conflict_match(glob_match(CONFLICT_GLOB, false, path.as_str())) {
                    self.push_launches(&mut out, FolderEvent::RemoteFileConflict, &p, folder);
                }
            },
            Event::FolderDownSyncDone { folder } => {
                self.push_launches(&mut out, FolderEvent::FolderDownSyncDone, &None, folder);
            },
            Event::FileConflict { path, folder } => {
                let p = Some(path.clone());
                self.push_launches(&mut out, FolderEvent::FileConflict, &p, folder);
            },
        }
        out
    }
}

impl Launch {
    /// Environment of the launched command: the triggering path (empty for
    /// folder events) and the folder.
    pub fn env(&self) -> (r: Vec<(String, String)>)
        ensures
            r@.len() == 2,
            r@[0].0@ == ENV_PATH@,
            r@[0].1@ == match self.path {
                Some(p) => p@,
                None => Seq::<char>::empty(),
            },
            r@[1].0@ == ENV_FOLDER@,
            r@[1].1@ == self.folder@,
    {
        let path = match &self.path {
            Some(p) => p.clone(),
            None => String::new(),
        };
        let mut r: Vec<(String, String)> = Vec::new();
        r.push((String::from_str(ENV_PATH), path));
        r.push((String::from_str(ENV_FOLDER), self.folder.clone()));
        r
    }
}

/// What to do after a failure.
#[derive(Clone, Copy, Debug, PartialEq, Eq, Structural)]
pub enum Recovery {
    /// Connect again after the reconnect delay, with a fresh cursor
    Reconnect,
    /// Stop the daemon
    Fatal,
}

/// Why connecting to the service failed.
#[derive(Clone, Debug)]
pub enum ConnectError {
    /// The service refused the connection
    Refused(String),
    /// Any other failure
    Other(String),
}

/// After a failed connection: try again when the service refused it, stop
/// otherwise.
pub fn on_connect_error(e: &ConnectError) -> (r: Recovery)
    ensures
        r == (if e is Refused {
            Recovery::Reconnect
        } else {
            Recovery::Fatal
        }),
{
    match e {
        ConnectError::Refused(_) => Recovery::Reconnect,
        ConnectError::Other(_) => Recovery::Fatal,
    }
}

/// After a stream ended: connect again when the server went away or changed
/// its configuration, stop on anything else.
pub fn on_stream_error(e: &StreamError) -> (r: Recovery)
    ensures
        r == (if e is Gone || e is ConfigChanged {
            Recovery::Reconnect
        } else {
            Recovery::Fatal
        }),
{
    match e {
        StreamError::Gone(_) => Recovery::Reconnect,
        StreamError::ConfigChanged(_) => Recovery::Reconnect,
        _ => Recovery::Fatal,
    }
}

} // verus!
