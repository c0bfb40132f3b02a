//! Bookkeeping of running hooks: which hooks may start, and which slots are
//! released when their processes are reaped.
use vstd::multiset::Multiset;
use vstd::prelude::*;

verus! {

/// Unique identifier of a folder hook: its position in the configuration.
#[derive(Clone, Copy, Debug, PartialEq, Eq, Hash, Structural)]
pub struct FolderHookId {
    /// Index of the hook
    pub val: usize,
}

impl FolderHookId {
    /// Identifier of the hook at position `index` of the configuration.
    pub fn from_hook(index: usize) -> (r: FolderHookId)
        ensures
            r.val == index,
    {
        FolderHookId { val: index }
    }
}

/// Whether a run of hook `hook` may start while the runs of `running` are
/// pending.
pub open spec fn start_allowed(running: Multiset<usize>, hook: usize, allow_concurrent: bool) -> bool {
    allow_concurrent || running.count(hook) == 0
}

/// Pending runs after a start attempt.
pub open spec fn after_start(running: Multiset<usize>, hook: usize, allow_concurrent: bool) -> Multiset<
    usize,
> {
    if start_allowed(running, hook, allow_concurrent) {
        running.insert(hook)
    } else {
        running
    }
}

/// The runs of hooks whose process has not been reaped yet, counted per
/// hook: a hook is running while its count is positive.
pub struct RunningHooks {
    running: Vec<usize>,
}

impl View for RunningHooks {
    type V = Multiset<usize>;

    closed spec fn view(&self) -> Multiset<usize> {
        self.running@.to_multiset()
    }
}

impl RunningHooks {
    /// No hook running.
    pub fn new() -> (r: RunningHooks)
        ensures
            r@ == Multiset::<usize>::empty(),
    {
        let r = RunningHooks { running: Vec::new() };
        proof {
            broadcast use vstd::seq_lib::group_to_multiset_ensures;

            assert(r@.len() == 0);
            assert(r@ =~= Multiset::<usize>::empty());
        }
        r
    }

    fn position(&self, hook: usize) -> (r: Option<usize>)
        ensures
            match r {
                Some(i) => i < self.running@.len() && self.running@[i as int] == hook,
                None => !self.running@.contains(hook),
            },
    {
        let mut i: usize = 0;
        while i < self.running.len()
            invariant
                i <= self.running@.len(),
                forall|j: int| 0 <= j < i ==> self.running@[j] != hook,
            decreases self.running@.len() - i,
        {
            if self.running[i] == hook {
                return Some(i);
            }
            i = i + 1;
        }
        None
    }

    /// Whether a run of `hook` has not been reaped yet.
    pub fn is_running(&self, hook: FolderHookId) -> (r: bool)
        ensures
            r == (self@.count(hook.val) > 0),
    {
        proof {
            broadcast use vstd::seq_lib::group_to_multiset_ensures;

        }
        self.position(hook.val).is_some()
    }

    /// Decide whether `hook` may run now, and if so count one more run of
    /// it: allowed when concurrent runs are allowed or no run of it is
    /// pending.
    pub fn try_start(&mut self, hook: FolderHookId, allow_concurrent: bool) -> (r: bool)
        ensures
            r == start_allowed(old(self)@, hook.val, allow_concurrent),
            final(self)@ == after_start(old(self)@, hook.val, allow_concurrent),
    {
        proof {
            broadcast use vstd::seq_lib::group_to_multiset_ensures;

        }
        let present = self.position(hook.val).is_some();
        if allow_concurrent || !present {
            self.running.push(hook.val);
            true
        } else {
            false
        }
    }

    /// Count one run of `hook` less, its process having been reaped (or
    /// never started).
    pub fn release(&mut self, hook: FolderHookId)
        ensures
            final(self)@ == old(self)@.remove(hook.val),
    {
        proof {
            broadcast use vstd::seq_lib::group_to_multiset_ensures;

        }
        match self.position(hook.val) {
            Some(i) => {
                self.running.remove(i);
            },
            None => {
                assert(old(self)@.count(hook.val) == 0);
                assert(self@ =~= old(self)@.remove(hook.val));
            },
        }
    }
}

/// A hook without concurrent runs starts once, is refused while its run is
/// pending, and may start again once that run has been reaped.
pub proof fn lemma_exclusive_start(running: Multiset<usize>, hook: usize)
    requires
        running.count(hook) == 0,
    ensures
        start_allowed(running, hook, false),
        !start_allowed(after_start(running, hook, false), hook, false),
        start_allowed(after_start(running, hook, false).remove(hook), hook, false),
{
}

/// A hook with concurrent runs allowed may always start, whatever runs, and
/// each start counts one more run.
pub proof fn lemma_concurrent_start(running: Multiset<usize>, hook: usize)
    ensures
        start_allowed(running, hook, true),
        after_start(running, hook, true) == running.insert(hook),
        after_start(running, hook, true).count(hook) == running.count(hook) + 1,
{
}

/// Hooks of a list of watched processes, counted per hook.
pub open spec fn hook_counts(hooks: Seq<FolderHookId>) -> Multiset<usize> {
    hooks.map_values(|h: FolderHookId| h.val).to_multiset()
}

/// Milliseconds the reaper waits for a new process while it watches some.
pub const REAPER_WAIT_DELAY_MS: u64 = 500;

/// The hooks of the processes that the reaper watches, in the order in which
/// it keeps the processes.
pub struct Watched {
    /// Hook of each watched process
    pub hooks: Vec<FolderHookId>,
}

impl Watched {
    /// Nothing watched.
    pub fn new() -> (r: Watched)
        ensures
            r.hooks@.len() == 0,
            hook_counts(r.hooks@) == Multiset::<usize>::empty(),
    {
        proof {
            broadcast use vstd::seq_lib::group_to_multiset_ensures;

            assert(Seq::<FolderHookId>::empty().map_values(|h: FolderHookId| h.val).to_multiset().len() == 0);
            assert(hook_counts(Seq::<FolderHookId>::empty()) =~= Multiset::<usize>::empty());
        }
        Watched { hooks: Vec::new() }
    }

    /// Watch a new process of `hook`, kept last.
    pub fn watch(&mut self, hook: FolderHookId)
        ensures
            final(self).hooks@ == old(self).hooks@.push(hook),
            hook_counts(final(self).hooks@) == hook_counts(old(self).hooks@).insert(hook.val),
    {
        proof {
            broadcast use vstd::seq_lib::group_to_multiset_ensures;

            assert(old(self).hooks@.push(hook).map_values(|h: FolderHookId| h.val)
                =~= old(self).hooks@.map_values(|h: FolderHookId| h.val).push(hook.val));
        }
        self.hooks.push(hook);
    }

    /// How long to wait for a new process before polling the watched ones:
    /// without limit when none is watched.
    pub fn wait_limit_ms(&self) -> (r: Option<u64>)
        ensures
            self.hooks@.len() == 0 ==> r is None,
            self.hooks@.len() > 0 ==> r == Some(REAPER_WAIT_DELAY_MS),
    {
        if self.hooks.len() == 0 {
            None
        } else {
            Some(REAPER_WAIT_DELAY_MS)
        }
    }

    /// The process at position `i` has exited: count one run of its hook
    /// less and stop watching it, the last process taking its position.
    /// Runs counted and processes watched stay in step.
    pub fn reaped(&mut self, i: usize, running: &mut RunningHooks) -> (r: FolderHookId)
        requires
            i < old(self).hooks@.len(),
        ensures
            r == old(self).hooks@[i as int],
            final(self).hooks@ == old(self).hooks@.update(i as int, old(self).hooks@.last()).drop_last(),
            final(running)@ == old(running)@.remove(r.val),
            hook_counts(final(self).hooks@) == hook_counts(old(self).hooks@).remove(r.val),
    {
        proof {
            lemma_swap_remove_counts(self.hooks@, i as int);
        }
        let hook = self.hooks.swap_remove(i);
        running.release(hook);
        hook
    }
}

proof fn lemma_swap_remove_counts(s: Seq<FolderHookId>, i: int)
    requires
        0 <= i < s.len(),
    ensures
        hook_counts(s.update(i, s.last()).drop_last()) == hook_counts(s).remove(s[i].val),
{
    broadcast use vstd::seq_lib::group_to_multiset_ensures;

    let f = |h: FolderHookId| h.val;
    let v = s.map_values(f);
    let t = s.update(i, s.last()).drop_last();
    let n = s.len() - 1;
    if i == n {
        assert(t.map_values(f) =~= v.remove(i));
    } else {
        // Moving the last entry to position i and dropping the end is the
        // same as removing i and re-inserting the last entry there.
        let w = v.remove(i);
        assert(t.map_values(f) =~= w.remove(n - 1).insert(i, v[n]));
        assert(w[n - 1] == v[n]);
        vstd::seq_lib::to_multiset_insert(w.remove(n - 1), i, v[n]);
        assert(w.remove(n - 1).to_multiset().insert(w[n - 1]) =~= w.to_multiset());
    }
}

/// Pending runs and watched processes agree: each hook counts as many
/// pending runs as it has watched processes.
pub open spec fn in_step(running: Multiset<usize>, watched: Seq<FolderHookId>) -> bool {
    running == hook_counts(watched)
}

/// While runs and watched processes agree, a hook is running exactly when
/// some watched process belongs to it; and they keep agreeing when a granted
/// run is watched, when a run that failed to spawn is released, and when a
/// watched process is reaped.
pub proof fn lemma_in_step(running: Multiset<usize>, watched: Seq<FolderHookId>, hook: FolderHookId, i: int)
    requires
        in_step(running, watched),
    ensures
        forall|h: usize|
            #![trigger running.count(h)]
            running.count(h) > 0 <==> exists|k: int| 0 <= k < watched.len() && watched[k].val == h,
        in_step(running.insert(hook.val), watched.push(hook)),
        in_step(running.insert(hook.val).remove(hook.val), watched),
        0 <= i < watched.len() ==> in_step(
            running.remove(watched[i].val),
            watched.update(i, watched.last()).drop_last(),
        ),
{
    broadcast use vstd::seq_lib::group_to_multiset_ensures;

    let f = |x: FolderHookId| x.val;
    let v = watched.map_values(f);
    assert forall|h: usize|
        #![trigger running.count(h)]
        running.count(h) > 0 <==> exists|k: int| 0 <= k < watched.len() && watched[k].val == h by {
        if running.count(h) > 0 {
            assert(v.contains(h));
            let k = choose|k: int| 0 <= k < v.len() && v[k] == h;
            assert(watched[k].val == h);
        }
        if exists|k: int| 0 <= k < watched.len() && watched[k].val == h {
            let k = choose|k: int| 0 <= k < watched.len() && watched[k].val == h;
            assert(v[k] == h);
            assert(v.contains(h));
        }
    }
    assert(watched.push(hook).map_values(f) =~= v.push(hook.val));
    assert(running.insert(hook.val).remove(hook.val) =~= running);
    if 0 <= i < watched.len() {
        lemma_swap_remove_counts(watched, i);
    }
}

/// Reaping the process of one run frees that run's slot and keeps the slot
/// of every run still pending: of another hook, or of the same hook with
/// concurrent runs.
pub proof fn lemma_reap_frees_only_exited(running: Multiset<usize>, exited: usize, other: usize)
    requires
        running.count(exited) > 0,
    ensures
        running.remove(exited).count(exited) == running.count(exited) - 1,
        other != exited ==> running.remove(exited).count(other) == running.count(other),
        running.count(exited) > 1 ==> running.remove(exited).count(exited) > 0,
{
}

} // verus!
