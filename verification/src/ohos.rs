//! The OpenHarmony runtime state of a Tauri application: the base path and
//! module name that are set once at start-up, the plugins waiting to be
//! registered with the ArkTS plugin manager, and the queue of plugin
//! commands handed to ArkTS in the order they were dispatched, and the
//! plugin calls waiting for their response.
use vstd::prelude::*;

verus! {

/// A value that is set at most once, as `std::sync::OnceLock` holds it.
#[derive(Debug)]
pub struct SetOnce<T> {
    value: Option<T>,
}

impl<T> SetOnce<T> {
    /// The value, once set.
    pub closed spec fn value(&self) -> Option<T> {
        self.value
    }

    /// A value that is not set yet.
    pub fn new() -> (r: Self)
        ensures
            r.value() is None,
    {
        SetOnce { value: None }
    }

    /// The value, if it has been set.
    pub fn get(&self) -> (r: Option<&T>)
        ensures
            r matches Some(v) ==> self.value() == Some(*v),
            r is None <==> self.value() is None,
    {
        match &self.value {
            Some(v) => Some(v),
            None => None,
        }
    }

    /// Sets the value unless it is set already; a value that is refused is
    /// handed back.
    pub fn set(&mut self, v: T) -> (r: Result<(), T>)
        ensures
            old(self).value() is None ==> r is Ok && final(self).value() == Some(v),
            old(self).value() is Some ==> r == Err::<(), T>(v)
                && final(self).value() == old(self).value(),
    {
        if self.value.is_some() {
            Err(v)
        } else {
            self.value = Some(v);
            Ok(())
        }
    }
}

/// A plugin to register with the ArkTS plugin manager; its configuration is
/// the JSON text of the plugin's configuration value.
#[derive(Debug)]
pub struct PluginRegistration {
    pub name: String,
    pub identifier: String,
    pub class_name: String,
    pub config: String,
}

/// A plugin command to run in ArkTS.
#[derive(Debug)]
pub struct RunCommandArgs {
    pub id: i32,
    pub plugin_name: String,
    pub command: String,
    pub payload: String,
}

impl RunCommandArgs {
    /// A copy of the command.
    pub fn duplicate(&self) -> (r: Self)
        ensures
            r == *self,
    {
        RunCommandArgs {
            id: self.id,
            plugin_name: self.plugin_name.clone(),
            command: self.command.clone(),
            payload: self.payload.clone(),
        }
    }
}

/// The commands that popping a queue from its front yields until it is
/// empty, in order.
pub open spec fn drained<A>(q: Seq<A>) -> Seq<A>
    decreases q.len(),
{
    if q.len() == 0 {
        seq![]
    } else {
        seq![q[0]] + drained(q.drop_first())
    }
}

/// Popping a queue from the front until it is empty yields its commands in
/// the order they were pushed at the back.
pub proof fn lemma_drained_in_order<A>(q: Seq<A>)
    ensures
        drained(q) == q,
    decreases q.len(),
{
    if q.len() > 0 {
        lemma_drained_in_order(q.drop_first());
        assert(seq![q[0]] + q.drop_first() =~= q);
    }
}

/// The run-command queue, the plugins to register, and the values set once
/// at start-up.
#[derive(Debug)]
pub struct OhosRuntime {
    base_path: SetOnce<Option<String>>,
    module_name: SetOnce<Option<String>>,
    queue: Vec<RunCommandArgs>,
    plugins: Vec<PluginRegistration>,
    notifier_ready: bool,
}

impl OhosRuntime {
    /// The base path, once set.
    pub closed spec fn base_path_value(&self) -> Option<Option<String>> {
        self.base_path.value()
    }

    /// The entry module's name, once set.
    pub closed spec fn module_name_value(&self) -> Option<Option<String>> {
        self.module_name.value()
    }

    /// The queued commands, oldest first.
    pub closed spec fn queued(&self) -> Seq<RunCommandArgs> {
        self.queue@
    }

    /// The plugins waiting to be registered, in registration order.
    pub closed spec fn pending_plugins(&self) -> Seq<PluginRegistration> {
        self.plugins@
    }

    /// Whether the thread-safe function that wakes ArkTS exists.
    pub closed spec fn has_notifier(&self) -> bool {
        self.notifier_ready
    }

    /// A runtime with nothing set, queued or registered.
    pub fn new() -> (r: Self)
        ensures
            r.base_path_value() is None,
            r.module_name_value() is None,
            r.queued().len() == 0,
            r.pending_plugins().len() == 0,
            !r.has_notifier(),
    {
        OhosRuntime {
            base_path: SetOnce::new(),
            module_name: SetOnce::new(),
            queue: Vec::new(),
            plugins: Vec::new(),
            notifier_ready: false,
        }
    }

    /// The application's base path, once set.
    pub fn base_path(&self) -> (r: Option<&Option<String>>)
        ensures
            r matches Some(v) ==> self.base_path_value() == Some(*v),
            r is None <==> self.base_path_value() is None,
    {
        self.base_path.get()
    }

    /// The entry module's name, once set.
    pub fn module_name(&self) -> (r: Option<&Option<String>>)
        ensures
            r matches Some(v) ==> self.module_name_value() == Some(*v),
            r is None <==> self.module_name_value() is None,
    {
        self.module_name.get()
    }

    /// Sets the base path unless it is set already; a refused value is
    /// handed back.
    pub fn set_base_path(&mut self, v: Option<String>) -> (r: Result<(), Option<String>>)
        ensures
            old(self).base_path_value() is None ==> r is Ok && final(self).base_path_value()
                == Some(v),
            old(self).base_path_value() is Some ==> r == Err::<(), Option<String>>(v)
                && final(self).base_path_value() == old(self).base_path_value(),
            final(self).module_name_value() == old(self).module_name_value(),
            final(self).queued() == old(self).queued(),
            final(self).pending_plugins() == old(self).pending_plugins(),
            final(self).has_notifier() == old(self).has_notifier(),
    {
        self.base_path.set(v)
    }

    /// Sets the module name unless it is set already; a refused value is
    /// handed back.
    pub fn set_module_name(&mut self, v: Option<String>) -> (r: Result<(), Option<String>>)
        ensures
            old(self).module_name_value() is None ==> r is Ok && final(self).module_name_value()
                == Some(v),
            old(self).module_name_value() is Some ==> r == Err::<(), Option<String>>(v)
                && final(self).module_name_value() == old(self).module_name_value(),
            final(self).base_path_value() == old(self).base_path_value(),
            final(self).queued() == old(self).queued(),
            final(self).pending_plugins() == old(self).pending_plugins(),
            final(self).has_notifier() == old(self).has_notifier(),
    {
        self.module_name.set(v)
    }

    /// Records that the thread-safe function which wakes ArkTS exists.
    pub fn set_notifier_ready(&mut self)
        ensures
            final(self).has_notifier(),
            final(self).queued() == old(self).queued(),
            final(self).pending_plugins() == old(self).pending_plugins(),
            final(self).base_path_value() == old(self).base_path_value(),
            final(self).module_name_value() == old(self).module_name_value(),
    {
        self.notifier_ready = true;
    }

    /// Queues a command at the back and says whether ArkTS is to be woken
    /// (it is whenever the thread-safe function exists).
    pub fn dispatch_run_command(&mut self, args: RunCommandArgs) -> (wake: bool)
        ensures
            final(self).queued() == old(self).queued().push(args),
            wake == old(self).has_notifier(),
            final(self).has_notifier() == old(self).has_notifier(),
            final(self).pending_plugins() == old(self).pending_plugins(),
            final(self).base_path_value() == old(self).base_path_value(),
            final(self).module_name_value() == old(self).module_name_value(),
    {
        self.queue.push(args);
        self.notifier_ready
    }

    /// Takes the oldest queued command.
    pub fn pop_command(&mut self) -> (r: Option<RunCommandArgs>)
        ensures
            old(self).queued().len() == 0 ==> r is None && final(self).queued().len() == 0,
            old(self).queued().len() > 0 ==> r == Some(old(self).queued()[0])
                && final(self).queued() == old(self).queued().drop_first(),
            final(self).has_notifier() == old(self).has_notifier(),
            final(self).pending_plugins() == old(self).pending_plugins(),
            final(self).base_path_value() == old(self).base_path_value(),
            final(self).module_name_value() == old(self).module_name_value(),
    {
        if self.queue.len() == 0 {
            None
        } else {
            let a = self.queue.remove(0);
            assert(self.queue@ =~= old(self).queue@.drop_first());
            Some(a)
        }
    }

    /// Takes every queued command, oldest first: the commands the ArkTS
    /// callback runs when it is woken.
    pub fn drain_commands(&mut self) -> (r: Vec<RunCommandArgs>)
        ensures
            r@ == drained(old(self).queued()),
            final(self).queued().len() == 0,
            final(self).has_notifier() == old(self).has_notifier(),
            final(self).pending_plugins() == old(self).pending_plugins(),
            final(self).base_path_value() == old(self).base_path_value(),
            final(self).module_name_value() == old(self).module_name_value(),
    {
        let ghost q0 = self.queue@;
        let mut out: Vec<RunCommandArgs> = Vec::new();
        while self.queue.len() > 0
            invariant
                out@ + drained(self.queue@) == drained(q0),
                self.notifier_ready == old(self).notifier_ready,
                self.plugins@ == old(self).plugins@,
                self.base_path.value() == old(self).base_path.value(),
                self.module_name.value() == old(self).module_name.value(),
            decreases self.queue@.len(),
        {
            let ghost before = self.queue@;
            let a = self.queue.remove(0);
            assert(self.queue@ =~= before.drop_first());
            let ghost o = out@;
            out.push(a);
            assert(out@ + drained(self.queue@) =~= o + drained(before));
        }
        assert(out@ + drained(self.queue@) =~= out@);
        out
    }

    /// Adds a plugin to register with the ArkTS plugin manager.
    pub fn register_plugin(&mut self, p: PluginRegistration)
        ensures
            final(self).pending_plugins() == old(self).pending_plugins().push(p),
            final(self).queued() == old(self).queued(),
            final(self).has_notifier() == old(self).has_notifier(),
            final(self).base_path_value() == old(self).base_path_value(),
            final(self).module_name_value() == old(self).module_name_value(),
    {
        self.plugins.push(p);
    }

    /// The plugins to register, in registration order.
    pub fn plugins_to_register(&self) -> (r: &Vec<PluginRegistration>)
        ensures
            r@ == self.pending_plugins(),
    {
        &self.plugins
    }
}

/// Commands dispatched to a runtime come out of `drain_commands` in the
/// order they were dispatched, after those queued before them.
pub proof fn lemma_dispatch_fifo(queued: Seq<RunCommandArgs>, args: RunCommandArgs)
    ensures
        drained(queued.push(args)) == queued.push(args),
        drained(queued.push(args)).last() == args,
        forall|i: int| 0 <= i < queued.len() ==> drained(queued.push(args))[i] == queued[i],
{
    lemma_drained_in_order(queued.push(args));
}


// ------------------------------------------------------------------
// Plugin calls waiting for their response
// ------------------------------------------------------------------

/// No two entries have the same call id.
pub open spec fn ids_distinct<T>(s: Seq<(i32, T)>) -> bool {
    forall|i: int, j: int| 0 <= i < j < s.len() ==> s[i].0 != s[j].0
}

/// Whether call `id` is waiting.
pub open spec fn has_call<T>(s: Seq<(i32, T)>, id: i32) -> bool {
    exists|i: int| 0 <= i < s.len() && s[i].0 == id
}

/// The handler of waiting call `id`.
pub open spec fn call_of<T>(s: Seq<(i32, T)>, id: i32) -> T {
    s[choose|i: int| 0 <= i < s.len() && s[i].0 == id].1
}

/// The plugin calls waiting for their ArkTS response: each call id with the
/// handler that its response is handed to, at most one per id.
#[derive(Debug)]
pub struct PendingCalls<T> {
    entries: Vec<(i32, T)>,
}

/// The handler at an index is the handler of its id when ids are distinct.
proof fn lemma_call_at<T>(s: Seq<(i32, T)>, i: int)
    requires
        ids_distinct(s),
        0 <= i < s.len(),
    ensures
        has_call(s, s[i].0),
        call_of(s, s[i].0) == s[i].1,
{
    let id = s[i].0;
    assert(has_call(s, id));
    let j = choose|j: int| 0 <= j < s.len() && s[j].0 == id;
    if j != i {
        if j < i {
            assert(s[j].0 != s[i].0);
        } else {
            assert(s[i].0 != s[j].0);
        }
    }
}

/// Removing the entry at index `i` removes its id and keeps every other
/// call with its handler.
proof fn lemma_remove_call<T>(s: Seq<(i32, T)>, i: int)
    requires
        ids_distinct(s),
        0 <= i < s.len(),
    ensures
        ids_distinct(s.remove(i)),
        !has_call(s.remove(i), s[i].0),
        forall|k: i32|
            k != s[i].0 ==> (has_call(s.remove(i), k) == has_call(s, k) && (has_call(s, k)
                ==> call_of(s.remove(i), k) == call_of(s, k))),
{
    let t = s.remove(i);
    assert forall|a: int, b: int| 0 <= a < b < t.len() implies t[a].0 != t[b].0 by {
        let a2 = if a < i { a } else { a + 1 };
        let b2 = if b < i { b } else { b + 1 };
        assert(t[a] == s[a2] && t[b] == s[b2]);
    }
    if has_call(t, s[i].0) {
        let w = choose|w: int| 0 <= w < t.len() && t[w].0 == s[i].0;
        let w2 = if w < i { w } else { w + 1 };
        assert(t[w] == s[w2]);
        if w2 < i {
            assert(s[w2].0 != s[i].0);
        } else {
            assert(s[i].0 != s[w2].0);
        }
    }
    assert forall|k: i32| k != s[i].0 implies (has_call(t, k) == has_call(s, k) && (has_call(s, k)
        ==> call_of(t, k) == call_of(s, k))) by {
        if has_call(s, k) {
            let j = choose|j: int| 0 <= j < s.len() && s[j].0 == k;
            assert(j != i);
            let j2 = if j < i { j } else { j - 1 };
            assert(t[j2] == s[j]);
            lemma_call_at(s, j);
            lemma_call_at(t, j2);
        }
        if has_call(t, k) {
            let w = choose|w: int| 0 <= w < t.len() && t[w].0 == k;
            let w2 = if w < i { w } else { w + 1 };
            assert(t[w] == s[w2]);
        }
    }
}

impl<T> PendingCalls<T> {
    /// The waiting calls and their handlers.
    pub closed spec fn calls(&self) -> Seq<(i32, T)> {
        self.entries@
    }

    /// At most one handler per call id.
    pub open spec fn wf(&self) -> bool {
        ids_distinct(self.calls())
    }

    /// Whether call `id` is waiting.
    pub open spec fn has(&self, id: i32) -> bool {
        has_call(self.calls(), id)
    }

    /// The handler of waiting call `id`.
    pub open spec fn handler(&self, id: i32) -> T {
        call_of(self.calls(), id)
    }

    /// No call is waiting.
    pub fn new() -> (r: Self)
        ensures
            r.wf(),
            forall|id: i32| !r.has(id),
    {
        PendingCalls { entries: Vec::new() }
    }

    fn index_of(&self, id: i32) -> (r: Option<usize>)
        ensures
            match r {
                Some(i) => i < self.calls().len() && self.calls()[i as int].0 == id,
                None => !self.has(id),
            },
    {
        let mut i: usize = 0;
        while i < self.entries.len()
            invariant
                i <= self.entries@.len(),
                forall|k: int| 0 <= k < i ==> self.entries@[k].0 != id,
            decreases self.entries.len() - i,
        {
            if self.entries[i].0 == id {
                return Some(i);
            }
            i = i + 1;
        }
        None
    }

    /// Takes the handler of call `id` out: none when no such call waits. A
    /// taken call no longer waits, so its handler is handed out at most once;
    /// every other call stays as it was.
    pub fn take(&mut self, id: i32) -> (r: Option<T>)
        requires
            old(self).wf(),
        ensures
            final(self).wf(),
            !final(self).has(id),
            r is Some <==> old(self).has(id),
            r matches Some(h) ==> h == old(self).handler(id),
            forall|k: i32|
                k != id ==> (final(self).has(k) == old(self).has(k) && (old(self).has(k)
                    ==> final(self).handler(k) == old(self).handler(k))),
    {
        match self.index_of(id) {
            None => None,
            Some(i) => {
                let ghost s = self.entries@;
                proof {
                    lemma_call_at(s, i as int);
                    lemma_remove_call(s, i as int);
                }
                let (_, h) = self.entries.remove(i);
                Some(h)
            },
        }
    }

    /// Makes `h` the handler of call `id`, handing back the handler it
    /// replaces, if any; every other call stays as it was.
    pub fn insert(&mut self, id: i32, h: T) -> (r: Option<T>)
        requires
            old(self).wf(),
        ensures
            final(self).wf(),
            final(self).has(id),
            final(self).handler(id) == h,
            r is Some <==> old(self).has(id),
            r matches Some(p) ==> p == old(self).handler(id),
            forall|k: i32|
                k != id ==> (final(self).has(k) == old(self).has(k) && (old(self).has(k)
                    ==> final(self).handler(k) == old(self).handler(k))),
    {
        let ghost s0 = self.entries@;
        let prev = self.take(id);
        let ghost s1 = self.entries@;
        self.entries.push((id, h));
        let ghost s2 = self.entries@;
        assert(s2 == s1.push((id, h)));
        assert forall|a: int, b: int| 0 <= a < b < s2.len() implies s2[a].0 != s2[b].0 by {
            if b == s1.len() {
                assert(s2[a] == s1[a]);
                assert(has_call(s1, s1[a].0));
            } else {
                assert(s2[a] == s1[a] && s2[b] == s1[b]);
            }
        }
        proof {
            lemma_call_at(s2, s1.len() as int);
        }
        assert forall|k: i32| k != id implies (has_call(s2, k) == has_call(s1, k) && (has_call(s1, k)
            ==> call_of(s2, k) == call_of(s1, k))) by {
            if has_call(s1, k) {
                let j = choose|j: int| 0 <= j < s1.len() && s1[j].0 == k;
                assert(s2[j] == s1[j]);
                lemma_call_at(s1, j);
                lemma_call_at(s2, j);
            }
            if has_call(s2, k) {
                let w = choose|w: int| 0 <= w < s2.len() && s2[w].0 == k;
                assert(w < s1.len());
                assert(s2[w] == s1[w]);
            }
        }
        prev
    }
}

} // verus!

