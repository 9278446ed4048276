//! Automation sessions: their errors, the registry that owns them while a
//! driver process runs, and the scoped-session protocol.
use vstd::prelude::*;

verus! {

/// Why a session failed.
#[derive(Debug)]
pub enum SessionError {
    /// Caller-supplied session code panicked; `reason` is the captured panic
    /// message.
    Panic { reason: String },
    /// The automation protocol reported an error.
    Protocol { message: String },
}

/// Identifies a registered session. Handles are never reused by a registry,
/// and a later handle is greater than every earlier one.
#[derive(Debug, Clone, Copy, PartialEq, Eq, Hash, Structural)]
pub struct SessionHandle(pub u64);

/// The sessions open against one driver process, by handle.
#[derive(Debug)]
pub struct SessionRegistry<S> {
    entries: Vec<(u64, S)>,
    next_id: u64,
}

/// The map that a list of `(key, value)` entries with distinct keys stands
/// for.
pub open spec fn entries_map<S>(s: Seq<(u64, S)>) -> Map<u64, S>
    decreases s.len(),
{
    if s.len() == 0 {
        Map::empty()
    } else {
        entries_map(s.drop_last()).insert(s.last().0, s.last().1)
    }
}

pub open spec fn keys_distinct<S>(s: Seq<(u64, S)>) -> bool {
    forall|i: int, j: int| 0 <= i < j < s.len() ==> s[i].0 != s[j].0
}

proof fn lemma_entries_map_has<S>(s: Seq<(u64, S)>, i: int)
    requires
        keys_distinct(s),
        0 <= i < s.len(),
    ensures
        entries_map(s).contains_key(s[i].0),
        entries_map(s)[s[i].0] == s[i].1,
    decreases s.len(),
{
    if i < s.len() - 1 {
        lemma_entries_map_has(s.drop_last(), i);
    }
}

proof fn lemma_entries_map_keys<S>(s: Seq<(u64, S)>, k: u64)
    ensures
        entries_map(s).contains_key(k) <==> exists|i: int| 0 <= i < s.len() && s[i].0 == k,
    decreases s.len(),
{
    if s.len() > 0 {
        lemma_entries_map_keys(s.drop_last(), k);
        if entries_map(s.drop_last()).contains_key(k) {
            let i = choose|i: int| 0 <= i < s.drop_last().len() && s.drop_last()[i].0 == k;
            assert(s[i].0 == k);
        }
        if exists|i: int| 0 <= i < s.len() && s[i].0 == k {
            let i = choose|i: int| 0 <= i < s.len() && s[i].0 == k;
            if i < s.len() - 1 {
                assert(s.drop_last()[i].0 == k);
            }
        }
    }
}

proof fn lemma_entries_map_remove<S>(s: Seq<(u64, S)>, i: int)
    requires
        keys_distinct(s),
        0 <= i < s.len(),
    ensures
        entries_map(s.remove(i)) == entries_map(s).remove(s[i].0),
    decreases s.len(),
{
    let k = s[i].0;
    if i == s.len() - 1 {
        assert(s.remove(i) =~= s.drop_last());
        lemma_entries_map_keys(s.drop_last(), k);
        assert(!entries_map(s.drop_last()).contains_key(k));
        assert(entries_map(s).remove(k) =~= entries_map(s.drop_last()));
    } else {
        let t = s.drop_last();
        lemma_entries_map_remove(t, i);
        assert(s.remove(i).drop_last() =~= t.remove(i));
        assert(s.remove(i).last() == s.last());
        assert(entries_map(s.remove(i)) =~= entries_map(s).remove(k));
    }
}

impl<S> SessionRegistry<S> {
    /// The open sessions, by handle number.
    pub closed spec fn view(&self) -> Map<u64, S> {
        entries_map(self.entries@)
    }

    /// The number the next handle gets.
    pub closed spec fn next_id(&self) -> nat {
        self.next_id as nat
    }

    /// Handles are distinct, and below the next one to be minted.
    pub closed spec fn wf(&self) -> bool {
        &&& keys_distinct(self.entries@)
        &&& forall|i: int| 0 <= i < self.entries@.len() ==> self.entries@[i].0 < self.next_id
    }

    pub fn new() -> (r: SessionRegistry<S>)
        ensures
            r.wf(),
            r.view() == Map::<u64, S>::empty(),
            r.next_id() == 0,
    {
        SessionRegistry { entries: Vec::new(), next_id: 0 }
    }

    /// The number of open sessions.
    pub fn len(&self) -> (r: usize)
        requires
            self.wf(),
        ensures
            r == self.view().len(),
    {
        proof {
            self.lemma_len();
        }
        self.entries.len()
    }

    proof fn lemma_len(&self)
        requires
            self.wf(),
        ensures
            self.view().len() == self.entries@.len(),
            self.view().dom().finite(),
    {
        lemma_len_of::<S>(self.entries@);
    }

    /// Registers `session` under a fresh handle, greater than every handle
    /// minted before; none once the handle numbers are used up.
    pub fn register(&mut self, session: S) -> (r: Option<SessionHandle>)
        requires
            old(self).wf(),
        ensures
            final(self).wf(),
            old(self).next_id() == u64::MAX ==> r is None && final(self).view() == old(self).view(),
            old(self).next_id() < u64::MAX ==> (r matches Some(h) && {
                &&& h.0 == old(self).next_id()
                &&& !old(self).view().contains_key(h.0)
                &&& final(self).view() == old(self).view().insert(h.0, session)
                &&& final(self).next_id() == old(self).next_id() + 1
            }),
            forall|k: u64| old(self).view().contains_key(k) ==> k < old(self).next_id(),
    {
        proof {
            assert forall|k: u64| old(self).view().contains_key(k) implies k < old(self).next_id() by {
                lemma_entries_map_keys(self.entries@, k);
            }
        }
        if self.next_id == u64::MAX {
            return None;
        }
        let id = self.next_id;
        proof {
            lemma_entries_map_keys(self.entries@, id);
        }
        let ghost before = self.entries@;
        self.entries.push((id, session));
        self.next_id = id + 1;
        proof {
            assert(self.entries@.drop_last() =~= before);
        }
        Some(SessionHandle(id))
    }

    /// The session registered under `h`, if it is still open.
    pub fn get(&self, h: SessionHandle) -> (r: Option<&S>)
        requires
            self.wf(),
        ensures
            r is Some <==> self.view().contains_key(h.0),
            r matches Some(s) ==> *s == self.view()[h.0],
    {
        let n = self.entries.len();
        let mut i: usize = 0;
        while i < n
            invariant
                n == self.entries@.len(),
                i <= n,
                forall|j: int| 0 <= j < i ==> self.entries@[j].0 != h.0,
                self.wf(),
            decreases n - i,
        {
            if self.entries[i].0 == h.0 {
                proof {
                    lemma_entries_map_has(self.entries@, i as int);
                }
                return Some(&self.entries[i].1);
            }
            i = i + 1;
        }
        proof {
            lemma_entries_map_keys(self.entries@, h.0);
        }
        None
    }

    /// Removes the session of `h` and hands it back to be quit. Closing a
    /// handle that is unknown or already closed changes nothing. No other
    /// session is touched.
    pub fn close(&mut self, h: SessionHandle) -> (r: Option<S>)
        requires
            old(self).wf(),
        ensures
            final(self).wf(),
            final(self).next_id() == old(self).next_id(),
            final(self).view() == old(self).view().remove(h.0),
            r is Some <==> old(self).view().contains_key(h.0),
            r matches Some(s) ==> s == old(self).view()[h.0],
            !old(self).view().contains_key(h.0) ==> final(self).view() == old(self).view(),
            forall|k: u64|
                k != h.0 ==> (#[trigger] final(self).view().contains_key(k)
                    == old(self).view().contains_key(k)) && (old(self).view().contains_key(k)
                    ==> final(self).view()[k] == old(self).view()[k]),
    {
        let n = self.entries.len();
        let mut i: usize = 0;
        while i < n
            invariant
                n == self.entries@.len(),
                i <= n,
                forall|j: int| 0 <= j < i ==> self.entries@[j].0 != h.0,
                self.entries@ == old(self).entries@,
                self.next_id == old(self).next_id,
                old(self).wf(),
            decreases n - i,
        {
            if self.entries[i].0 == h.0 {
                let ghost before = self.entries@;
                proof {
                    lemma_entries_map_has(before, i as int);
                    lemma_entries_map_remove(before, i as int);
                }
                let (_, s) = self.entries.remove(i);
                proof {
                    assert forall|a: int, b: int| 0 <= a < b < self.entries@.len() implies self.entries@[a].0 != self.entries@[b].0 by {
                        let a2 = if a < i { a } else { a + 1 };
                        let b2 = if b < i { b } else { b + 1 };
                        assert(self.entries@[a] == before[a2]);
                        assert(self.entries@[b] == before[b2]);
                    }
                    assert forall|a: int| 0 <= a < self.entries@.len() implies self.entries@[a].0 < self.next_id by {
                        let a2 = if a < i { a } else { a + 1 };
                        assert(self.entries@[a] == before[a2]);
                    }
                }
                return Some(s);
            }
            i = i + 1;
        }
        proof {
            lemma_entries_map_keys(self.entries@, h.0);
            assert(self.view().remove(h.0) =~= self.view());
        }
        None
    }

    /// Removes every session and hands them all back to be quit, in the order
    /// they were registered.
    pub fn drain(&mut self) -> (r: Vec<S>)
        requires
            old(self).wf(),
        ensures
            final(self).wf(),
            final(self).view() == Map::<u64, S>::empty(),
            final(self).next_id() == old(self).next_id(),
            r@.len() == old(self).view().len(),
            forall|k: u64|
                old(self).view().contains_key(k) ==> exists|i: int|
                    0 <= i < r@.len() && r@[i] == old(self).view()[k],
    {
        proof {
            self.lemma_len();
        }
        let ghost before = self.entries@;
        let ghost id = self.next_id;
        let mut out: Vec<S> = Vec::new();
        let n = self.entries.len();
        let mut i: usize = 0;
        while i < n
            invariant
                n == before.len(),
                i <= n,
                out@.len() == i,
                self.entries@ == before.subrange(i as int, n as int),
                self.next_id == id,
                forall|j: int| 0 <= j < i ==> out@[j] == before[j].1,
            decreases n - i,
        {
            assert(self.entries@[0] == before[i as int]);
            let (_, s) = self.entries.remove(0);
            out.push(s);
            i = i + 1;
            assert(self.entries@ =~= before.subrange(i as int, n as int));
        }
        assert(self.entries@ =~= Seq::<(u64, S)>::empty());
        proof {
            assert forall|k: u64| entries_map(before).contains_key(k) implies exists|i: int|
                0 <= i < out@.len() && out@[i] == entries_map(before)[k] by {
                lemma_entries_map_keys(before, k);
                let j = choose|j: int| 0 <= j < before.len() && before[j].0 == k;
                lemma_entries_map_has(before, j);
                assert(out@[j] == entries_map(before)[k]);
            }
        }
        out
    }
}

/// Two sessions registered one after the other: closing the first leaves the
/// second registered with its session, and closing a handle that is not
/// registered (unknown, or closed already) leaves the registry as it was.
pub proof fn lemma_closing_one_session_keeps_the_other<S>(
    open: Map<u64, S>,
    first: u64,
    first_session: S,
    second: u64,
    second_session: S,
    unknown: u64,
)
    requires
        first != second,
    ensures
        ({
            let both = open.insert(first, first_session).insert(second, second_session);
            &&& both.remove(first).contains_key(second)
            &&& both.remove(first)[second] == second_session
            &&& !both.remove(first).contains_key(first)
        }),
        !open.contains_key(unknown) ==> open.remove(unknown) == open,
{
    assert(!open.contains_key(unknown) ==> open.remove(unknown) =~= open);
}

proof fn lemma_len_of<S>(s: Seq<(u64, S)>)
    requires
        keys_distinct(s),
    ensures
        entries_map(s).dom().finite(),
        entries_map(s).len() == s.len(),
    decreases s.len(),
{
    if s.len() > 0 {
        let t = s.drop_last();
        lemma_len_of(t);
        lemma_entries_map_keys(t, s.last().0);
        assert(!entries_map(t).contains_key(s.last().0));
    }
}

/// How caller-supplied code inside a scoped session ended.
#[derive(Debug)]
pub enum ComputationOutcome {
    Completed,
    Failed(SessionError),
    /// The code panicked with this message.
    Panicked(String),
}

#[derive(Debug)]
pub enum ScopePhase {
    /// The session is open and the caller's code runs.
    Running,
    /// The caller's code ended this way; the session is being quit.
    Quitting(ComputationOutcome),
    /// The result has been handed back.
    Finished,
}

#[derive(Debug)]
pub enum ScopeEvent {
    /// The caller's code ended.
    ComputationEnded(ComputationOutcome),
    /// Quitting the session ended this way.
    QuitFinished(Result<(), SessionError>),
}

#[derive(Debug)]
pub enum ScopeAction {
    /// Quit the session.
    QuitSession,
    /// Hand this result to the caller.
    Return(Result<(), SessionError>),
    /// Nothing: the event does not apply in this phase.
    Idle,
}

/// A scoped session: one caller computation against a session that is always
/// quit afterwards, however the computation ended.
#[derive(Debug)]
pub struct ScopedSession {
    pub phase: ScopePhase,
}

/// The result of a scoped session: a failed quit first, else how the
/// computation ended, a panic becoming `SessionError::Panic` with its message.
pub open spec fn scope_result(outcome: ComputationOutcome, quit: Result<(), SessionError>) -> Result<
    (),
    SessionError,
> {
    match quit {
        Err(e) => Err(e),
        Ok(()) => match outcome {
            ComputationOutcome::Completed => Ok(()),
            ComputationOutcome::Failed(e) => Err(e),
            ComputationOutcome::Panicked(reason) => Err(SessionError::Panic { reason }),
        },
    }
}

/// One transition of a scoped session.
pub open spec fn scope_next(p: ScopePhase, e: ScopeEvent) -> (ScopePhase, ScopeAction) {
    match (p, e) {
        (ScopePhase::Running, ScopeEvent::ComputationEnded(o)) => (
            ScopePhase::Quitting(o),
            ScopeAction::QuitSession,
        ),
        (ScopePhase::Quitting(o), ScopeEvent::QuitFinished(q)) => (
            ScopePhase::Finished,
            ScopeAction::Return(scope_result(o, q)),
        ),
        (p, _) => (p, ScopeAction::Idle),
    }
}

fn combine(outcome: ComputationOutcome, quit: Result<(), SessionError>) -> (r: Result<(), SessionError>)
    ensures
        r == scope_result(outcome, quit),
{
    match quit {
        Err(e) => Err(e),
        Ok(()) => match outcome {
            ComputationOutcome::Completed => Ok(()),
            ComputationOutcome::Failed(e) => Err(e),
            ComputationOutcome::Panicked(reason) => Err(SessionError::Panic { reason }),
        },
    }
}

impl ScopedSession {
    /// A scoped session whose session has just been opened.
    pub fn start() -> (r: ScopedSession)
        ensures
            r.phase is Running,
    {
        ScopedSession { phase: ScopePhase::Running }
    }

    /// Takes one event and names the action it calls for.
    pub fn step(self, e: ScopeEvent) -> (r: (ScopedSession, ScopeAction))
        ensures
            (r.0.phase, r.1) == scope_next(self.phase, e),
    {
        match (self.phase, e) {
            (ScopePhase::Running, ScopeEvent::ComputationEnded(o)) => (
                ScopedSession { phase: ScopePhase::Quitting(o) },
                ScopeAction::QuitSession,
            ),
            (ScopePhase::Quitting(o), ScopeEvent::QuitFinished(q)) => (
                ScopedSession { phase: ScopePhase::Finished },
                ScopeAction::Return(combine(o, q)),
            ),
            (p, _) => (ScopedSession { phase: p }, ScopeAction::Idle),
        }
    }
}

/// The phase after `events`, and the actions named on the way.
pub open spec fn scope_run(p: ScopePhase, events: Seq<ScopeEvent>) -> (ScopePhase, Seq<ScopeAction>)
    decreases events.len(),
{
    if events.len() == 0 {
        (p, seq![])
    } else {
        let (q, a) = scope_next(p, events[0]);
        let (last, rest) = scope_run(q, events.drop_first());
        (last, seq![a] + rest)
    }
}

proof fn lemma_return_follows_quit_from(p: ScopePhase, events: Seq<ScopeEvent>, i: int)
    requires
        0 <= i < scope_run(p, events).1.len(),
        scope_run(p, events).1[i] is Return,
    ensures
        !(p is Running) || exists|j: int| 0 <= j < i && scope_run(p, events).1[j] is QuitSession,
    decreases events.len(),
{
    if events.len() > 0 {
        let (q, a) = scope_next(p, events[0]);
        let rest = scope_run(q, events.drop_first()).1;
        let acts = scope_run(p, events).1;
        assert(acts == seq![a] + rest);
        if i > 0 {
            assert(rest[i - 1] == acts[i]);
            lemma_return_follows_quit_from(q, events.drop_first(), i - 1);
            if p is Running {
                if q is Running {
                    let j = choose|j: int| 0 <= j < i - 1 && rest[j] is QuitSession;
                    assert(acts[j + 1] == rest[j]);
                } else {
                    assert(acts[0] is QuitSession);
                }
            }
        }
    }
}

/// In a scoped session the result is handed back only after the session was
/// told to quit: every `Return` is preceded by a `QuitSession`.
pub proof fn lemma_result_only_after_quit(events: Seq<ScopeEvent>)
    ensures
        forall|i: int|
            0 <= i < scope_run(ScopePhase::Running, events).1.len() && (#[trigger] scope_run(
                ScopePhase::Running,
                events,
            ).1[i]) is Return ==> exists|j: int|
                0 <= j < i && scope_run(ScopePhase::Running, events).1[j] is QuitSession,
{
    assert forall|i: int|
        0 <= i < scope_run(ScopePhase::Running, events).1.len() && (#[trigger] scope_run(
            ScopePhase::Running,
            events,
        ).1[i]) is Return implies exists|j: int|
            0 <= j < i && scope_run(ScopePhase::Running, events).1[j] is QuitSession by {
        lemma_return_follows_quit_from(ScopePhase::Running, events, i);
    }
}

/// When the caller's code panics, the session is quit first, and the panic
/// then comes back as `SessionError::Panic` carrying its message.
pub proof fn lemma_panic_is_reported_after_quit(reason: String)
    ensures
        scope_next(
            ScopePhase::Running,
            ScopeEvent::ComputationEnded(ComputationOutcome::Panicked(reason)),
        ).1 is QuitSession,
        scope_next(
            scope_next(
                ScopePhase::Running,
                ScopeEvent::ComputationEnded(ComputationOutcome::Panicked(reason)),
            ).0,
            ScopeEvent::QuitFinished(Ok(())),
        ).1 == ScopeAction::Return(Err(SessionError::Panic { reason })),
{
}

} // verus!
