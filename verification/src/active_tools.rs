//! Tool calls in progress and their heartbeats.
use vstd::prelude::*;

use crate::text::str_eq;
use crate::time::{Clock, Duration, Instant, NANOS_PER_SEC, minus_to_zero};

verus! {

/// The first heartbeat is due after this many seconds.
pub const HEARTBEAT_FIRST_AFTER_SECS: u64 = 10;

/// Further heartbeats are due every this many seconds.
pub const HEARTBEAT_EVERY_SECS: u64 = 30;

/// [`HEARTBEAT_FIRST_AFTER_SECS`] in nanoseconds.
pub open spec fn first_after() -> nat {
    (HEARTBEAT_FIRST_AFTER_SECS * NANOS_PER_SEC) as nat
}

/// [`HEARTBEAT_EVERY_SECS`] in nanoseconds.
pub open spec fn every() -> nat {
    (HEARTBEAT_EVERY_SECS * NANOS_PER_SEC) as nat
}

/// A tool call in progress.
#[derive(Debug, Clone)]
pub struct ActiveToolDisplay {
    pub label: String,
    pub started_at: Instant,
    /// When the last heartbeat was shown, or the start where none was.
    pub last_heartbeat_at: Instant,
}

impl ActiveToolDisplay {
    /// How long the call has run at `now`.
    pub open spec fn age(self, now: nat) -> nat {
        minus_to_zero(now, self.started_at@)
    }

    /// How long ago the last heartbeat was at `now`.
    pub open spec fn quiet_for(self, now: nat) -> nat {
        minus_to_zero(now, self.last_heartbeat_at@)
    }

    /// Whether a heartbeat was shown since the start.
    pub open spec fn has_beaten(self) -> bool {
        self.last_heartbeat_at@ != self.started_at@
    }

    /// Whether a heartbeat is due at `now`: the first one once the call has run
    /// for the first interval, a further one when the last is an interval ago.
    pub open spec fn due(self, now: nat) -> bool {
        self.age(now) >= first_after() && (self.has_beaten() ==> self.quiet_for(now) >= every())
    }

    /// The time from `now` until the next heartbeat of this call.
    pub open spec fn wait(self, now: nat) -> nat {
        if self.age(now) < first_after() {
            (first_after() - self.age(now)) as nat
        } else if !self.has_beaten() {
            0
        } else {
            minus_to_zero(every(), self.quiet_for(now))
        }
    }

    /// A call that starts at `now`.
    pub fn new_at(label: String, now: Instant) -> (tool: Self)
        ensures
            tool.label == label,
            tool.started_at == now,
            tool.last_heartbeat_at == now,
    {
        ActiveToolDisplay { label, started_at: now, last_heartbeat_at: now }
    }

    /// A call that starts now.
    pub fn new(label: String, clock: &mut Clock) -> (tool: Self)
        ensures
            tool.label == label,
            tool.started_at@ == final(clock)@,
            tool.last_heartbeat_at@ == final(clock)@,
            final(clock)@ >= old(clock)@,
            final(clock).reads() == old(clock).reads() + 1,
    {
        Self::new_at(label, clock.now())
    }

    /// The time from the start to `now`.
    pub fn elapsed_at(&self, now: Instant) -> (d: Duration)
        ensures
            d@ == self.age(now@),
    {
        now.duration_since(self.started_at)
    }

    /// The time since the start.
    pub fn elapsed(&self, clock: &mut Clock) -> (d: Duration)
        ensures
            d@ == self.age(final(clock)@),
            final(clock)@ >= old(clock)@,
            final(clock).reads() == old(clock).reads() + 1,
    {
        self.elapsed_at(clock.now())
    }

    /// Whether a heartbeat is due at `now`.
    pub fn heartbeat_due_at(&self, now: Instant) -> (r: bool)
        ensures
            r == self.due(now@),
    {
        let since_start = now.duration_since(self.started_at);
        let since_last = now.duration_since(self.last_heartbeat_at);
        if since_start.nanos < Duration::from_secs(HEARTBEAT_FIRST_AFTER_SECS).nanos {
            return false;
        }
        if self.last_heartbeat_at.nanos == self.started_at.nanos {
            return true;
        }
        since_last.nanos >= Duration::from_secs(HEARTBEAT_EVERY_SECS).nanos
    }

    /// Whether a heartbeat is due.
    pub fn heartbeat_due(&self, clock: &mut Clock) -> (r: bool)
        ensures
            r == self.due(final(clock)@),
            final(clock)@ >= old(clock)@,
            final(clock).reads() == old(clock).reads() + 1,
    {
        self.heartbeat_due_at(clock.now())
    }

    /// The time from `now` until the next heartbeat.
    pub fn wait_at(&self, now: Instant) -> (d: Duration)
        ensures
            d@ == self.wait(now@),
    {
        let first = Duration::from_secs(HEARTBEAT_FIRST_AFTER_SECS);
        let every = Duration::from_secs(HEARTBEAT_EVERY_SECS);
        let elapsed = now.duration_since(self.started_at);
        if elapsed.nanos < first.nanos {
            first.saturating_sub(elapsed)
        } else if self.last_heartbeat_at.nanos == self.started_at.nanos {
            Duration::from_secs(0)
        } else {
            every.saturating_sub(now.duration_since(self.last_heartbeat_at))
        }
    }
}

/// The tool calls in progress, each under an id of its own.
#[derive(Debug)]
pub struct ActiveTools {
    entries: Vec<(String, ActiveToolDisplay)>,
}

/// No two entries have the same id.
spec fn distinct_ids(entries: Seq<(String, ActiveToolDisplay)>) -> bool {
    forall|i: int, j: int|
        0 <= i < entries.len() && 0 <= j < entries.len() && i != j ==> (#[trigger] entries[i]).0@
            != (#[trigger] entries[j]).0@
}

/// The position of the entry with the given id.
spec fn position(entries: Seq<(String, ActiveToolDisplay)>, id: Seq<char>) -> int {
    choose|i: int| 0 <= i < entries.len() && (#[trigger] entries[i]).0@ == id
}

/// The calls by id.
spec fn by_id(entries: Seq<(String, ActiveToolDisplay)>) -> Map<Seq<char>, ActiveToolDisplay> {
    Map::new(
        |id: Seq<char>|
            exists|i: int| 0 <= i < entries.len() && (#[trigger] entries[i]).0@ == id,
        |id: Seq<char>| entries[position(entries, id)].1,
    )
}

impl View for ActiveTools {
    type V = Map<Seq<char>, ActiveToolDisplay>;

    closed spec fn view(&self) -> Map<Seq<char>, ActiveToolDisplay> {
        by_id(self.entries@)
    }
}

/// An entry is found under its id.
proof fn lemma_entry(entries: Seq<(String, ActiveToolDisplay)>, i: int)
    requires
        distinct_ids(entries),
        0 <= i < entries.len(),
    ensures
        by_id(entries).contains_key(entries[i].0@),
        by_id(entries)[entries[i].0@] == entries[i].1,
{
    let id = entries[i].0@;
    assert(entries[i].0@ == id);
    assert(position(entries, id) == i);
}

/// Taking an entry out takes its id out.
proof fn lemma_without(entries: Seq<(String, ActiveToolDisplay)>, i: int)
    requires
        distinct_ids(entries),
        0 <= i < entries.len(),
    ensures
        distinct_ids(entries.remove(i)),
        by_id(entries.remove(i)) == by_id(entries).remove(entries[i].0@),
{
    let rest = entries.remove(i);
    let smaller = by_id(entries).remove(entries[i].0@);
    assert forall|id: Seq<char>| by_id(rest).contains_key(id) implies smaller.contains_key(id)
        && smaller[id] == by_id(rest)[id] by {
        let j = choose|j: int| 0 <= j < rest.len() && (#[trigger] rest[j]).0@ == id;
        let k = if j < i {
            j
        } else {
            j + 1
        };
        assert(rest[j] == entries[k]);
        lemma_entry(rest, j);
        lemma_entry(entries, k);
    }
    assert forall|id: Seq<char>| smaller.contains_key(id) implies by_id(rest).contains_key(id) by {
        let k = choose|k: int| 0 <= k < entries.len() && (#[trigger] entries[k]).0@ == id;
        let j = if k < i {
            k
        } else {
            k - 1
        };
        assert(rest[j] == entries[k]);
        lemma_entry(rest, j);
    }
    assert(by_id(rest) =~= smaller);
}

/// An entry with a new id puts the call under that id.
proof fn lemma_with(
    entries: Seq<(String, ActiveToolDisplay)>,
    entry: (String, ActiveToolDisplay),
)
    requires
        distinct_ids(entries),
        forall|j: int| 0 <= j < entries.len() ==> (#[trigger] entries[j]).0@ != entry.0@,
    ensures
        distinct_ids(entries.push(entry)),
        by_id(entries.push(entry)) == by_id(entries).insert(entry.0@, entry.1),
{
    let more = entries.push(entry);
    let larger = by_id(entries).insert(entry.0@, entry.1);
    lemma_entry(more, entries.len() as int);
    assert forall|id: Seq<char>| by_id(more).contains_key(id) implies larger.contains_key(id)
        && larger[id] == by_id(more)[id] by {
        let j = choose|j: int| 0 <= j < more.len() && (#[trigger] more[j]).0@ == id;
        lemma_entry(more, j);
        if j < entries.len() {
            assert(more[j] == entries[j]);
            lemma_entry(entries, j);
        }
    }
    assert forall|id: Seq<char>| larger.contains_key(id) implies by_id(more).contains_key(id) by {
        if id != entry.0@ {
            let j = choose|j: int| 0 <= j < entries.len() && (#[trigger] entries[j]).0@ == id;
            assert(more[j] == entries[j]);
            lemma_entry(more, j);
        }
    }
    assert(by_id(more) =~= larger);
}

impl ActiveTools {
    #[verifier::type_invariant]
    spec fn well_formed(&self) -> bool {
        distinct_ids(self.entries@)
    }

    /// No calls.
    pub fn new() -> (tools: Self)
        ensures
            tools@ == Map::<Seq<char>, ActiveToolDisplay>::empty(),
    {
        let tools = ActiveTools { entries: Vec::new() };
        assert(tools@ =~= Map::<Seq<char>, ActiveToolDisplay>::empty());
        tools
    }

    /// The position of the entry with the given id, or the number of entries
    /// where none has it.
    fn find(&self, id: &str) -> (r: usize)
        ensures
            r <= self.entries@.len(),
            r < self.entries@.len() ==> self.entries@[r as int].0@ == id@,
            r == self.entries@.len() ==> forall|j: int|
                0 <= j < self.entries@.len() ==> (#[trigger] self.entries@[j]).0@ != id@,
    {
        let mut i: usize = 0;
        while i < self.entries.len()
            invariant
                i <= self.entries@.len(),
                forall|j: int| 0 <= j < i ==> (#[trigger] self.entries@[j]).0@ != id@,
            decreases self.entries@.len() - i,
        {
            if str_eq(self.entries[i].0.as_str(), id) {
                return i;
            }
            i = i + 1;
        }
        i
    }

    /// The call with the given id.
    pub fn get(&self, id: &str) -> (r: Option<&ActiveToolDisplay>)
        ensures
            match r {
                Some(tool) => self@.contains_key(id@) && self@[id@] == *tool,
                None => !self@.contains_key(id@),
            },
    {
        proof {
            use_type_invariant(self);
        }
        let i: usize = self.find(id);
        if i < self.entries.len() {
            proof {
                lemma_entry(self.entries@, i as int);
            }
            Some(&self.entries[i].1)
        } else {
            None
        }
    }

    /// Take the call with the given id out.
    pub fn remove(&mut self, id: &str) -> (r: Option<ActiveToolDisplay>)
        ensures
            final(self)@ == old(self)@.remove(id@),
            match r {
                Some(tool) => old(self)@.contains_key(id@) && old(self)@[id@] == tool,
                None => !old(self)@.contains_key(id@),
            },
    {
        proof {
            use_type_invariant(&*self);
        }
        let i: usize = self.find(id);
        if i == self.entries.len() {
            assert(self@.remove(id@) =~= self@);
            return None;
        }
        let mut entries: Vec<(String, ActiveToolDisplay)> = Vec::new();
        std::mem::swap(&mut entries, &mut self.entries);
        let ghost before = entries@;
        let (_, tool) = entries.remove(i);
        proof {
            lemma_entry(before, i as int);
            lemma_without(before, i as int);
            assert(entries@ == before.remove(i as int));
        }
        self.entries = entries;
        Some(tool)
    }

    /// Put a call under the given id, in place of the one that has it.
    pub fn insert(&mut self, id: String, tool: ActiveToolDisplay)
        ensures
            final(self)@ == old(self)@.insert(id@, tool),
    {
        let _ = self.remove(id.as_str());
        proof {
            use_type_invariant(&*self);
        }
        let mut entries: Vec<(String, ActiveToolDisplay)> = Vec::new();
        std::mem::swap(&mut entries, &mut self.entries);
        let ghost before = entries@;
        assert forall|j: int| 0 <= j < before.len() implies (#[trigger] before[j]).0@ != id@ by {
            lemma_entry(before, j);
        }
        entries.push((id, tool));
        proof {
            lemma_with(before, (id, tool));
            assert(entries@ == before.push((id, tool)));
        }
        self.entries = entries;
        assert(self@ =~= old(self)@.insert(id@, tool));
    }
}

/// Whether `tool` under `id` is, of the calls whose heartbeat is due at `now`,
/// one that started no later than any other.
pub open spec fn is_oldest_due(
    active: Map<Seq<char>, ActiveToolDisplay>,
    now: nat,
    id: Seq<char>,
    tool: ActiveToolDisplay,
) -> bool {
    &&& active.contains_key(id)
    &&& active[id] == tool
    &&& tool.due(now)
    &&& forall|other: Seq<char>| #[trigger]
        active.contains_key(other) && active[other].due(now) ==> tool.started_at@
            <= active[other].started_at@
}

/// Whether no heartbeat is due at `now`.
pub open spec fn none_due(active: Map<Seq<char>, ActiveToolDisplay>, now: nat) -> bool {
    forall|id: Seq<char>| #[trigger] active.contains_key(id) ==> !active[id].due(now)
}

/// Pick the oldest call whose heartbeat is due at `now`. Of two that started at
/// once, either may be picked.
pub fn oldest_due_heartbeat_at(active: &ActiveTools, now: Instant) -> (r: Option<
    (&String, &ActiveToolDisplay),
>)
    ensures
        match r {
            Some((id, tool)) => is_oldest_due(active@, now@, id@, *tool),
            None => none_due(active@, now@),
        },
{
    proof {
        use_type_invariant(active);
    }
    let ghost entries = active.entries@;
    let mut best: Option<usize> = None;
    let mut i: usize = 0;
    while i < active.entries.len()
        invariant
            i <= entries.len(),
            entries == active.entries@,
            match best {
                Some(b) => b < i && entries[b as int].1.due(now@) && forall|j: int|
                    0 <= j < i && (#[trigger] entries[j]).1.due(now@)
                        ==> entries[b as int].1.started_at@ <= entries[j].1.started_at@,
                None => forall|j: int| 0 <= j < i ==> !(#[trigger] entries[j]).1.due(now@),
            },
        decreases entries.len() - i,
    {
        let tool = &active.entries[i].1;
        if tool.heartbeat_due_at(now) {
            let earlier: bool = match best {
                Some(b) => tool.started_at.nanos < active.entries[b].1.started_at.nanos,
                None => true,
            };
            if earlier {
                best = Some(i);
            }
        }
        i = i + 1;
    }
    proof {
        assert forall|id: Seq<char>| #[trigger] active@.contains_key(id) implies exists|j: int|
            0 <= j < entries.len() && (#[trigger] entries[j]).0@ == id && active@[id]
                == entries[j].1 by {
            let j = choose|j: int| 0 <= j < entries.len() && (#[trigger] entries[j]).0@ == id;
            lemma_entry(entries, j);
        }
    }
    match best {
        Some(b) => {
            proof {
                lemma_entry(entries, b as int);
            }
            Some((&active.entries[b].0, &active.entries[b].1))
        },
        None => None,
    }
}

/// Pick the oldest call whose heartbeat is due.
pub fn oldest_due_heartbeat<'a>(active: &'a ActiveTools, clock: &mut Clock) -> (r: Option<
    (&'a String, &'a ActiveToolDisplay),
>)
    ensures
        final(clock)@ >= old(clock)@,
        final(clock).reads() == old(clock).reads() + 1,
        match r {
            Some((id, tool)) => is_oldest_due(active@, final(clock)@, id@, *tool),
            None => none_due(active@, final(clock)@),
        },
{
    oldest_due_heartbeat_at(active, clock.now())
}

/// Whether `delay` is the time from `now` until the next heartbeat of any call,
/// or the repeat interval where there is no call.
pub open spec fn is_next_delay(
    active: Map<Seq<char>, ActiveToolDisplay>,
    now: nat,
    delay: nat,
) -> bool {
    &&& forall|id: Seq<char>| #[trigger] active.contains_key(id) ==> delay <= active[id].wait(now)
    &&& delay == every() && (forall|id: Seq<char>| !#[trigger] active.contains_key(id))
        || exists|id: Seq<char>| #[trigger] active.contains_key(id) && delay == active[id].wait(now)
}

/// The time from `now` until the next heartbeat is due.
pub fn next_heartbeat_delay_at(active: &ActiveTools, now: Instant) -> (d: Duration)
    ensures
        is_next_delay(active@, now@, d@),
{
    proof {
        use_type_invariant(active);
    }
    let ghost entries = active.entries@;
    if active.entries.len() == 0 {
        return Duration::from_secs(HEARTBEAT_EVERY_SECS);
    }
    let mut least = active.entries[0].1.wait_at(now);
    let ghost mut at: int = 0;
    let mut i: usize = 1;
    while i < active.entries.len()
        invariant
            1 <= i <= entries.len(),
            entries == active.entries@,
            0 <= at < i,
            least@ == entries[at].1.wait(now@),
            forall|j: int| 0 <= j < i ==> least@ <= (#[trigger] entries[j]).1.wait(now@),
        decreases entries.len() - i,
    {
        let wait = active.entries[i].1.wait_at(now);
        if wait.nanos < least.nanos {
            least = wait;
            proof {
                at = i as int;
            }
        }
        i = i + 1;
    }
    proof {
        lemma_entry(entries, at);
        assert forall|id: Seq<char>| #[trigger] active@.contains_key(id) implies least@
            <= active@[id].wait(now@) by {
            let j = choose|j: int| 0 <= j < entries.len() && (#[trigger] entries[j]).0@ == id;
            lemma_entry(entries, j);
        }
    }
    least
}

/// The time until the next heartbeat is due.
pub fn next_heartbeat_delay(active: &ActiveTools, clock: &mut Clock) -> (d: Duration)
    ensures
        final(clock)@ >= old(clock)@,
        final(clock).reads() == old(clock).reads() + 1,
        is_next_delay(active@, final(clock)@, d@),
{
    next_heartbeat_delay_at(active, clock.now())
}

// ── laws ───────────────────────────────────────────────────────────

/// A new call is not due until the first interval has passed, and then it is.
pub proof fn law_first_heartbeat(tool: ActiveToolDisplay, now: nat)
    requires
        !tool.has_beaten(),
    ensures
        tool.due(now) <==> now >= tool.started_at@ + first_after(),
{
}

/// After a heartbeat at or past the first interval, the next one is due exactly
/// when the repeat interval has passed.
pub proof fn law_repeated_heartbeat(tool: ActiveToolDisplay, now: nat)
    requires
        tool.last_heartbeat_at@ >= tool.started_at@ + first_after(),
    ensures
        tool.due(now) <==> now >= tool.last_heartbeat_at@ + every(),
{
}

/// A heartbeat that is due stays due as time passes.
pub proof fn law_due_stays_due(tool: ActiveToolDisplay, now: nat, later: nat)
    requires
        tool.due(now),
        now <= later,
    ensures
        tool.due(later),
{
}

/// The delay is zero exactly when a heartbeat is due.
pub proof fn law_no_delay_when_due(
    active: Map<Seq<char>, ActiveToolDisplay>,
    now: nat,
    delay: nat,
)
    requires
        is_next_delay(active, now, delay),
    ensures
        delay == 0 <==> !none_due(active, now),
{
    assert forall|id: Seq<char>| #[trigger] active.contains_key(id) implies (active[id].due(now)
        <==> active[id].wait(now) == 0) by {}
}

/// No heartbeat falls due before the delay is over.
pub proof fn law_nothing_due_during_delay(
    active: Map<Seq<char>, ActiveToolDisplay>,
    now: nat,
    delay: nat,
    later: nat,
)
    requires
        is_next_delay(active, now, delay),
        now <= later < now + delay,
    ensures
        none_due(active, later),
{
}

/// When the delay is over a heartbeat is due, where there is a call and every
/// call has its heartbeats where they belong: none after `now`, and none before
/// the first interval is over.
pub proof fn law_due_after_delay(
    active: Map<Seq<char>, ActiveToolDisplay>,
    now: nat,
    delay: nat,
)
    requires
        is_next_delay(active, now, delay),
        exists|id: Seq<char>| active.contains_key(id),
        forall|id: Seq<char>| #[trigger]
            active.contains_key(id) ==> {
                &&& active[id].last_heartbeat_at@ <= now
                &&& active[id].started_at@ <= now
                &&& active[id].has_beaten() ==> active[id].last_heartbeat_at@
                    >= active[id].started_at@ + first_after()
            },
    ensures
        !none_due(active, now + delay),
{
    let id = choose|id: Seq<char>| #[trigger]
        active.contains_key(id) && delay == active[id].wait(now);
    assert(active[id].due(now + delay));
}

/// A call is due from ten seconds after its start on, and where a heartbeat was shown since
/// the start, from thirty seconds after the last one on.
pub proof fn law_due(tool: ActiveToolDisplay, now: nat)
    ensures
        tool.due(now) <==> now >= tool.started_at@ + 10_000_000_000 && (
        tool.last_heartbeat_at@ == tool.started_at@ || now >= tool.last_heartbeat_at@
            + 30_000_000_000),
{
}

/// The age of a call and its start make the present. A call of the future has no age.
pub proof fn law_age(tool: ActiveToolDisplay, now: nat)
    ensures
        tool.started_at@ <= now ==> tool.started_at@ + tool.age(now) == now,
        tool.started_at@ > now ==> tool.age(now) == 0,
{
}

/// A call waits until ten seconds after its start. After that, one that has shown no
/// heartbeat does not wait, and one that has waits until thirty seconds after the last.
pub proof fn law_wait(tool: ActiveToolDisplay, now: nat)
    requires
        tool.started_at@ <= now,
        tool.last_heartbeat_at@ <= now,
    ensures
        ({
            let first = tool.started_at@ + 10_000_000_000;
            let next = tool.last_heartbeat_at@ + 30_000_000_000;
            if now < first {
                now + tool.wait(now) == first
            } else if tool.last_heartbeat_at@ == tool.started_at@ || now >= next {
                tool.wait(now) == 0
            } else {
                now + tool.wait(now) == next
            }
        }),
{
}

/// The call that is picked is one of the calls, its heartbeat is due, and no call whose
/// heartbeat is due started before it.
pub proof fn law_oldest_due(
    active: Map<Seq<char>, ActiveToolDisplay>,
    now: nat,
    id: Seq<char>,
    tool: ActiveToolDisplay,
    other: Seq<char>,
)
    requires
        is_oldest_due(active, now, id, tool),
        active.contains_key(other),
    ensures
        active.contains_key(id) && active[id] == tool,
        tool.due(now),
        active[other].started_at@ < tool.started_at@ ==> !active[other].due(now),
        !none_due(active, now),
{
}

/// Where a call's heartbeat is due, it is not so that none is.
pub proof fn law_none_due(
    active: Map<Seq<char>, ActiveToolDisplay>,
    now: nat,
    id: Seq<char>,
)
    requires
        active.contains_key(id),
        active[id].due(now),
    ensures
        !none_due(active, now),
{
}

/// The delay is no longer than any call waits and no shorter than all of them. Without
/// calls it is thirty seconds. So there is one such delay only.
pub proof fn law_next_delay(
    active: Map<Seq<char>, ActiveToolDisplay>,
    now: nat,
    delay: nat,
    other: nat,
)
    requires
        is_next_delay(active, now, delay),
    ensures
        forall|id: Seq<char>| #[trigger]
            active.contains_key(id) ==> delay <= active[id].wait(now),
        (exists|id: Seq<char>| active.contains_key(id)) ==> exists|id: Seq<char>| #[trigger]
            active.contains_key(id) && delay == active[id].wait(now),
        (forall|id: Seq<char>| !active.contains_key(id)) ==> delay == 30_000_000_000,
        is_next_delay(active, now, other) ==> other == delay,
{
}

} // verus!
