use vstd::prelude::*;

verus! {

// ---------------------------------------------------------------------------
// The event fan-out: one producer appends serialized notification
// lines, every authenticated connection reads through its own cursor.
// The bus keeps a bounded window; a consumer that falls behind has its
// unread lines dropped as a block and resumes from the oldest retained
// one. The producer never waits.
// ---------------------------------------------------------------------------

/// The broadcast bus: the retained window of the notification history.
pub struct EventBus {
    /// How many lines were dropped off the front of the history.
    pub base: usize,
    /// The retained lines, oldest first.
    pub window: Vec<String>,
    /// How many lines the bus retains at most.
    pub cap: usize,
}

/// A consumer's position: the index into the whole history of the next
/// line it has not seen.
pub struct Subscription {
    pub cursor: usize,
}

impl EventBus {
    /// How many lines were ever emitted.
    pub open spec fn total(&self) -> int {
        self.base + self.window@.len()
    }

    /// The line emitted at position `j`, while it is retained.
    pub open spec fn event_at(&self, j: int) -> Seq<char> {
        self.window@[j - self.base]@
    }

    /// Well-formedness: a positive bound, a window within it that only
    /// shrinks below it while nothing was dropped yet, and a count that
    /// fits the machine.
    pub open spec fn wf(&self) -> bool {
        &&& self.cap > 0
        &&& self.window@.len() <= self.cap
        &&& self.base + self.window@.len() <= usize::MAX
        &&& (self.base > 0 ==> self.window@.len() == self.cap)
    }

    /// An empty bus retaining at most `cap` lines.
    pub fn new(cap: usize) -> (r: EventBus)
        requires
            cap > 0,
        ensures
            r.wf(),
            r.cap == cap,
            r.total() == 0,
    {
        EventBus { base: 0, window: Vec::new(), cap }
    }

    /// Appends one line, dropping the oldest retained one when the
    /// window is full. The producer never waits for consumers. Once the
    /// emission count has saturated the machine's range — unreachable in
    /// any real run — further lines are dropped instead.
    pub fn emit(&mut self, line: String)
        requires
            old(self).wf(),
        ensures
            final(self).wf(),
            final(self).cap == old(self).cap,
            old(self).total() == usize::MAX ==> *final(self) == *old(self),
            old(self).total() < usize::MAX ==> {
                &&& final(self).total() == old(self).total() + 1
                &&& final(self).event_at(old(self).total()) == line@
                &&& forall|j: int|
                    final(self).base <= j < old(self).total() ==> final(self).event_at(j) == old(
                        self,
                    ).event_at(j)
                &&& final(self).base == old(self).base || final(self).base == old(self).base + 1
            },
    {
        if self.base + self.window.len() == usize::MAX {
            return ;
        }
        let ghost before = self.window@;
        self.window.push(line);
        if self.window.len() > self.cap {
            self.window.remove(0);
            proof {
                assert(self.window@ =~= before.push(line).subrange(
                    1,
                    before.push(line).len() as int,
                )) by {
                    assert(before.push(line).remove(0) == before.push(line).subrange(0, 0)
                        + before.push(line).subrange(1, before.push(line).len() as int));
                }
            }
            self.base += 1;
        }
    }

    /// Opens a cursor at the current end of the history: lines emitted
    /// earlier are invisible to it.
    pub fn subscribe(&self) -> (s: Subscription)
        requires
            self.wf(),
        ensures
            s.cursor == self.total(),
    {
        Subscription { cursor: self.base + self.window.len() }
    }

    /// Where a consumer at cursor `c` reads next: its own position, or
    /// the oldest retained line once it has fallen more than a window
    /// behind.
    pub open spec fn poll_start(&self, c: int) -> int {
        if self.total() - c > self.cap {
            self.total() - self.cap
        } else {
            c
        }
    }

    /// Hands the consumer its next line, skipping what was dropped while
    /// it lagged; nothing when it has seen everything. The yielded line
    /// sits at or past the cursor — never before it — and the cursor
    /// only moves forward.
    pub fn poll(&self, sub: &mut Subscription) -> (r: Option<String>)
        requires
            self.wf(),
            old(sub).cursor <= self.total(),
        ensures
            r is None <==> old(sub).cursor == self.total(),
            r is None ==> final(sub).cursor == old(sub).cursor,
            r matches Some(line) ==> {
                let j = self.poll_start(old(sub).cursor as int);
                &&& old(sub).cursor <= j < self.total()
                &&& line@ == self.event_at(j)
                &&& final(sub).cursor == j + 1
            },
            final(sub).cursor >= old(sub).cursor,
    {
        let total = self.base + self.window.len();
        if sub.cursor >= total {
            return Option::None;
        }
        let start = if total - sub.cursor > self.cap {
            total - self.cap
        } else {
            sub.cursor
        };
        let line = self.window[start - self.base].clone();
        sub.cursor = start + 1;
        Option::Some(line)
    }
}

/// Frames a session-originated event as a notification: no id, the
/// method naming the event's kind, the payload carried through
/// untouched.
pub fn build_event_notification(terminal: bool, payload: crate::json::Json) -> (r:
    crate::json::Json)
    ensures
        r matches crate::json::Json::Obj(f) && {
            &&& f@.len() == 2
            &&& f@[0].0@ == "method"@
            &&& crate::codec::json_is_str(
                f@[0].1,
                if terminal {
                    "terminal-output"@
                } else {
                    "app-server-event"@
                },
            )
            &&& f@[1].0@ == "params"@
            &&& f@[1].1 == payload
        },
{
    let mut f: Vec<(String, crate::json::Json)> = Vec::new();
    let name = if terminal {
        String::from_str("terminal-output")
    } else {
        String::from_str("app-server-event")
    };
    f.push((String::from_str("method"), crate::json::Json::Str(name)));
    f.push((String::from_str("params"), payload));
    crate::json::Json::Obj(f)
}

/// Event isolation: a consumer whose cursor was opened only after an
/// event was emitted never reads it. Its next read sits past the event,
/// and `poll` only ever moves the cursor forward; one whose cursor was
/// opened before the event, and which stays within a window of the
/// producer, reads exactly its own position next, so the event reaches
/// it in order.
pub proof fn lemma_event_isolation(bus: &EventBus, c: int, e: int)
    requires
        bus.wf(),
        0 <= e < c <= bus.total(),
    ensures
        bus.poll_start(c) > e,
        bus.total() - c <= bus.cap ==> bus.poll_start(c) == c,
{
}

} // verus!
