//! The publishing loop and the consuming loop as state machines: the
//! broker client performs each send and receive, and these functions
//! decide what happens next.
use vstd::prelude::*;

verus! {

/// Whether the event numbered `sent` is still published: while fewer than
/// the limit were sent, and always when there is no limit. Every broker
/// publishes the same way.
pub open spec fn keeps_publishing(event_count: Option<usize>, sent: nat) -> bool {
    event_count is None || sent < event_count->0
}

/// How many events a run publishes in all: the limit; `None` is for ever.
pub open spec fn total_events(event_count: Option<usize>) -> Option<nat> {
    match event_count {
        Some(n) => Some(n as nat),
        None => None,
    }
}

/// What the publishing loop does next.
#[derive(Clone, Copy, Debug, PartialEq, Eq, Structural)]
pub enum PublishStep {
    /// Publish the event numbered `index` (its key or subject is built
    /// from that number).
    Send { index: usize },
    /// Leave the loop.
    Stop,
}

/// The state of a publishing loop: its limit, and how many events were
/// handed out so far.
#[derive(Clone, Copy, Debug, PartialEq, Eq, Structural)]
pub struct Publisher {
    pub event_count: Option<usize>,
    pub sent: usize,
}

impl Publisher {
    pub open spec fn continues(self) -> bool {
        keeps_publishing(self.event_count, self.sent as nat)
    }

    pub open spec fn next_action(self) -> PublishStep {
        if self.continues() {
            PublishStep::Send { index: self.sent }
        } else {
            PublishStep::Stop
        }
    }

    pub open spec fn next_state(self) -> Publisher {
        if self.continues() {
            Publisher { event_count: self.event_count, sent: (self.sent + 1) as usize }
        } else {
            self
        }
    }

    /// A loop that has published nothing yet.
    pub fn new(event_count: Option<usize>) -> (fresh: Publisher)
        ensures
            fresh.event_count == event_count,
            fresh.sent == 0,
    {
        Publisher { event_count, sent: 0 }
    }

    /// Whether the next iteration publishes.
    pub fn will_publish(&self) -> (go: bool)
        ensures
            go == self.continues(),
    {
        match self.event_count {
            None => true,
            Some(n) => self.sent < n,
        }
    }

    /// Decides the next iteration of the loop: the event to publish, and
    /// one more counted as sent; or to stop, with nothing changed. Counting
    /// past `usize::MAX` overflows, so a loop that would publish with
    /// `usize::MAX` already sent is left out.
    pub fn step(&mut self) -> (action: PublishStep)
        requires
            old(self).sent < usize::MAX || !old(self).continues(),
        ensures
            action == old(self).next_action(),
            *final(self) == old(self).next_state(),
    {
        let go = self.will_publish();
        if go {
            let index = self.sent;
            self.sent = self.sent + 1;
            PublishStep::Send { index }
        } else {
            PublishStep::Stop
        }
    }
}

/// The actions of `k` iterations of the loop from `p`.
pub open spec fn run_actions(p: Publisher, k: nat) -> Seq<PublishStep>
    decreases k,
{
    if k == 0 {
        seq![]
    } else {
        seq![p.next_action()] + run_actions(p.next_state(), (k - 1) as nat)
    }
}

/// What the event numbered `i` gets in a run from the start: published,
/// or the loop has stopped.
pub open spec fn expected_action(event_count: Option<usize>, i: nat) -> PublishStep {
    if keeps_publishing(event_count, i) {
        PublishStep::Send { index: i as usize }
    } else {
        PublishStep::Stop
    }
}

/// Whether the event numbered `i` is published is exactly whether `i` is
/// below the run's total; so no event is published after the loop decided
/// to stop.
pub proof fn law_publishes_below_total(event_count: Option<usize>, i: nat)
    ensures
        keeps_publishing(event_count, i) <==> (match total_events(event_count) {
            Some(total) => i < total,
            None => true,
        }),
        !keeps_publishing(event_count, i) ==> forall|j: nat|
            j >= i ==> !#[trigger] keeps_publishing(event_count, j),
{
}

proof fn lemma_run_from(p: Publisher, k: nat)
    requires
        p.sent + k <= usize::MAX,
    ensures
        run_actions(p, k).len() == k,
        forall|i: int|
            0 <= i < k ==> #[trigger] run_actions(p, k)[i] == expected_action(
                p.event_count,
                (p.sent + i) as nat,
            ),
    decreases k,
{
    if k > 0 {
        let q = p.next_state();
        lemma_run_from(q, (k - 1) as nat);
        let tail = run_actions(q, (k - 1) as nat);
        assert forall|i: int| 0 <= i < k implies #[trigger] run_actions(p, k)[i] == expected_action(
            p.event_count,
            (p.sent + i) as nat,
        ) by {
            if i > 0 {
                assert(run_actions(p, k)[i] == tail[i - 1]);
                if !p.continues() {
                    law_publishes_below_total(p.event_count, p.sent as nat);
                    assert(!keeps_publishing(p.event_count, (p.sent + i) as nat));
                    assert(!keeps_publishing(p.event_count, (q.sent + i - 1) as nat));
                }
            }
        }
    }
}

/// A run from a fresh loop publishes the events numbered 0, 1, 2, ... in
/// turn while they are below its total, and stops for good after that:
/// iteration `i` of the first `k` sends event `i` or stops.
pub proof fn law_run_from_start(event_count: Option<usize>, k: nat)
    requires
        k <= usize::MAX,
    ensures
        ({
            let fresh = Publisher { event_count, sent: 0 };
            &&& run_actions(fresh, k).len() == k
            &&& forall|i: int|
                0 <= i < k ==> #[trigger] run_actions(fresh, k)[i] == expected_action(
                    event_count,
                    i as nat,
                )
        }),
{
    let fresh = Publisher { event_count, sent: 0 };
    lemma_run_from(fresh, k);
}

/// With a limit of `n`, a fresh loop publishes the events numbered
/// `0 .. n` in order and stops at every iteration after them; without a
/// limit it publishes event `i` at iteration `i`.
pub proof fn law_sends_exactly_the_limit(event_count: Option<usize>, k: nat, i: int)
    requires
        k <= usize::MAX,
        0 <= i < k,
    ensures
        ({
            let actions = run_actions(Publisher { event_count, sent: 0 }, k);
            &&& event_count matches Some(n) ==> actions[i] == (if i < n {
                PublishStep::Send { index: i as usize }
            } else {
                PublishStep::Stop
            })
            &&& event_count is None ==> actions[i] == PublishStep::Send { index: i as usize }
        }),
{
    law_run_from_start(event_count, k);
}

/// Stopping is final: a loop that stops stays as it is and stops again.
pub proof fn law_stop_is_final(p: Publisher)
    requires
        p.next_action() == PublishStep::Stop,
    ensures
        p.next_state() == p,
        p.next_state().next_action() == PublishStep::Stop,
{
}

// ---------------------------------------------------------------------------
// Progress and consumption

/// Progress is reported at every thousandth message.
pub open spec fn progress_due_spec(count: nat) -> bool {
    count % 1000 == 0
}

/// A report is due exactly at the multiples of 1000: at 0, 1000, 2000, ...
/// and at no count in between.
pub proof fn law_progress_at_thousands(count: nat)
    ensures
        progress_due_spec(count) <==> exists|k: nat| count == #[trigger] (1000 * k),
        progress_due_spec(count) ==> !progress_due_spec(count + 500) && progress_due_spec(count + 1000),
{
    if count % 1000 == 0 {
        assert(count == 1000 * (count / 1000));
    }
    assert((count + 500) % 1000 != 0 || count % 1000 != 0);
    assert(count % 1000 == 0 ==> (count + 1000) % 1000 == 0);
}

/// Whether to report progress once `count` messages were handled.
pub fn progress_due(count: usize) -> (due: bool)
    ensures
        due == progress_due_spec(count as nat),
        due == (count % 1000 == 0),
{
    proof {
        law_progress_at_thousands(count as nat);
    }
    count % 1000 == 0
}

/// The only payload text the Pulsar consumer accepts.
pub open spec fn expected_payload() -> Seq<char> {
    "data"@
}

/// What the Pulsar consumer does with one received payload text.
#[derive(Clone, Copy, Debug, PartialEq, Eq, Structural)]
pub enum Receipt {
    /// The payload is the expected one: `received` messages so far, and
    /// whether to report progress now.
    Accepted { received: usize, report: bool },
    /// Any other payload, which stops the consumer.
    Unexpected,
}

/// Handles one payload text after `received` accepted ones. Counting past
/// `usize::MAX` overflows, so `received` stays below it.
pub fn receive(received: usize, data: &str) -> (receipt: Receipt)
    requires
        received < usize::MAX,
    ensures
        data@ != expected_payload() ==> receipt == Receipt::Unexpected,
        data@ == expected_payload() ==> receipt == (Receipt::Accepted {
            received: (received + 1) as usize,
            report: progress_due_spec((received + 1) as nat),
        }),
        receipt matches Receipt::Accepted { received: r, report } ==> r == received + 1 && report == (
        r % 1000 == 0),
{
    let text = data.to_owned();
    let expected = "data".to_owned();
    if text != expected {
        Receipt::Unexpected
    } else {
        let count = received + 1;
        Receipt::Accepted { received: count, report: progress_due(count) }
    }
}

} // verus!
