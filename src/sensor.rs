use vstd::prelude::*;

verus! {

/// Whether a sensor loop has an outbound connection.
#[derive(Clone, Copy, Debug, PartialEq, Eq, Structural)]
pub enum SinkMode {
    /// Frames are written to the connection.
    Connected,
    /// The connection could not be made at startup: frames are produced and
    /// dropped.
    Discard,
}

/// What one acquisition cycle of a sensor produced.
pub enum Acquired {
    /// A reading that encoded to these wire bytes.
    Frame(Vec<u8>),
    /// A reading that the encoder could not turn into a frame.
    NoFrame,
    /// The source timed out; nothing was read.
    Timeout,
    /// The source failed for good.
    Failed,
}

/// What the loop does after a cycle.
#[derive(Debug)]
pub enum Action {
    /// Write these bytes to the connection as one unit and flush.
    Send(Vec<u8>),
    /// Drop the frame (no connection) and acquire again.
    Drop,
    /// Nothing to send: acquire again.
    Skip,
    /// Acquire again at once after a timeout.
    Retry,
    /// End the loop and report the acquisition failure.
    Stop,
}

/// The acquire, encode and send cycle of one sensor, as decisions over what
/// each cycle produced. A write error changes nothing: the loop goes on and
/// tries the next frame; there is no reconnection.
pub struct SensorLoop {
    pub mode: SinkMode,
    pub stopped: bool,
}

/// The action taken on `input` by a loop in `mode`, stopped or not.
pub open spec fn cycle_action(mode: SinkMode, stopped: bool, input: Acquired) -> Action {
    if stopped {
        Action::Stop
    } else {
        match input {
            Acquired::Frame(b) => if mode == SinkMode::Connected {
                Action::Send(b)
            } else {
                Action::Drop
            },
            Acquired::NoFrame => Action::Skip,
            Acquired::Timeout => Action::Retry,
            Acquired::Failed => Action::Stop,
        }
    }
}

impl SensorLoop {
    /// A loop that is about to acquire, in discard mode when the connection
    /// could not be made.
    pub fn start(connected: bool) -> (r: SensorLoop)
        ensures
            r.mode == (if connected {
                SinkMode::Connected
            } else {
                SinkMode::Discard
            }),
            !r.stopped,
    {
        SensorLoop {
            mode: if connected {
                SinkMode::Connected
            } else {
                SinkMode::Discard
            },
            stopped: false,
        }
    }

    /// Decides what to do with the outcome of one cycle. The mode never
    /// changes; the loop stops on an acquisition failure and stays stopped.
    pub fn cycle(&mut self, input: Acquired) -> (a: Action)
        ensures
            a == cycle_action(old(self).mode, old(self).stopped, input),
            final(self).mode == old(self).mode,
            final(self).stopped == (old(self).stopped || input is Failed),
    {
        if self.stopped {
            return Action::Stop;
        }
        match input {
            Acquired::Frame(b) => match self.mode {
                SinkMode::Connected => Action::Send(b),
                SinkMode::Discard => Action::Drop,
            },
            Acquired::NoFrame => Action::Skip,
            Acquired::Timeout => Action::Retry,
            Acquired::Failed => {
                self.stopped = true;
                Action::Stop
            },
        }
    }
}

/// Whether the loop goes on to acquire again after `a`.
pub open spec fn continues(a: Action) -> bool {
    !(a is Stop)
}

/// The actions of a loop that starts in `mode`, stopped or not, and meets the
/// outcomes `inputs` one cycle after another.
pub open spec fn run_actions(mode: SinkMode, stopped: bool, inputs: Seq<Acquired>) -> Seq<Action>
    decreases inputs.len(),
{
    if inputs.len() == 0 {
        seq![]
    } else {
        let first = cycle_action(mode, stopped, inputs[0]);
        seq![first] + run_actions(mode, stopped || inputs[0] is Failed, inputs.drop_first())
    }
}

/// A loop that could not connect never writes: over any run of cycles no
/// action is a send, and every cycle before an acquisition failure goes on to
/// acquire again.
pub proof fn lemma_discard_never_sends(stopped: bool, inputs: Seq<Acquired>)
    ensures
        run_actions(SinkMode::Discard, stopped, inputs).len() == inputs.len(),
        forall|i: int|
            0 <= i < inputs.len() ==> !(#[trigger] run_actions(
                SinkMode::Discard,
                stopped,
                inputs,
            )[i] is Send),
        forall|i: int|
            0 <= i < inputs.len() && !stopped && (forall|j: int| 0 <= j <= i ==> !(#[trigger] inputs[j] is Failed))
                ==> continues(#[trigger] run_actions(SinkMode::Discard, stopped, inputs)[i]),
    decreases inputs.len(),
{
    if inputs.len() > 0 {
        let rest = inputs.drop_first();
        let st = stopped || inputs[0] is Failed;
        lemma_discard_never_sends(st, rest);
        let r = run_actions(SinkMode::Discard, stopped, inputs);
        assert forall|i: int| 0 <= i < inputs.len() implies !(#[trigger] r[i] is Send) by {
            if i > 0 {
                assert(r[i] == run_actions(SinkMode::Discard, st, rest)[i - 1]);
            }
        }
        assert forall|i: int|
            0 <= i < inputs.len() && !stopped && (forall|j: int|
                0 <= j <= i ==> !(#[trigger] inputs[j] is Failed)) implies continues(
            #[trigger] r[i],
        ) by {
            if i > 0 {
                assert(!(inputs[0] is Failed));
                assert forall|j: int| 0 <= j <= i - 1 implies !(#[trigger] rest[j] is Failed) by {
                    assert(rest[j] == inputs[j + 1]);
                }
                assert(r[i] == run_actions(SinkMode::Discard, st, rest)[i - 1]);
            }
        }
    }
}

} // verus!
