use vstd::prelude::*;
use vstd::string::*;

use crate::codec::{command_line, decode, encoded, json_parsed, Command};
use crate::stream::{delivered, diagnostic_entry, log_entry, malformed_warning, warning_for};

verus! {

/// Where one invocation stands.
#[derive(PartialEq, Eq, Structural, Clone, Copy, Debug)]
pub enum Phase {
    Idle,
    Spawning,
    CommandSent,
    Streaming,
    Drained,
    Failed,
}

/// Why the command could not be handed to the worker.
pub enum SendFailure {
    /// The worker's input channel was not available.
    NoInput,
    /// Writing the line failed; the text describes the cause.
    Write(String),
    /// Flushing the channel failed; the text describes the cause.
    Flush(String),
}

/// What the surrounding runtime reports to the session.
pub enum Input {
    /// The caller asks for the command to be run.
    Invoke,
    /// The worker was started, or could not be (with the cause).
    SpawnFinished(Result<(), String>),
    /// The command line was written and flushed, or was not.
    SendFinished(Result<(), SendFailure>),
    /// A line read from the worker's primary output channel.
    PrimaryLine(String),
    /// A line read from the worker's diagnostic channel.
    DiagnosticLine(String),
    /// The primary output channel reached its end.
    PrimaryClosed,
    /// The diagnostic channel reached its end.
    DiagnosticClosed,
}

/// What the session asks the surrounding runtime to do.
pub enum Action {
    /// Start the worker with piped channels.
    Spawn,
    /// Write this text to the worker's input channel and flush it.
    Send(String),
    /// Answer the caller.
    Reply(Result<(), String>),
    /// Hand this message to the event sink.
    Publish(serde_json::Value),
    /// Record this warning.
    Warn(String),
    /// Record this diagnostic entry.
    Log(String),
    /// Nothing to do.
    Nothing,
}

/// The meaning of an `Action`, over plain text.
pub enum Effect {
    Spawn,
    Send(Seq<char>),
    Reply(Result<(), Seq<char>>),
    Publish(serde_json::Value),
    Warn(Seq<char>),
    Log(Seq<char>),
    Nothing,
}

impl View for Action {
    type V = Effect;

    open spec fn view(&self) -> Effect {
        match self {
            Action::Spawn => Effect::Spawn,
            Action::Send(t) => Effect::Send(t@),
            Action::Reply(Ok(())) => Effect::Reply(Ok(())),
            Action::Reply(Err(e)) => Effect::Reply(Err(e@)),
            Action::Publish(v) => Effect::Publish(*v),
            Action::Warn(t) => Effect::Warn(t@),
            Action::Log(t) => Effect::Log(t@),
            Action::Nothing => Effect::Nothing,
        }
    }
}

/// One invocation of the bridge: the command it sends and how far it got.
pub struct Session {
    pub command: Command,
    pub phase: Phase,
    pub primary_open: bool,
    pub diagnostic_open: bool,
}

/// The error text for a worker that could not be started.
pub open spec fn spawn_error(detail: Seq<char>) -> Seq<char> {
    "Failed to spawn Python: "@ + detail
}

/// The error text for a command that could not be handed over.
pub open spec fn send_error(f: SendFailure) -> Seq<char> {
    match f {
        SendFailure::NoInput => "Failed to get stdin"@,
        SendFailure::Write(d) => "Failed to write to stdin: "@ + d@,
        SendFailure::Flush(d) => "Failed to flush stdin: "@ + d@,
    }
}

/// A session that has not started.
pub open spec fn fresh(s: Session) -> bool {
    s.phase == Phase::Idle && s.primary_open && s.diagnostic_open
}

/// The channel flags agree with the phase: both channels stay open until
/// streaming starts, a streaming session has one still open, and a drained
/// one has both closed.
pub open spec fn well_formed(s: Session) -> bool {
    &&& (s.phase != Phase::Streaming && s.phase != Phase::Drained) ==> s.primary_open && s.diagnostic_open
    &&& s.phase == Phase::Streaming ==> s.primary_open || s.diagnostic_open
    &&& s.phase == Phase::Drained ==> !s.primary_open && !s.diagnostic_open
}

/// The state after `i`.
pub open spec fn next(s: Session, i: Input) -> Session {
    match i {
        Input::Invoke => if s.phase == Phase::Idle {
            Session { phase: Phase::Spawning, ..s }
        } else {
            s
        },
        Input::SpawnFinished(r) => if s.phase == Phase::Spawning {
            Session { phase: if r is Ok { Phase::CommandSent } else { Phase::Failed }, ..s }
        } else {
            s
        },
        Input::SendFinished(r) => if s.phase == Phase::CommandSent {
            Session { phase: if r is Ok { Phase::Streaming } else { Phase::Failed }, ..s }
        } else {
            s
        },
        Input::PrimaryLine(_) => s,
        Input::DiagnosticLine(_) => s,
        Input::PrimaryClosed => if s.phase == Phase::Streaming && s.primary_open {
            Session {
                primary_open: false,
                phase: if s.diagnostic_open { Phase::Streaming } else { Phase::Drained },
                ..s
            }
        } else {
            s
        },
        Input::DiagnosticClosed => if s.phase == Phase::Streaming && s.diagnostic_open {
            Session {
                diagnostic_open: false,
                phase: if s.primary_open { Phase::Streaming } else { Phase::Drained },
                ..s
            }
        } else {
            s
        },
    }
}

/// What the session asks for on `i`.
pub open spec fn effect(s: Session, i: Input) -> Effect {
    match i {
        Input::Invoke => if s.phase == Phase::Idle {
            Effect::Spawn
        } else {
            Effect::Nothing
        },
        Input::SpawnFinished(r) => if s.phase == Phase::Spawning {
            match r {
                Ok(()) => Effect::Send(encoded(s.command).push('\n')),
                Err(d) => Effect::Reply(Err(spawn_error(d@))),
            }
        } else {
            Effect::Nothing
        },
        Input::SendFinished(r) => if s.phase == Phase::CommandSent {
            match r {
                Ok(()) => Effect::Reply(Ok(())),
                Err(f) => Effect::Reply(Err(send_error(f))),
            }
        } else {
            Effect::Nothing
        },
        Input::PrimaryLine(l) => if s.phase == Phase::Streaming && s.primary_open {
            match json_parsed(l@) {
                Some(v) => Effect::Publish(v),
                None => Effect::Warn(malformed_warning(l@)),
            }
        } else {
            Effect::Nothing
        },
        Input::DiagnosticLine(l) => if s.phase == Phase::Streaming && s.diagnostic_open {
            Effect::Log(diagnostic_entry(l@))
        } else {
            Effect::Nothing
        },
        Input::PrimaryClosed => Effect::Nothing,
        Input::DiagnosticClosed => Effect::Nothing,
    }
}

/// Builds the error text for a worker that could not be started.
fn spawn_error_text(detail: &str) -> (r: String)
    ensures
        r@ == spawn_error(detail@),
{
    let mut s = String::from_str("Failed to spawn Python: ");
    s.append(detail);
    proof {
        reveal_strlit("Failed to spawn Python: ");
    }
    assert(s@ =~= spawn_error(detail@));
    s
}

/// Builds the error text for a command that could not be handed over.
fn send_error_text(f: &SendFailure) -> (r: String)
    ensures
        r@ == send_error(*f),
{
    match f {
        SendFailure::NoInput => {
            proof {
                reveal_strlit("Failed to get stdin");
            }
            String::from_str("Failed to get stdin")
        },
        SendFailure::Write(d) => {
            let mut s = String::from_str("Failed to write to stdin: ");
            s.append(d.as_str());
            proof {
                reveal_strlit("Failed to write to stdin: ");
            }
            assert(s@ =~= send_error(*f));
            s
        },
        SendFailure::Flush(d) => {
            let mut s = String::from_str("Failed to flush stdin: ");
            s.append(d.as_str());
            proof {
                reveal_strlit("Failed to flush stdin: ");
            }
            assert(s@ =~= send_error(*f));
            s
        },
    }
}

impl Session {
    /// A session for `command` that has not started.
    pub fn new(command: Command) -> (r: Session)
        ensures
            fresh(r),
            well_formed(r),
            r.command == command,
    {
        Session { command, phase: Phase::Idle, primary_open: true, diagnostic_open: true }
    }

    /// Takes in what the runtime reports and says what to do next.
    pub fn step(&mut self, input: Input) -> (r: Action)
        ensures
            *final(self) == next(*old(self), input),
            r@ == effect(*old(self), input),
    {
        match input {
            Input::Invoke => {
                if self.phase == Phase::Idle {
                    self.phase = Phase::Spawning;
                    Action::Spawn
                } else {
                    Action::Nothing
                }
            },
            Input::SpawnFinished(r) => {
                if self.phase == Phase::Spawning {
                    match r {
                        Ok(()) => {
                            self.phase = Phase::CommandSent;
                            Action::Send(command_line(&self.command))
                        },
                        Err(d) => {
                            self.phase = Phase::Failed;
                            Action::Reply(Err(spawn_error_text(d.as_str())))
                        },
                    }
                } else {
                    Action::Nothing
                }
            },
            Input::SendFinished(r) => {
                if self.phase == Phase::CommandSent {
                    match r {
                        Ok(()) => {
                            self.phase = Phase::Streaming;
                            Action::Reply(Ok(()))
                        },
                        Err(f) => {
                            self.phase = Phase::Failed;
                            Action::Reply(Err(send_error_text(&f)))
                        },
                    }
                } else {
                    Action::Nothing
                }
            },
            Input::PrimaryLine(l) => {
                if self.phase == Phase::Streaming && self.primary_open {
                    match decode(l.as_str()) {
                        Ok(v) => Action::Publish(v),
                        Err(_) => Action::Warn(warning_for(l.as_str())),
                    }
                } else {
                    Action::Nothing
                }
            },
            Input::DiagnosticLine(l) => {
                if self.phase == Phase::Streaming && self.diagnostic_open {
                    Action::Log(log_entry(l.as_str()))
                } else {
                    Action::Nothing
                }
            },
            Input::PrimaryClosed => {
                if self.phase == Phase::Streaming && self.primary_open {
                    self.primary_open = false;
                    if !self.diagnostic_open {
                        self.phase = Phase::Drained;
                    }
                }
                Action::Nothing
            },
            Input::DiagnosticClosed => {
                if self.phase == Phase::Streaming && self.diagnostic_open {
                    self.diagnostic_open = false;
                    if !self.primary_open {
                        self.phase = Phase::Drained;
                    }
                }
                Action::Nothing
            },
        }
    }
}

/// The state after a whole run of inputs.
pub open spec fn run(s: Session, inputs: Seq<Input>) -> Session
    decreases inputs.len(),
{
    if inputs.len() == 0 {
        s
    } else {
        next(run(s, inputs.drop_last()), inputs.last())
    }
}

/// What the session asks for over a whole run of inputs, in order.
pub open spec fn effects(s: Session, inputs: Seq<Input>) -> Seq<Effect>
    decreases inputs.len(),
{
    if inputs.len() == 0 {
        seq![]
    } else {
        let before = inputs.drop_last();
        effects(s, before).push(effect(run(s, before), inputs.last()))
    }
}

/// How many times the command is written.
pub open spec fn send_count(effs: Seq<Effect>) -> nat
    decreases effs.len(),
{
    if effs.len() == 0 {
        0
    } else {
        send_count(effs.drop_last()) + if effs.last() is Send { 1nat } else { 0nat }
    }
}

/// The messages handed to the event sink, in order.
pub open spec fn published(effs: Seq<Effect>) -> Seq<serde_json::Value>
    decreases effs.len(),
{
    if effs.len() == 0 {
        seq![]
    } else {
        let rest = published(effs.drop_last());
        match effs.last() {
            Effect::Publish(v) => rest.push(v),
            _ => rest,
        }
    }
}

/// The lines of the primary channel among the inputs, in order.
pub open spec fn primary_lines(inputs: Seq<Input>) -> Seq<Seq<char>>
    decreases inputs.len(),
{
    if inputs.len() == 0 {
        seq![]
    } else {
        let rest = primary_lines(inputs.drop_last());
        match inputs.last() {
            Input::PrimaryLine(l) => rest.push(l@),
            _ => rest,
        }
    }
}

/// No success reply among the effects.
pub open spec fn no_success_reply(effs: Seq<Effect>) -> bool {
    forall|j: int| 0 <= j < effs.len() ==> effs[j] != Effect::Reply(Ok(()))
}

/// No message handed to the sink among the effects.
pub open spec fn nothing_published(effs: Seq<Effect>) -> bool {
    forall|j: int| 0 <= j < effs.len() ==> !(effs[j] is Publish)
}

/// What holds after any run from a fresh session for `c`.
spec fn run_inv(c: Command, t: Session, effs: Seq<Effect>) -> bool {
    &&& t.command == c
    &&& forall|j: int| 0 <= j < effs.len() && effs[j] is Send ==> effs[j] == Effect::Send(encoded(c).push('\n'))
    &&& (t.phase == Phase::Idle || t.phase == Phase::Spawning) ==> send_count(effs) == 0
    &&& t.phase == Phase::CommandSent ==> send_count(effs) == 1
    &&& (t.phase == Phase::Streaming || t.phase == Phase::Drained) ==> send_count(effs) == 1
    &&& t.phase == Phase::Failed ==> send_count(effs) <= 1
    &&& (t.phase != Phase::Streaming && t.phase != Phase::Drained) ==> no_success_reply(effs)
    &&& (t.phase != Phase::Streaming && t.phase != Phase::Drained) ==> nothing_published(effs)
    &&& forall|j: int| 0 <= j < effs.len() && effs[j] == Effect::Reply(Ok(())) ==> send_count(effs.take(j)) == 1
}

proof fn lemma_run_inv(s: Session, inputs: Seq<Input>)
    requires
        fresh(s),
    ensures
        run_inv(s.command, run(s, inputs), effects(s, inputs)),
    decreases inputs.len(),
{
    if inputs.len() > 0 {
        let before = inputs.drop_last();
        lemma_run_inv(s, before);
        let t = run(s, before);
        let effs = effects(s, before);
        let e = effect(t, inputs.last());
        let all = effs.push(e);
        assert(all.drop_last() =~= effs);
        assert(effects(s, inputs) == all);
        assert forall|j: int| 0 <= j < all.len() && all[j] == Effect::Reply(Ok(())) implies send_count(all.take(j)) == 1 by {
            if j < effs.len() {
                assert(all[j] == effs[j]);
                assert(all.take(j) =~= effs.take(j));
            } else {
                assert(all.take(j) =~= effs);
            }
        }
        assert forall|j: int| 0 <= j < all.len() && all[j] is Send implies all[j] == Effect::Send(encoded(s.command).push('\n')) by {
            if j < effs.len() {
                assert(all[j] == effs[j]);
            }
        }
        assert forall|j: int| 0 <= j < effs.len() implies all[j] == effs[j] by {}
    }
}

/// The command line is written at most once, and it is the command's own
/// encoding; a success reply comes only after it has been written.
pub proof fn lemma_single_dispatch(s: Session, inputs: Seq<Input>)
    requires
        fresh(s),
    ensures
        send_count(effects(s, inputs)) <= 1,
        forall|j: int| 0 <= j < effects(s, inputs).len() && (#[trigger] effects(s, inputs)[j]) is Send
            ==> effects(s, inputs)[j] == Effect::Send(encoded(s.command).push('\n')),
        forall|j: int| 0 <= j < effects(s, inputs).len() && (#[trigger] effects(s, inputs)[j]) == Effect::Reply(Ok(()))
            ==> send_count(effects(s, inputs).take(j)) == 1,
{
    lemma_run_inv(s, inputs);
}

/// Every input keeps a well-formed session well-formed.
pub proof fn lemma_step_keeps_well_formed(s: Session, i: Input)
    requires
        well_formed(s),
    ensures
        well_formed(next(s, i)),
        next(s, i).command == s.command,
{
}

/// Running two runs of inputs one after the other.
proof fn lemma_run_append(s: Session, a: Seq<Input>, b: Seq<Input>)
    ensures
        run(s, a + b) == run(run(s, a), b),
        effects(s, a + b) == effects(s, a) + effects(run(s, a), b),
    decreases b.len(),
{
    if b.len() == 0 {
        assert(a + b =~= a);
        assert(effects(s, a) + effects(run(s, a), b) =~= effects(s, a));
    } else {
        lemma_run_append(s, a, b.drop_last());
        assert((a + b).drop_last() =~= a + b.drop_last());
        assert((a + b).last() == b.last());
        assert(effects(s, a + b) =~= effects(s, a) + effects(run(s, a), b));
    }
}

/// A failed session stays failed and asks for nothing.
proof fn lemma_failed_is_final(t: Session, inputs: Seq<Input>)
    requires
        t.phase == Phase::Failed,
    ensures
        run(t, inputs) == t,
        forall|j: int| 0 <= j < effects(t, inputs).len() ==> #[trigger] effects(t, inputs)[j] == Effect::Nothing,
    decreases inputs.len(),
{
    if inputs.len() > 0 {
        lemma_failed_is_final(t, inputs.drop_last());
        let effs = effects(t, inputs.drop_last());
        assert forall|j: int| 0 <= j < effs.len() + 1 implies #[trigger] effects(t, inputs)[j] == Effect::Nothing by {
            if j < effs.len() {
                assert(effects(t, inputs)[j] == effs[j]);
            }
        }
    }
}

/// When the worker cannot be started, the caller gets the spawn error and no
/// message is ever handed to the sink, whatever is reported afterwards.
pub proof fn lemma_spawn_failure(s: Session, detail: String, rest: Seq<Input>)
    requires
        fresh(s),
    ensures
        effects(s, seq![Input::Invoke, Input::SpawnFinished(Err(detail))] + rest)[1]
            == Effect::Reply(Err(spawn_error(detail@))),
        nothing_published(effects(s, seq![Input::Invoke, Input::SpawnFinished(Err(detail))] + rest)),
{
    let start = seq![Input::Invoke, Input::SpawnFinished(Err(detail))];
    let one = seq![Input::Invoke];
    assert(start.drop_last() =~= one);
    assert(one.drop_last() =~= Seq::<Input>::empty());
    assert(run(s, Seq::<Input>::empty()) == s);
    assert(effects(s, Seq::<Input>::empty()) =~= Seq::<Effect>::empty());
    assert(run(s, one) == next(s, Input::Invoke));
    assert(effects(s, one) =~= seq![Effect::Spawn]);
    let t = run(s, start);
    assert(t == next(run(s, one), Input::SpawnFinished(Err(detail))));
    assert(t.phase == Phase::Failed);
    lemma_run_append(s, start, rest);
    lemma_failed_is_final(t, rest);
    let all = effects(s, start + rest);
    assert(all == effects(s, start) + effects(t, rest));
    assert(effects(s, start) =~= seq![Effect::Spawn, Effect::Reply(Err(spawn_error(detail@)))]);
    assert forall|j: int| 0 <= j < all.len() implies !(all[j] is Publish) by {
        if j >= 2 {
            assert(all[j] == effects(t, rest)[j - 2]);
        }
    }
}

/// The caller gets its success reply as soon as the command is written,
/// while both output channels are still open: the reply does not wait for
/// them to be drained.
pub proof fn lemma_reply_before_drain(s: Session)
    requires
        fresh(s),
    ensures
        effects(s, seq![Input::Invoke, Input::SpawnFinished(Ok(())), Input::SendFinished(Ok(()))])
            =~= seq![Effect::Spawn, Effect::Send(encoded(s.command).push('\n')), Effect::Reply(Ok(()))],
        run(s, seq![Input::Invoke, Input::SpawnFinished(Ok(())), Input::SendFinished(Ok(()))]).phase == Phase::Streaming,
        run(s, seq![Input::Invoke, Input::SpawnFinished(Ok(())), Input::SendFinished(Ok(()))]).primary_open,
        run(s, seq![Input::Invoke, Input::SpawnFinished(Ok(())), Input::SendFinished(Ok(()))]).diagnostic_open,
{
    let i3 = seq![Input::Invoke, Input::SpawnFinished(Ok(())), Input::SendFinished(Ok(()))];
    let i2 = seq![Input::Invoke, Input::SpawnFinished(Ok(()))];
    let i1 = seq![Input::Invoke];
    assert(i3.drop_last() =~= i2);
    assert(i2.drop_last() =~= i1);
    assert(i1.drop_last() =~= Seq::<Input>::empty());
    assert(run(s, Seq::<Input>::empty()) == s);
    assert(effects(s, Seq::<Input>::empty()) =~= Seq::<Effect>::empty());
    assert(run(s, i1) == next(s, Input::Invoke));
    assert(effects(s, i1) =~= seq![Effect::Spawn]);
    assert(run(s, i2) == next(run(s, i1), Input::SpawnFinished(Ok(()))));
    assert(effects(s, i2) =~= seq![Effect::Spawn, Effect::Send(encoded(s.command).push('\n'))]);
    assert(run(s, i3) == next(run(s, i2), Input::SendFinished(Ok(()))));
}

/// A diagnostic line never reaches the sink and leaves the session as it was.
pub proof fn lemma_diagnostic_never_published(s: Session, line: String)
    ensures
        !(effect(s, Input::DiagnosticLine(line)) is Publish),
        next(s, Input::DiagnosticLine(line)) == s,
{
}

/// While streaming, the sink receives exactly the messages delivered for the
/// primary-channel lines, in their order, however diagnostic lines and the
/// diagnostic channel's end are interleaved with them.
pub proof fn lemma_streaming_delivery(s: Session, inputs: Seq<Input>)
    requires
        s.phase == Phase::Streaming,
        s.primary_open,
        forall|k: int| 0 <= k < inputs.len() ==> !(#[trigger] inputs[k] is PrimaryClosed),
    ensures
        published(effects(s, inputs)) == delivered(primary_lines(inputs)),
        run(s, inputs).phase == Phase::Streaming,
        run(s, inputs).primary_open,
    decreases inputs.len(),
{
    if inputs.len() > 0 {
        let before = inputs.drop_last();
        assert forall|k: int| 0 <= k < before.len() implies !(#[trigger] before[k] is PrimaryClosed) by {
            assert(before[k] == inputs[k]);
        }
        lemma_streaming_delivery(s, before);
        let effs = effects(s, before);
        let e = effect(run(s, before), inputs.last());
        assert(effects(s, inputs).drop_last() =~= effs);
        assert(!(inputs[inputs.len() - 1] is PrimaryClosed));
        match inputs.last() {
            Input::PrimaryLine(l) => {
                assert(primary_lines(inputs).drop_last() =~= primary_lines(before));
            },
            _ => {},
        }
    }
}

} // verus!
