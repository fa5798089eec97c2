use vstd::prelude::*;

use crate::builder::{BuilderView, CommandBuilder};
use crate::error::Error;
use crate::overrides::opt_bytes;

verus! {

/// An exit status that stops the whole run at once.
pub const HARD_STOP_CODE: i32 = 255;

/// How a started command ended.
#[derive(Clone, Copy, Debug, PartialEq, Eq, Structural)]
pub enum Outcome {
    /// It exited with this status.
    Exited(i32),
    /// A signal ended it.
    Signaled,
}

/// What the caller of a `Batcher` is to do next.
#[derive(Clone, Copy, Debug, PartialEq, Eq, Structural)]
pub enum Action {
    /// Hand over the next token, or `None` at the end of the input.
    ReadToken,
    /// Start the current command, wait for it, and hand over how it ended.
    Run,
    /// Stop with this exit status.
    Finish(i32),
    /// Stop: a token can never be placed in a command.
    Abort(Error),
}

/// Which event a `Batcher` waits for.
#[derive(Clone, Copy, Debug, PartialEq, Eq, Structural)]
pub enum Phase {
    /// A token, or the end of the input.
    Reading,
    /// The end of the command it asked to run.
    Running,
    /// Nothing: the run is over.
    Stopped,
}

/// What a `Batcher` holds, as plain values.
pub ghost struct BatcherView {
    /// The command that each batch starts from.
    pub base: BuilderView,
    /// The batch being filled.
    pub current: BuilderView,
    /// A token that did not fit and waits for the next batch.
    pub held: Option<Seq<u8>>,
    /// The status that the run will end with.
    pub rc: i32,
    pub phase: Phase,
}

/// The status recorded after a command exited with `code`: the highest
/// non-zero status seen.
pub open spec fn recorded(rc: i32, code: i32) -> i32 {
    if code != 0 && (rc == 0 || code > rc) {
        code
    } else {
        rc
    }
}

impl BatcherView {
    /// The run before any input.
    pub open spec fn initial(base: BuilderView) -> BatcherView {
        BatcherView { base, current: base, held: None, rc: 0, phase: Phase::Reading }
    }

    /// The current batch holds a token beyond the base command.
    pub open spec fn pending(self) -> bool {
        self.current.argv.len() > self.base.argv.len()
    }

    /// The run after it stopped.
    pub open spec fn stopped(self) -> BatcherView {
        BatcherView { phase: Phase::Stopped, ..self }
    }

    /// Places token `t` in the current batch. An empty token is skipped. A
    /// token too large for any batch aborts the run. One that does not fit
    /// waits while the batch runs, unless the batch holds no token yet: then it
    /// can never fit, and the run aborts.
    pub open spec fn accept(self, t: Seq<u8>) -> (BatcherView, Action) {
        if t.len() == 0 {
            (self, Action::ReadToken)
        } else {
            match self.current.add_arg(t) {
                Ok(c) => (BatcherView { current: c, ..self }, Action::ReadToken),
                Err(Error::TooLarge) => (self.stopped(), Action::Abort(Error::TooLarge)),
                Err(e) => if self.pending() {
                    (BatcherView { held: Some(t), phase: Phase::Running, ..self }, Action::Run)
                } else {
                    (self.stopped(), Action::Abort(e))
                },
            }
        }
    }

    /// The next token arrives, or the end of the input (`None`): at the end a
    /// batch that holds tokens runs, else the run finishes with its status.
    pub open spec fn on_token(self, token: Option<Seq<u8>>) -> (BatcherView, Action) {
        match token {
            None => if self.pending() {
                (BatcherView { phase: Phase::Running, ..self }, Action::Run)
            } else {
                (self.stopped(), Action::Finish(self.rc))
            },
            Some(t) => self.accept(t),
        }
    }

    /// The command of the current batch ended. After a signal the run finishes
    /// with the status recorded so far; after the hard-stop status it finishes
    /// with that status; otherwise the status is recorded and a fresh batch
    /// starts with the token that waited, if any.
    pub open spec fn on_exit(self, outcome: Outcome) -> (BatcherView, Action) {
        match outcome {
            Outcome::Signaled => (self.stopped(), Action::Finish(self.rc)),
            Outcome::Exited(code) => if code == HARD_STOP_CODE {
                (self.stopped(), Action::Finish(code))
            } else {
                let fresh = BatcherView {
                    current: self.base,
                    held: None,
                    rc: recorded(self.rc, code),
                    phase: Phase::Reading,
                    ..self
                };
                match self.held {
                    Some(t) => fresh.accept(t),
                    None => (fresh, Action::ReadToken),
                }
            },
        }
    }
}

/// Packs a stream of tokens into as few commands as the limits allow, and
/// decides from each command's end how the run goes on. The caller reads the
/// tokens and runs the commands, as each returned `Action` says.
pub struct Batcher {
    base: CommandBuilder,
    current: CommandBuilder,
    held: Option<Vec<u8>>,
    rc: i32,
    phase: Phase,
}

impl View for Batcher {
    type V = BatcherView;

    closed spec fn view(&self) -> BatcherView {
        BatcherView {
            base: self.base@,
            current: self.current@,
            held: opt_bytes(self.held),
            rc: self.rc,
            phase: self.phase,
        }
    }
}

impl Batcher {
    /// The batcher is consistent.
    pub closed spec fn wf(&self) -> bool {
        self.base.wf() && self.current.wf()
    }

    /// A run whose batches each start from `base`.
    pub fn new(base: CommandBuilder) -> (r: Batcher)
        requires
            base.wf(),
        ensures
            r.wf(),
            r@ == BatcherView::initial(base@),
    {
        let current = base.snapshot();
        Batcher { base, current, held: None, rc: 0, phase: Phase::Reading }
    }

    /// The batch being filled, which `Action::Run` asks to start.
    pub fn command(&self) -> (r: &CommandBuilder)
        requires
            self.wf(),
        ensures
            r.wf(),
            r@ == self@.current,
    {
        &self.current
    }

    /// Which event the batcher waits for.
    pub fn phase(&self) -> (r: Phase)
        ensures
            r == self@.phase,
    {
        self.phase
    }

    fn accept(&mut self, t: Vec<u8>) -> (r: Action)
        requires
            old(self).wf(),
        ensures
            final(self).wf(),
            (final(self)@, r) == old(self)@.accept(t@),
    {
        if t.len() == 0 {
            return Action::ReadToken;
        }
        let pending = self.current.argc() > self.base.argc();
        match self.current.arg(t.as_slice()) {
            Ok(()) => Action::ReadToken,
            Err(Error::TooLarge) => {
                self.phase = Phase::Stopped;
                Action::Abort(Error::TooLarge)
            },
            Err(e) => {
                if pending {
                    self.held = Some(t);
                    self.phase = Phase::Running;
                    Action::Run
                } else {
                    self.phase = Phase::Stopped;
                    Action::Abort(e)
                }
            },
        }
    }

    /// Hands over the next token, or `None` at the end of the input.
    pub fn on_token(&mut self, token: Option<Vec<u8>>) -> (r: Action)
        requires
            old(self).wf(),
            old(self)@.phase == Phase::Reading,
        ensures
            final(self).wf(),
            (final(self)@, r) == old(self)@.on_token(opt_bytes(token)),
    {
        match token {
            None => {
                if self.current.argc() > self.base.argc() {
                    self.phase = Phase::Running;
                    Action::Run
                } else {
                    self.phase = Phase::Stopped;
                    Action::Finish(self.rc)
                }
            },
            Some(t) => self.accept(t),
        }
    }

    /// Hands over how the command of the current batch ended.
    pub fn on_exit(&mut self, outcome: Outcome) -> (r: Action)
        requires
            old(self).wf(),
            old(self)@.phase == Phase::Running,
        ensures
            final(self).wf(),
            (final(self)@, r) == old(self)@.on_exit(outcome),
    {
        match outcome {
            Outcome::Signaled => {
                self.phase = Phase::Stopped;
                Action::Finish(self.rc)
            },
            Outcome::Exited(code) => {
                if code == HARD_STOP_CODE {
                    self.phase = Phase::Stopped;
                    return Action::Finish(code);
                }
                if code != 0 && (self.rc == 0 || code > self.rc) {
                    self.rc = code;
                }
                self.current = self.base.snapshot();
                self.phase = Phase::Reading;
                let mut held: Option<Vec<u8>> = None;
                std::mem::swap(&mut held, &mut self.held);
                match held {
                    Some(t) => self.accept(t),
                    None => Action::ReadToken,
                }
            },
        }
    }
}

} // verus!
