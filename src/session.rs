use crate::lifecycle::{error_for, error_of, ops_view, plan, plan_of, Command, Operation, OperationSpec, VaultError};
use vstd::prelude::*;

verus! {

/// What a transition asks of its driver next.
#[derive(Debug)]
pub enum Step {
    /// Perform this operation and report whether it succeeded.
    Run(Operation),
    /// Every operation succeeded.
    Finished,
    /// The transition stopped at its first failed operation.
    Failed(VaultError),
}

/// The mathematical value of a [`Step`].
pub enum StepSpec {
    Run(OperationSpec),
    Finished,
    Failed(VaultError),
}

impl View for Step {
    type V = StepSpec;

    open spec fn view(&self) -> StepSpec {
        match self {
            Step::Run(op) => StepSpec::Run(op@),
            Step::Finished => StepSpec::Finished,
            Step::Failed(e) => StepSpec::Failed(*e),
        }
    }
}

/// The mathematical state of a [`Session`].
pub struct SessionState {
    pub ops: Seq<OperationSpec>,
    pub done: nat,
    pub failed: Option<VaultError>,
}

/// One transition in progress: its operations in order, how many have
/// succeeded, and the error it stopped with, if any.
pub struct Session {
    ops: Vec<Operation>,
    done: usize,
    failed: Option<VaultError>,
}

impl View for Session {
    type V = SessionState;

    closed spec fn view(&self) -> SessionState {
        SessionState { ops: ops_view(self.ops@), done: self.done as nat, failed: self.failed }
    }
}

impl Session {
    /// Operations run so far never outnumber the plan, and a failed session
    /// stopped at an operation of it.
    pub open spec fn wf(&self) -> bool {
        &&& self@.done <= self@.ops.len()
        &&& self@.failed is Some ==> self@.done < self@.ops.len()
    }

    /// The step that a session in state `s` asks for.
    pub open spec fn step_of(s: SessionState) -> StepSpec {
        match s.failed {
            Some(e) => StepSpec::Failed(e),
            None => if s.done < s.ops.len() {
                StepSpec::Run(s.ops[s.done as int])
            } else {
                StepSpec::Finished
            },
        }
    }

    /// Begins the transition `cmd`: nothing run yet, or `InvalidMountpoint`
    /// where the mountpoint has no final component.
    pub fn start(cmd: &Command) -> (r: Result<Session, VaultError>)
        ensures
            match r {
                Ok(s) => {
                    &&& plan_of(cmd@) == Ok::<Seq<OperationSpec>, VaultError>(s@.ops)
                    &&& s@.done == 0
                    &&& s@.failed is None
                    &&& s.wf()
                },
                Err(e) => plan_of(cmd@) == Err::<Seq<OperationSpec>, VaultError>(e),
            },
    {
        match plan(cmd) {
            Ok(ops) => Ok(Session { ops, done: 0, failed: None }),
            Err(e) => Err(e),
        }
    }

    /// The next step: the next operation to run, or the end of the transition.
    pub fn next_step(&self) -> (r: Step)
        requires
            self.wf(),
        ensures
            r@ == Self::step_of(self@),
    {
        if let Some(e) = self.failed {
            Step::Failed(e)
        } else if self.done < self.ops.len() {
            Step::Run(self.ops[self.done].duplicate())
        } else {
            Step::Finished
        }
    }

    /// Records whether the pending operation succeeded. A failure stops the
    /// transition with that operation's error; no later operation is run.
    pub fn record(&mut self, succeeded: bool)
        requires
            old(self).wf(),
            old(self)@.failed is None,
            old(self)@.done < old(self)@.ops.len(),
        ensures
            final(self).wf(),
            final(self)@.ops == old(self)@.ops,
            succeeded ==> final(self)@.done == old(self)@.done + 1 && final(self)@.failed is None,
            !succeeded ==> final(self)@.done == old(self)@.done && final(self)@.failed == Some(
                error_of(old(self)@.ops[old(self)@.done as int]),
            ),
    {
        let n = self.ops.len();
        assert(ops_view(self.ops@).len() == n);
        if succeeded {
            self.done = self.done + 1;
        } else {
            self.failed = Some(error_for(&self.ops[self.done]));
        }
    }
}

} // verus!
