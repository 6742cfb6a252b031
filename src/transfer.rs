use vstd::prelude::*;
use crate::protocol::{views, Error, Step, StepView};

verus! {

/// A bus operation in progress: a fixed sequence of steps, how many of them
/// have been carried out, and the failure that stopped it, if any.
///
/// The owner of the bus and control lines asks for the pending step, performs
/// it, and records its outcome. The first failure ends the transfer: no step
/// after a failed one is ever pending.
pub struct Transfer<PE, SE> {
    steps: Vec<Step>,
    performed: usize,
    fault: Option<Error<PE, SE>>,
}

impl<PE, SE> Transfer<PE, SE> {
    /// The steps of the transfer, in order.
    pub closed spec fn program(&self) -> Seq<StepView> {
        views(self.steps@)
    }

    /// How many steps have been carried out successfully.
    pub closed spec fn performed(&self) -> nat {
        self.performed as nat
    }

    /// The failure that stopped the transfer, if any.
    pub closed spec fn fault(&self) -> Option<Error<PE, SE>> {
        self.fault
    }

    /// The counters agree with the program.
    pub open spec fn wf(&self) -> bool {
        &&& self.performed() <= self.program().len()
        &&& self.fault() is Some ==> self.performed() < self.program().len()
    }

    /// A transfer of `program` with nothing performed yet.
    pub open spec fn unstarted(&self, program: Seq<StepView>) -> bool {
        &&& self.wf()
        &&& self.program() == program
        &&& self.performed() == 0
        &&& self.fault() is None
    }

    /// No step is left to perform: all succeeded, or one failed.
    pub open spec fn finished(&self) -> bool {
        self.fault() is Some || self.performed() == self.program().len()
    }

    /// The step that is to be performed next.
    pub open spec fn next_step(&self) -> StepView {
        self.program()[self.performed() as int]
    }

    /// The steps that were tried so far: those that succeeded, followed by
    /// the one that failed, if any.
    pub open spec fn attempted(&self) -> Seq<StepView> {
        self.program().take(self.performed() + if self.fault() is Some { 1int } else { 0int })
    }

    /// A transfer of `steps` with nothing performed yet.
    pub fn new(steps: Vec<Step>) -> (r: Self)
        ensures
            r.wf(),
            r.program() == views(steps@),
            r.performed() == 0,
            r.fault() is None,
    {
        Transfer { steps, performed: 0, fault: None }
    }

    /// The step to perform next, or `None` once the transfer is finished.
    pub fn pending(&self) -> (r: Option<&Step>)
        requires
            self.wf(),
        ensures
            r is None <==> self.finished(),
            r is Some ==> r->Some_0@ == self.next_step(),
    {
        if self.fault.is_some() || self.performed == self.steps.len() {
            None
        } else {
            Some(&self.steps[self.performed])
        }
    }

    /// Counts the pending step as carried out.
    fn advance(&mut self)
        requires
            old(self).wf(),
            !old(self).finished(),
        ensures
            final(self).steps == old(self).steps,
            final(self).fault == old(self).fault,
            final(self).performed == old(self).performed + 1,
    {
        if self.performed < self.steps.len() {
            self.performed = self.performed + 1;
        }
    }

    /// Records the outcome of the pending control-line step.
    pub fn record_pin(&mut self, outcome: Result<(), PE>)
        requires
            old(self).wf(),
            !old(self).finished(),
            old(self).next_step() is SetPin,
        ensures
            final(self).wf(),
            final(self).program() == old(self).program(),
            outcome is Ok ==> final(self).performed() == old(self).performed() + 1
                && final(self).fault() is None,
            outcome is Err ==> final(self).performed() == old(self).performed()
                && final(self).fault() == Some(Error::<PE, SE>::PinError(outcome->Err_0)),
    {
        match outcome {
            Ok(()) => self.advance(),
            Err(e) => self.fault = Some(Error::PinError(e)),
        }
    }

    /// Records the outcome of the pending bus write.
    pub fn record_write(&mut self, outcome: Result<(), SE>)
        requires
            old(self).wf(),
            !old(self).finished(),
            old(self).next_step() is Write,
        ensures
            final(self).wf(),
            final(self).program() == old(self).program(),
            outcome is Ok ==> final(self).performed() == old(self).performed() + 1
                && final(self).fault() is None,
            outcome is Err ==> final(self).performed() == old(self).performed()
                && final(self).fault() == Some(Error::<PE, SE>::SpiError(outcome->Err_0)),
    {
        match outcome {
            Ok(()) => self.advance(),
            Err(e) => self.fault = Some(Error::SpiError(e)),
        }
    }

    /// Records that the pending delay has elapsed.
    pub fn record_sleep(&mut self)
        requires
            old(self).wf(),
            !old(self).finished(),
            old(self).next_step() is Sleep,
        ensures
            final(self).wf(),
            final(self).program() == old(self).program(),
            final(self).performed() == old(self).performed() + 1,
            final(self).fault() is None,
    {
        self.advance();
    }

    /// The result of a finished transfer: the failure that stopped it, or
    /// success when every step was carried out.
    pub fn finish(self) -> (r: Result<(), Error<PE, SE>>)
        requires
            self.wf(),
            self.finished(),
        ensures
            match self.fault() {
                Some(e) => r == Err::<(), Error<PE, SE>>(e),
                None => r is Ok,
            },
            r is Ok <==> self.performed() == self.program().len(),
    {
        match self.fault {
            Some(e) => Err(e),
            None => Ok(()),
        }
    }
}

} // verus!
