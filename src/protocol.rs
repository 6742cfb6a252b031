use vstd::prelude::*;

verus! {

/// The two electrical states of a control line.
#[derive(Debug, Clone, Copy, PartialEq, Eq, Structural)]
pub enum PinState {
    High,
    Low,
}

/// The two control lines of the controller besides the serial bus.
#[derive(Debug, Clone, Copy, PartialEq, Eq, Structural)]
pub enum Line {
    /// Data/command select: `Low` for command bytes, `High` for pixel data.
    DataCommand,
    /// Hardware reset, active low.
    Reset,
}

/// A control pin, typically used to model the DC and RST pins of the display.
pub trait Pin {
    type Error;

    fn set_value(&mut self, pin_state: PinState) -> Result<(), Self::Error>;
}

/// A failure of one of the driver's collaborators, carrying the collaborator's
/// own error value.
pub enum Error<PE, SE> {
    /// A write on the serial bus failed.
    SpiError(SE),
    /// Setting a control line failed.
    PinError(PE),
}

impl<PE, SE> Error<PE, SE> {
    /// The name of the error kind.
    pub fn as_str(&self) -> (r: &'static str)
        ensures
            r@ == (if self is SpiError {
                "SpiError"@
            } else {
                "PinError"@
            }),
    {
        match self {
            Error::SpiError(_) => "SpiError",
            Error::PinError(_) => "PinError",
        }
    }
}

/// One piece of outside work that a transfer asks for.
pub enum Step {
    /// Drive a control line to a state.
    SetPin(Line, PinState),
    /// Write these bytes over the serial bus.
    Write(Vec<u8>),
    /// Block the caller for this many milliseconds.
    Sleep(u64),
}

/// The mathematical value of a [`Step`].
pub enum StepView {
    SetPin(Line, PinState),
    Write(Seq<u8>),
    Sleep(u64),
}

impl View for Step {
    type V = StepView;

    open spec fn view(&self) -> StepView {
        match self {
            Step::SetPin(l, s) => StepView::SetPin(*l, *s),
            Step::Write(b) => StepView::Write(b@),
            Step::Sleep(ms) => StepView::Sleep(*ms),
        }
    }
}

/// The values of a sequence of steps.
pub open spec fn views(steps: Seq<Step>) -> Seq<StepView> {
    steps.map_values(|s: Step| s@)
}

/// A command frame: select command mode, then write the bytes.
pub open spec fn command_program(bytes: Seq<u8>) -> Seq<StepView> {
    seq![StepView::SetPin(Line::DataCommand, PinState::Low), StepView::Write(bytes)]
}

/// A data frame: select data mode, then write the bytes.
pub open spec fn data_program(bytes: Seq<u8>) -> Seq<StepView> {
    seq![StepView::SetPin(Line::DataCommand, PinState::High), StepView::Write(bytes)]
}

/// All bytes written over the bus by a sequence of steps, in order.
pub open spec fn written(steps: Seq<StepView>) -> Seq<u8>
    decreases steps.len(),
{
    if steps.len() == 0 {
        seq![]
    } else {
        let rest = written(steps.drop_last());
        match steps.last() {
            StepView::Write(b) => rest + b,
            _ => rest,
        }
    }
}

/// The bytes written by two sequences of steps run one after the other.
pub proof fn lemma_written_concat(a: Seq<StepView>, b: Seq<StepView>)
    ensures
        written(a + b) == written(a) + written(b),
    decreases b.len(),
{
    if b.len() == 0 {
        assert(a + b =~= a);
        assert(written(a) + written(b) =~= written(a));
    } else {
        let c = a + b;
        assert(c.drop_last() =~= a + b.drop_last());
        assert(c.last() == b.last());
        lemma_written_concat(a, b.drop_last());
        match b.last() {
            StepView::Write(bytes) => {
                assert(written(a) + written(b.drop_last()) + bytes =~= written(a) + (written(
                    b.drop_last(),
                ) + bytes));
            },
            _ => {},
        }
    }
}

/// A command or data frame writes exactly its bytes.
pub proof fn lemma_written_frame(bytes: Seq<u8>)
    ensures
        written(command_program(bytes)) == bytes,
        written(data_program(bytes)) == bytes,
{
    let c = command_program(bytes);
    let d = data_program(bytes);
    assert(c.drop_last().drop_last() =~= Seq::<StepView>::empty());
    assert(d.drop_last().drop_last() =~= Seq::<StepView>::empty());
    assert(written(Seq::<StepView>::empty()) =~= Seq::<u8>::empty());
    assert(c.drop_last().last() is SetPin && d.drop_last().last() is SetPin);
    assert(written(c.drop_last()) =~= Seq::<u8>::empty());
    assert(written(d.drop_last()) =~= Seq::<u8>::empty());
    assert(written(c) =~= bytes);
    assert(written(d) =~= bytes);
}

/// Appends a command frame holding `bytes` to `steps`.
pub fn push_command(steps: &mut Vec<Step>, bytes: Vec<u8>)
    ensures
        views(final(steps)@) == views(old(steps)@) + command_program(bytes@),
{
    let ghost b = bytes@;
    steps.push(Step::SetPin(Line::DataCommand, PinState::Low));
    steps.push(Step::Write(bytes));
    assert(views(final(steps)@) =~= views(old(steps)@) + command_program(b));
}

/// Appends a data frame holding `bytes` to `steps`.
pub fn push_data(steps: &mut Vec<Step>, bytes: Vec<u8>)
    ensures
        views(final(steps)@) == views(old(steps)@) + data_program(bytes@),
{
    let ghost b = bytes@;
    steps.push(Step::SetPin(Line::DataCommand, PinState::High));
    steps.push(Step::Write(bytes));
    assert(views(final(steps)@) =~= views(old(steps)@) + data_program(b));
}

} // verus!
