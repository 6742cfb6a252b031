use embedded_hal::spi::{ErrorKind, ErrorType, Operation, SpiDevice};
use st7567::{
    Error, Line, Pin, PinState, Step, Transfer, BUFFER_SIZE, HEIGHT, ST7567, ST7567_BIAS_1_7,
    ST7567_DISPNORMAL, ST7567_DISPON, ST7567_ENTER_RMWMODE, ST7567_EXIT_RMWMODE,
    ST7567_PAGESIZE, ST7567_POWERCTRL, ST7567_REG_RATIO, ST7567_SEG_DIR_NORMAL,
    ST7567_SETCOMREVERSE, ST7567_SETCONTRAST, ST7567_SETSTARTLINE, WIDTH,
};

#[derive(Debug, Clone, PartialEq)]
enum MockError {
    SpiError,
    PinError,
}

impl embedded_hal::spi::Error for MockError {
    fn kind(&self) -> ErrorKind {
        ErrorKind::Other
    }
}

/// Records every state it is set to; fails every call when told to.
struct MockPin {
    states: Vec<PinState>,
    should_fail: bool,
}

impl MockPin {
    fn new() -> Self {
        MockPin { states: Vec::new(), should_fail: false }
    }
}

impl Pin for MockPin {
    type Error = MockError;

    fn set_value(&mut self, pin_state: PinState) -> Result<(), MockError> {
        if self.should_fail {
            return Err(MockError::PinError);
        }
        self.states.push(pin_state);
        Ok(())
    }
}

/// Records every byte written; fails every write from `fail_from` on
/// (counting writes from 0).
struct MockSpiDevice {
    written_data: Vec<u8>,
    writes: usize,
    fail_from: Option<usize>,
}

impl MockSpiDevice {
    fn new() -> Self {
        MockSpiDevice { written_data: Vec::new(), writes: 0, fail_from: None }
    }
}

impl ErrorType for MockSpiDevice {
    type Error = MockError;
}

impl SpiDevice for MockSpiDevice {
    fn transaction(&mut self, operations: &mut [Operation<'_, u8>]) -> Result<(), MockError> {
        let n = self.writes;
        self.writes += 1;
        if let Some(f) = self.fail_from {
            if n >= f {
                return Err(MockError::SpiError);
            }
        }
        for operation in operations {
            if let Operation::Write(data) = operation {
                self.written_data.extend_from_slice(data);
            }
        }
        Ok(())
    }
}

/// The display together with mock collaborators that carry out its transfers.
struct Rig {
    lcd: ST7567,
    dc_pin: MockPin,
    rst_pin: MockPin,
    spi: MockSpiDevice,
    sleeps: Vec<u64>,
}

type Outcome = Result<(), Error<MockError, MockError>>;

impl Rig {
    fn new() -> Self {
        Rig {
            lcd: ST7567::new(),
            dc_pin: MockPin::new(),
            rst_pin: MockPin::new(),
            spi: MockSpiDevice::new(),
            sleeps: Vec::new(),
        }
    }

    fn run(&mut self, transfer: Transfer<MockError, MockError>) -> Outcome {
        let mut t = transfer;
        while let Some(step) = t.pending() {
            match step {
                Step::SetPin(Line::DataCommand, s) => {
                    let o = self.dc_pin.set_value(*s);
                    t.record_pin(o);
                }
                Step::SetPin(Line::Reset, s) => {
                    let o = self.rst_pin.set_value(*s);
                    t.record_pin(o);
                }
                Step::Write(bytes) => {
                    let o = self.spi.write(bytes);
                    t.record_write(o);
                }
                Step::Sleep(ms) => {
                    self.sleeps.push(*ms);
                    t.record_sleep();
                }
            }
        }
        t.finish()
    }

    fn reset(&mut self) -> Outcome {
        let t = self.lcd.reset();
        self.run(t)
    }

    fn init(&mut self) -> Outcome {
        let t = self.lcd.init();
        self.run(t)
    }

    fn set_contrast(&mut self, value: u8) -> Outcome {
        let t = self.lcd.set_contrast(value);
        self.run(t)
    }

    fn show(&mut self) -> Outcome {
        let t = self.lcd.show();
        self.run(t)
    }

    fn command(&mut self, data: &[u8]) -> Outcome {
        let t = self.lcd.command(data);
        self.run(t)
    }

    fn data(&mut self, data: &[u8]) -> Outcome {
        let t = self.lcd.data(data);
        self.run(t)
    }
}

fn offset_of(x: usize, y: usize) -> usize {
    (y / 8) * WIDTH as usize + x
}

#[test]
fn test_new() {
    let st7567 = ST7567::new();
    assert_eq!(st7567.buffer(), &[0u8; BUFFER_SIZE][..]);
}

#[test]
fn test_clear() {
    let mut st7567 = ST7567::new();
    st7567.set_pixel(10, 20, true);
    st7567.set_pixel(50, 30, true);
    st7567.clear();
    assert_eq!(st7567.buffer(), &[0u8; BUFFER_SIZE][..]);
}

#[test]
fn test_set_pixel_valid_coordinates() {
    let mut st7567 = ST7567::new();

    st7567.set_pixel(0, 0, true);
    let offset = ((0 / 8) * WIDTH as usize) + 0;
    let bit = 0 % 8;
    assert_eq!(st7567.buffer()[offset], 1 << bit);

    st7567.clear();
    st7567.set_pixel(10, 20, true);
    let offset = ((20 / 8) * WIDTH as usize) + 10;
    let bit = 20 % 8;
    assert_eq!(st7567.buffer()[offset], 1 << bit);

    st7567.set_pixel(10, 20, false);
    assert_eq!(st7567.buffer()[offset], 0);
}

#[test]
fn test_set_pixel_invalid_coordinates() {
    let mut st7567 = ST7567::new();
    st7567.set_pixel(WIDTH as usize, HEIGHT as usize, true);
    st7567.set_pixel(200, 100, true);
    assert_eq!(st7567.buffer(), &[0u8; BUFFER_SIZE][..]);
}

#[test]
fn test_set_pixel_multiple_bits_same_byte() {
    let mut st7567 = ST7567::new();
    st7567.set_pixel(10, 0, true);
    st7567.set_pixel(10, 1, true);
    st7567.set_pixel(10, 2, true);

    let offset = ((0 / 8) * WIDTH as usize) + 10;
    let expected = (1 << 0) | (1 << 1) | (1 << 2);
    assert_eq!(st7567.buffer()[offset], expected);
    assert_eq!(st7567.buffer()[offset], 0b00000111);
    assert_eq!(st7567.buffer().iter().filter(|b| **b != 0).count(), 1);
}

#[test]
fn test_reset_success() {
    let mut rig = Rig::new();
    let result = rig.reset();
    assert!(result.is_ok());

    let rst_states = &rig.rst_pin.states;
    assert_eq!(rst_states.len(), 2);
    assert!(matches!(rst_states[0], PinState::Low));
    assert!(matches!(rst_states[1], PinState::High));
}

#[test]
fn test_reset_pin_error() {
    let mut rig = Rig::new();
    rig.rst_pin.should_fail = true;

    let result = rig.reset();
    assert!(result.is_err());
    assert!(matches!(result.unwrap_err(), Error::PinError(_)));
}

#[test]
fn test_set_contrast_success() {
    let mut rig = Rig::new();
    let result = rig.set_contrast(128);
    assert!(result.is_ok());

    assert_eq!(rig.spi.written_data, vec![ST7567_SETCONTRAST, 128]);

    let dc_states = &rig.dc_pin.states;
    assert_eq!(dc_states.len(), 1);
    assert!(matches!(dc_states[0], PinState::Low));
}

#[test]
fn test_set_contrast_spi_error() {
    let mut rig = Rig::new();
    rig.spi.fail_from = Some(0);

    let result = rig.set_contrast(128);
    assert!(result.is_err());
    assert!(matches!(result.unwrap_err(), Error::SpiError(_)));
}

#[test]
fn test_set_contrast_pin_error() {
    let mut rig = Rig::new();
    rig.dc_pin.should_fail = true;

    let result = rig.set_contrast(128);
    assert!(result.is_err());
    assert!(matches!(result.unwrap_err(), Error::PinError(_)));
}

#[test]
fn test_init_success() {
    let mut rig = Rig::new();
    let result = rig.init();
    assert!(result.is_ok());

    let expected = vec![
        ST7567_BIAS_1_7,
        ST7567_SEG_DIR_NORMAL,
        ST7567_SETCOMREVERSE,
        ST7567_DISPNORMAL,
        ST7567_SETSTARTLINE | 0,
        ST7567_POWERCTRL,
        ST7567_REG_RATIO | 3,
        ST7567_DISPON,
        ST7567_SETCONTRAST,
        40,
    ];
    assert_eq!(rig.spi.written_data, expected);

    let dc_states = &rig.dc_pin.states;
    assert_eq!(dc_states.len(), 1);
    assert!(matches!(dc_states[0], PinState::Low));
}

#[test]
fn test_command_vs_data() {
    let mut rig = Rig::new();

    let _ = rig.command(&[0x01, 0x02]);
    assert_eq!(rig.dc_pin.states.len(), 1);
    assert!(matches!(rig.dc_pin.states[0], PinState::Low));

    rig.dc_pin.states.clear();
    let _ = rig.data(&[0x03, 0x04]);
    assert_eq!(rig.dc_pin.states.len(), 1);
    assert!(matches!(rig.dc_pin.states[0], PinState::High));

    assert_eq!(rig.spi.written_data, vec![0x01, 0x02, 0x03, 0x04]);
}

#[test]
fn test_show_success() {
    let mut rig = Rig::new();
    rig.lcd.set_pixel(0, 0, true);
    rig.lcd.set_pixel(127, 63, true);

    let result = rig.show();
    assert!(result.is_ok());

    let written_data = &rig.spi.written_data;
    assert_eq!(written_data[0], ST7567_ENTER_RMWMODE);
    assert_eq!(written_data[written_data.len() - 1], ST7567_EXIT_RMWMODE);
    assert!(written_data.len() > 1000);
}

#[test]
fn test_error_display_and_debug() {
    let spi_error: Error<MockError, MockError> = Error::SpiError(MockError::SpiError);
    let pin_error: Error<MockError, MockError> = Error::PinError(MockError::PinError);

    assert_eq!(spi_error.as_str(), "SpiError");
    assert_eq!(pin_error.as_str(), "PinError");
    assert_eq!(format!("{}", spi_error.as_str()), "SpiError");
    assert_eq!(format!("{}", pin_error.as_str()), "PinError");
}

#[test]
fn test_pixel_coordinates_edge_cases() {
    let mut st7567 = ST7567::new();
    st7567.set_pixel(0, 0, true);
    st7567.set_pixel(WIDTH as usize - 1, 0, true);
    st7567.set_pixel(0, HEIGHT as usize - 1, true);
    st7567.set_pixel(WIDTH as usize - 1, HEIGHT as usize - 1, true);

    let offset = ((0 / 8) * WIDTH as usize) + 0;
    assert_eq!(st7567.buffer()[offset], 1);

    let offset = ((0 / 8) * WIDTH as usize) + (WIDTH as usize - 1);
    assert_eq!(st7567.buffer()[offset], 1);

    let offset = (((HEIGHT as usize - 1) / 8) * WIDTH as usize) + 0;
    let bit = (HEIGHT as usize - 1) % 8;
    assert_eq!(st7567.buffer()[offset], 1 << bit);

    let offset = (((HEIGHT as usize - 1) / 8) * WIDTH as usize) + (WIDTH as usize - 1);
    let bit = (HEIGHT as usize - 1) % 8;
    assert_eq!(st7567.buffer()[offset], 1 << bit);
}

#[test]
fn test_constants() {
    assert_eq!(WIDTH, 128);
    assert_eq!(HEIGHT, 64);
    assert_eq!(ST7567_PAGESIZE, 128);
    assert_eq!(BUFFER_SIZE, 1024);
}

#[test]
fn set_then_clear_every_pixel_reads_back() {
    let mut st7567 = ST7567::new();
    for y in 0..HEIGHT as usize {
        for x in 0..WIDTH as usize {
            st7567.set_pixel(x, y, true);
            assert_eq!((st7567.buffer()[offset_of(x, y)] >> (y % 8)) & 1, 1);
            st7567.set_pixel(x, y, false);
            assert_eq!((st7567.buffer()[offset_of(x, y)] >> (y % 8)) & 1, 0);
        }
    }
    assert_eq!(st7567.buffer(), &[0u8; BUFFER_SIZE][..]);
}

#[test]
fn out_of_range_pixels_leave_buffer_unchanged() {
    let mut st7567 = ST7567::new();
    st7567.set_pixel(3, 9, true);
    let before = st7567.buffer().to_vec();
    st7567.set_pixel(128, 0, true);
    st7567.set_pixel(0, 64, true);
    st7567.set_pixel(usize::MAX, usize::MAX, false);
    st7567.set_pixel(128, 9, false);
    assert_eq!(st7567.buffer(), &before[..]);
}

#[test]
fn set_pixel_is_idempotent_and_leaves_neighbours() {
    let mut st7567 = ST7567::new();
    st7567.set_pixel(5, 13, true);
    st7567.set_pixel(5, 13, true);
    assert_eq!(st7567.buffer()[WIDTH as usize + 5], 0b0010_0000);
    st7567.set_pixel(5, 12, true);
    st7567.set_pixel(5, 13, false);
    assert_eq!(st7567.buffer()[WIDTH as usize + 5], 0b0001_0000);
}

#[test]
fn clear_after_many_pixels_is_blank() {
    let mut st7567 = ST7567::new();
    for i in 0..64 {
        st7567.set_pixel(i * 2, i, true);
    }
    st7567.clear();
    assert!(st7567.buffer().iter().all(|b| *b == 0));
    assert_eq!(st7567.buffer().len(), BUFFER_SIZE);
}

#[test]
fn page_returns_its_slice() {
    let mut st7567 = ST7567::new();
    st7567.set_pixel(7, 17, true);
    let page = st7567.page(2);
    assert_eq!(page.len(), 128);
    assert_eq!(page[7], 0b0000_0010);
    assert_eq!(st7567.page(0), vec![0u8; 128]);
}

#[test]
fn show_on_blank_display_writes_every_page() {
    let mut rig = Rig::new();
    assert!(rig.show().is_ok());

    let mut expected = vec![0xE0u8];
    for p in 0..8u8 {
        expected.extend_from_slice(&[0xB0 | p, 0x00, 0x10]);
        expected.extend_from_slice(&[0u8; 128]);
    }
    expected.push(0xEE);
    assert_eq!(rig.spi.written_data.len(), 1050);
    assert_eq!(rig.spi.written_data, expected);

    let mut dc = vec![PinState::Low];
    for _ in 0..8 {
        dc.push(PinState::Low);
        dc.push(PinState::High);
    }
    dc.push(PinState::Low);
    assert_eq!(rig.dc_pin.states, dc);
    assert_eq!(rig.spi.writes, 18);
}

#[test]
fn show_sends_page_contents() {
    let mut rig = Rig::new();
    rig.lcd.set_pixel(0, 0, true);
    rig.lcd.set_pixel(127, 63, true);
    assert!(rig.show().is_ok());
    let data = &rig.spi.written_data;
    // page 0 data starts after the enter byte and the setup frame
    assert_eq!(data[4], 1);
    // last byte of page 7 sits just before the exit byte
    assert_eq!(data[1048], 0b1000_0000);
    assert_eq!(&data[1 + 7 * 131..1 + 7 * 131 + 3], &[0xB7, 0x00, 0x10]);
}

#[test]
fn init_writes_configuration_frame() {
    let mut rig = Rig::new();
    assert!(rig.init().is_ok());
    assert_eq!(
        rig.spi.written_data,
        vec![0xA3, 0xA0, 0xC8, 0xA6, 0x40, 0x2F, 0x23, 0xAF, 0x81, 40]
    );
    assert_eq!(rig.dc_pin.states, vec![PinState::Low]);
    assert_eq!(rig.spi.writes, 1);
}

#[test]
fn reset_holds_the_line_for_fixed_delays() {
    let mut rig = Rig::new();
    assert!(rig.reset().is_ok());
    assert_eq!(rig.rst_pin.states, vec![PinState::Low, PinState::High]);
    assert_eq!(rig.sleeps, vec![10, 100]);
    assert!(rig.dc_pin.states.is_empty());
    assert!(rig.spi.written_data.is_empty());
}

#[test]
fn reset_failing_low_attempts_nothing_more() {
    let mut rig = Rig::new();
    rig.rst_pin.should_fail = true;
    let result = rig.reset();
    assert!(matches!(result, Err(Error::PinError(MockError::PinError))));
    assert!(rig.rst_pin.states.is_empty());
    assert!(rig.sleeps.is_empty());
}

#[test]
fn show_stops_at_failed_page_data_write() {
    let mut rig = Rig::new();
    rig.lcd.set_pixel(0, 40, true);
    // writes: enter (0), then page p setup (1 + 2p) and data (2 + 2p)
    rig.spi.fail_from = Some(2 + 2 * 4);
    let result = rig.show();
    assert!(matches!(result, Err(Error::SpiError(MockError::SpiError))));
    assert_eq!(rig.spi.writes, 11);
    assert_eq!(rig.spi.written_data.len(), 1 + 4 * 131 + 3);
    assert_eq!(&rig.spi.written_data[1 + 4 * 131..], &[0xB4, 0x00, 0x10]);
    assert_eq!(rig.dc_pin.states.len(), 1 + 2 * 5);
}

#[test]
fn set_contrast_sends_any_value() {
    let mut rig = Rig::new();
    assert!(rig.set_contrast(0).is_ok());
    assert!(rig.set_contrast(255).is_ok());
    assert_eq!(rig.spi.written_data, vec![0x81, 0, 0x81, 255]);
}

#[test]
fn data_pin_failure_skips_the_write() {
    let mut rig = Rig::new();
    rig.dc_pin.should_fail = true;
    let result = rig.data(&[1, 2, 3]);
    assert!(matches!(result, Err(Error::PinError(_))));
    assert_eq!(rig.spi.writes, 0);
}

#[test]
fn transfer_halts_after_first_failure() {
    let steps = vec![
        Step::SetPin(Line::DataCommand, PinState::Low),
        Step::Write(vec![1]),
        Step::Sleep(5),
    ];
    let mut t: Transfer<u8, u16> = Transfer::new(steps);
    assert!(matches!(t.pending(), Some(Step::SetPin(Line::DataCommand, PinState::Low))));
    t.record_pin(Ok(()));
    assert!(matches!(t.pending(), Some(Step::Write(_))));
    t.record_write(Err(7));
    assert!(t.pending().is_none());
    assert!(matches!(t.finish(), Err(Error::SpiError(7))));
}

#[test]
fn transfer_succeeds_when_all_steps_do() {
    let mut t: Transfer<u8, u16> = Transfer::new(vec![Step::Sleep(1), Step::SetPin(Line::Reset, PinState::High)]);
    t.record_sleep();
    t.record_pin(Ok(()));
    assert!(t.pending().is_none());
    assert!(t.finish().is_ok());

    let empty: Transfer<u8, u16> = Transfer::new(Vec::new());
    assert!(empty.pending().is_none());
    assert!(empty.finish().is_ok());
}
