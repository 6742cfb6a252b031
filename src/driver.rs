use vstd::prelude::*;
use vstd::slice::{slice_subrange, slice_to_vec};
use crate::consts::{
    BUFFER_SIZE, DEFAULT_CONTRAST, HEIGHT, PAGES, RESET_LOW_MS, RESET_SETTLE_MS, ST7567_BIAS_1_7,
    ST7567_DISPNORMAL, ST7567_DISPON, ST7567_ENTER_RMWMODE, ST7567_EXIT_RMWMODE, ST7567_PAGESIZE,
    ST7567_POWERCTRL, ST7567_REG_RATIO, ST7567_SEG_DIR_NORMAL, ST7567_SETCOLH, ST7567_SETCOLL,
    ST7567_SETCOMREVERSE, ST7567_SETCONTRAST, ST7567_SETPAGESTART, ST7567_SETSTARTLINE, WIDTH,
};
use crate::protocol::{
    command_program, data_program, push_command, push_data, views, Line, PinState, Step, StepView,
};
use crate::transfer::Transfer;

verus! {

/// Whether the pixel at column `x`, row `y` lies on the display.
pub open spec fn in_bounds(x: int, y: int) -> bool {
    0 <= x < WIDTH && 0 <= y < HEIGHT
}

/// The framebuffer offset of the byte that holds pixel `(x, y)`: pages of
/// eight rows, one byte per column.
pub open spec fn pixel_offset(x: int, y: int) -> int {
    (y / 8) * (WIDTH as int) + x
}

/// Whether bit `i` of `b` is set; bit 0 is the topmost row of a page.
pub open spec fn bit_set(b: u8, i: u8) -> bool {
    (b >> i) & 1u8 == 1u8
}

/// `b` with bit `i` set to `on`.
pub open spec fn with_bit(b: u8, i: u8, on: bool) -> u8 {
    if on {
        b | (1u8 << i)
    } else {
        b & !(1u8 << i)
    }
}

/// Whether pixel `(x, y)` is on in the framebuffer `buf`.
pub open spec fn pixel(buf: Seq<u8>, x: int, y: int) -> bool {
    bit_set(buf[pixel_offset(x, y)], (y % 8) as u8)
}

/// A framebuffer with every pixel off.
pub open spec fn blank() -> Seq<u8> {
    Seq::new(BUFFER_SIZE as nat, |i: int| 0u8)
}

/// Writing a bit sets it to the value written and leaves the other bits of
/// the byte as they were.
proof fn lemma_with_bit(b: u8, i: u8, j: u8, on: bool)
    requires
        i < 8,
        j < 8,
    ensures
        bit_set(with_bit(b, i, on), i) == on,
        i != j ==> bit_set(with_bit(b, i, on), j) == bit_set(b, j),
{
    if on {
        assert(((b | (1u8 << i)) >> i) & 1u8 == 1u8) by (bit_vector)
            requires i < 8;
        assert(i != j ==> (((b | (1u8 << i)) >> j) & 1u8 == 1u8) == ((b >> j) & 1u8 == 1u8))
            by (bit_vector)
            requires i < 8, j < 8;
    } else {
        assert(((b & !(1u8 << i)) >> i) & 1u8 == 0u8) by (bit_vector)
            requires i < 8;
        assert(i != j ==> (((b & !(1u8 << i)) >> j) & 1u8 == 1u8) == ((b >> j) & 1u8 == 1u8))
            by (bit_vector)
            requires i < 8, j < 8;
    }
}

/// Two distinct pixels on the display never share both byte and bit.
proof fn lemma_pixels_apart(x: int, y: int, x2: int, y2: int)
    requires
        in_bounds(x, y),
        in_bounds(x2, y2),
        x != x2 || y != y2,
    ensures
        pixel_offset(x, y) != pixel_offset(x2, y2) || y % 8 != y2 % 8,
{
    let (q, q2) = (y / 8, y2 / 8);
    assert(0 <= q < 8 && 0 <= q2 < 8);
    if pixel_offset(x, y) == pixel_offset(x2, y2) {
        assert(q * 128 + x == q2 * 128 + x2);
        if q < q2 {
            assert(q * 128 + 128 <= q2 * 128) by (nonlinear_arith)
                requires q < q2;
        } else if q2 < q {
            assert(q2 * 128 + 128 <= q * 128) by (nonlinear_arith)
                requires q2 < q;
        }
        assert(q == q2 && x == x2);
        assert(y % 8 != y2 % 8);
    }
}

/// Every pixel on the display lies inside the framebuffer.
proof fn lemma_offset_in_buffer(x: int, y: int)
    requires
        in_bounds(x, y),
    ensures
        0 <= pixel_offset(x, y) < BUFFER_SIZE,
{
    let q = y / 8;
    assert(q * 128 + x < 1024) by (nonlinear_arith)
        requires 0 <= q < 8, 0 <= x < 128;
}

/// The reset pulse: drive the reset line low, hold it, release it, and let
/// the controller settle.
pub open spec fn reset_program() -> Seq<StepView> {
    seq![
        StepView::SetPin(Line::Reset, PinState::Low),
        StepView::Sleep(RESET_LOW_MS),
        StepView::SetPin(Line::Reset, PinState::High),
        StepView::Sleep(RESET_SETTLE_MS),
    ]
}

/// The configuration commands, sent as one command frame.
pub open spec fn init_bytes() -> Seq<u8> {
    seq![
        ST7567_BIAS_1_7,
        ST7567_SEG_DIR_NORMAL,
        ST7567_SETCOMREVERSE,
        ST7567_DISPNORMAL,
        ST7567_SETSTARTLINE | 0u8,
        ST7567_POWERCTRL,
        ST7567_REG_RATIO | 3u8,
        ST7567_DISPON,
        ST7567_SETCONTRAST,
        DEFAULT_CONTRAST,
    ]
}

/// The command frame that points the controller at column 0 of page `p`.
pub open spec fn page_setup(p: int) -> Seq<u8> {
    seq![ST7567_SETPAGESTART | (p as u8), ST7567_SETCOLL, ST7567_SETCOLH]
}

/// The bytes of page `p` of the framebuffer `buf`.
pub open spec fn page_bytes(buf: Seq<u8>, p: int) -> Seq<u8> {
    buf.subrange(p * ST7567_PAGESIZE, p * ST7567_PAGESIZE + ST7567_PAGESIZE)
}

/// Writing page `p`: the page setup frame, then the page as a data frame.
pub open spec fn page_program(buf: Seq<u8>, p: int) -> Seq<StepView> {
    command_program(page_setup(p)) + data_program(page_bytes(buf, p))
}

/// Writing pages `0 .. n` in ascending order.
pub open spec fn pages_program(buf: Seq<u8>, n: nat) -> Seq<StepView>
    decreases n,
{
    if n == 0 {
        seq![]
    } else {
        pages_program(buf, (n - 1) as nat) + page_program(buf, n - 1)
    }
}

/// Copying the whole framebuffer `buf` to the controller: enter
/// read-modify-write mode, write every page, leave the mode.
pub open spec fn show_program(buf: Seq<u8>) -> Seq<StepView> {
    command_program(seq![ST7567_ENTER_RMWMODE]) + pages_program(buf, PAGES as nat)
        + command_program(seq![ST7567_EXIT_RMWMODE])
}

/// The display: a framebuffer of `BUFFER_SIZE` bytes in the controller's
/// page layout, and the bus operations that configure the controller and
/// copy the framebuffer into it.
pub struct ST7567 {
    buf: Vec<u8>,
}

impl View for ST7567 {
    type V = Seq<u8>;

    /// The framebuffer contents.
    closed spec fn view(&self) -> Seq<u8> {
        self.buf@
    }
}

impl ST7567 {
    /// The framebuffer has its fixed size.
    pub open spec fn wf(&self) -> bool {
        self@.len() == BUFFER_SIZE
    }

    /// A display with every pixel off.
    pub fn new() -> (r: Self)
        ensures
            r.wf(),
            r@ == blank(),
    {
        let r = ST7567 { buf: vec![0u8; BUFFER_SIZE] };
        assert(r@ =~= blank());
        r
    }

    /// The framebuffer contents.
    pub fn buffer(&self) -> (r: &[u8])
        ensures
            r@ == self@,
    {
        self.buf.as_slice()
    }

    /// Clear the display buffer.
    pub fn clear(&mut self)
        ensures
            final(self).wf(),
            final(self)@ == blank(),
    {
        self.buf = vec![0u8; BUFFER_SIZE];
        assert(self@ =~= blank());
    }

    /// The bytes of page `p` of the framebuffer.
    pub fn page(&self, p: usize) -> (r: Vec<u8>)
        requires
            self.wf(),
            p < PAGES,
        ensures
            r@ == page_bytes(self@, p as int),
    {
        assert(p * 128 + 128 <= 1024) by (nonlinear_arith)
            requires p < 8;
        let start: usize = p * (ST7567_PAGESIZE as usize);
        slice_to_vec(slice_subrange(self.buf.as_slice(), start, start + ST7567_PAGESIZE as usize))
    }

    /// A command frame: the data/command line goes low, then `data` is written.
    pub fn command<PE, SE>(&self, data: &[u8]) -> (r: Transfer<PE, SE>)
        ensures
            r.unstarted(command_program(data@)),
    {
        let mut steps: Vec<Step> = Vec::new();
        assert(views(steps@) =~= seq![]);
        push_command(&mut steps, slice_to_vec(data));
        assert(views(steps@) =~= command_program(data@));
        Transfer::new(steps)
    }

    /// A data frame: the data/command line goes high, then `data` is written.
    pub fn data<PE, SE>(&self, data: &[u8]) -> (r: Transfer<PE, SE>)
        ensures
            r.unstarted(data_program(data@)),
    {
        let mut steps: Vec<Step> = Vec::new();
        assert(views(steps@) =~= seq![]);
        push_data(&mut steps, slice_to_vec(data));
        assert(views(steps@) =~= data_program(data@));
        Transfer::new(steps)
    }

    /// Pulse the hardware reset line.
    pub fn reset<PE, SE>(&self) -> (r: Transfer<PE, SE>)
        ensures
            r.unstarted(reset_program()),
    {
        let mut steps: Vec<Step> = Vec::new();
        steps.push(Step::SetPin(Line::Reset, PinState::Low));
        steps.push(Step::Sleep(RESET_LOW_MS));
        steps.push(Step::SetPin(Line::Reset, PinState::High));
        steps.push(Step::Sleep(RESET_SETTLE_MS));
        assert(views(steps@) =~= reset_program());
        Transfer::new(steps)
    }

    /// Set the contrast register to `value`.
    pub fn set_contrast<PE, SE>(&self, value: u8) -> (r: Transfer<PE, SE>)
        ensures
            r.unstarted(command_program(seq![ST7567_SETCONTRAST, value])),
    {
        let frame: [u8; 2] = [ST7567_SETCONTRAST, value];
        assert(frame@ =~= seq![ST7567_SETCONTRAST, value]);
        self.command(&frame)
    }

    /// Configure the controller: bias, directions, display mode, start line,
    /// power, regulator ratio, display on and contrast, in one command frame.
    pub fn init<PE, SE>(&self) -> (r: Transfer<PE, SE>)
        ensures
            r.unstarted(command_program(init_bytes())),
    {
        let frame: [u8; 10] = [
            ST7567_BIAS_1_7,
            ST7567_SEG_DIR_NORMAL,
            ST7567_SETCOMREVERSE,
            ST7567_DISPNORMAL,
            ST7567_SETSTARTLINE | 0u8,
            ST7567_POWERCTRL,
            ST7567_REG_RATIO | 3u8,
            ST7567_DISPON,
            ST7567_SETCONTRAST,
            DEFAULT_CONTRAST,
        ];
        assert(frame@ =~= init_bytes());
        self.command(&frame)
    }

    /// Update the display with the buffer contents.
    pub fn show<PE, SE>(&self) -> (r: Transfer<PE, SE>)
        requires
            self.wf(),
        ensures
            r.unstarted(show_program(self@)),
    {
        let mut steps: Vec<Step> = Vec::new();
        assert(views(steps@) =~= seq![]);
        let enter: Vec<u8> = vec![ST7567_ENTER_RMWMODE];
        assert(enter@ =~= seq![ST7567_ENTER_RMWMODE]);
        push_command(&mut steps, enter);
        assert(pages_program(self@, 0) == Seq::<StepView>::empty());
        assert(views(steps@) =~= command_program(seq![ST7567_ENTER_RMWMODE]) + pages_program(
            self@,
            0,
        ));
        let mut p: usize = 0;
        while p < PAGES as usize
            invariant
                self.wf(),
                p <= PAGES,
                views(steps@) == command_program(seq![ST7567_ENTER_RMWMODE]) + pages_program(
                    self@,
                    p as nat,
                ),
            decreases PAGES - p,
        {
            let ghost before = views(steps@);
            let setup: Vec<u8> = vec![ST7567_SETPAGESTART | p as u8, ST7567_SETCOLL, ST7567_SETCOLH];
            assert(setup@ =~= page_setup(p as int));
            push_command(&mut steps, setup);
            push_data(&mut steps, self.page(p));
            assert(views(steps@) =~= before + page_program(self@, p as int));
            p = p + 1;
        }
        let ghost before = views(steps@);
        let exit: Vec<u8> = vec![ST7567_EXIT_RMWMODE];
        assert(exit@ =~= seq![ST7567_EXIT_RMWMODE]);
        push_command(&mut steps, exit);
        assert(views(steps@) =~= before + command_program(seq![ST7567_EXIT_RMWMODE]));
        Transfer::new(steps)
    }

    /// Set a single pixel in the display buffer.
    ///
    /// Coordinates off the display are ignored.
    pub fn set_pixel(&mut self, x: usize, y: usize, value: bool)
        requires
            old(self).wf(),
        ensures
            final(self).wf(),
            !in_bounds(x as int, y as int) ==> final(self)@ == old(self)@,
            in_bounds(x as int, y as int) ==> final(self)@ == old(self)@.update(
                pixel_offset(x as int, y as int),
                with_bit(old(self)@[pixel_offset(x as int, y as int)], (y % 8) as u8, value),
            ),
            in_bounds(x as int, y as int) ==> pixel(final(self)@, x as int, y as int) == value,
            forall|x2: int, y2: int|
                in_bounds(x2, y2) && (x2 != x || y2 != y) ==> pixel(final(self)@, x2, y2)
                    == pixel(old(self)@, x2, y2),
    {
        if x >= WIDTH as usize || y >= HEIGHT as usize {
            return;
        }
        proof {
            lemma_offset_in_buffer(x as int, y as int);
        }
        let offset: usize = (y / 8) * (WIDTH as usize) + x;
        let bit: u8 = (y % 8) as u8;
        let old_byte: u8 = self.buf[offset];
        if value {
            self.buf.set(offset, old_byte | 1u8 << bit);
        } else {
            self.buf.set(offset, old_byte & !(1u8 << bit));
        }
        proof {
            lemma_with_bit(old_byte, bit, bit, value);
            assert forall|x2: int, y2: int|
                in_bounds(x2, y2) && (x2 != x || y2 != y) implies pixel(self@, x2, y2) == pixel(
                old(self)@,
                x2,
                y2,
            ) by {
                lemma_pixels_apart(x as int, y as int, x2, y2);
                lemma_with_bit(old_byte, bit, (y2 % 8) as u8, value);
            }
        }
    }
}

} // verus!
