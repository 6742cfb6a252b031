//! Driver for the ST7567 monochrome LCD controller (128 x 64 pixels).
//!
//! The library holds the display's framebuffer and the controller's wire
//! protocol. Every bus operation (`reset`, `init`, `set_contrast`, `show`)
//! is described as a [`Transfer`]: the exact sequence of control-line
//! settings, bus writes and delays that the controller needs, together with
//! the rule that a transfer stops at the first failing step. Whoever owns the
//! actual bus and control lines performs the steps one by one and reports
//! each outcome back to the transfer.

mod consts;
mod driver;
mod laws;
mod protocol;
mod transfer;

pub use crate::consts::{
    BUFFER_SIZE, DEFAULT_CONTRAST, HEIGHT, PAGES, RESET_LOW_MS, RESET_SETTLE_MS, SPI_SPEED_HZ,
    ST7567_BIAS_1_7, ST7567_DISPNORMAL, ST7567_DISPON, ST7567_ENTER_RMWMODE, ST7567_EXIT_RMWMODE,
    ST7567_PAGESIZE, ST7567_POWERCTRL, ST7567_REG_RATIO, ST7567_SEG_DIR_NORMAL,
    ST7567_SETCOLH, ST7567_SETCOLL, ST7567_SETCOMREVERSE, ST7567_SETCONTRAST,
    ST7567_SETPAGESTART, ST7567_SETSTARTLINE, WIDTH,
};
pub use crate::driver::{
    bit_set, blank, in_bounds, init_bytes, page_bytes, page_program, page_setup, pages_program,
    pixel, pixel_offset, reset_program, show_program, with_bit, ST7567,
};
pub use crate::laws::{
    reset_stops_when_low_fails, show_stops_at_failed_page_write, show_writes_every_page,
};
pub use crate::protocol::{
    command_program, data_program, lemma_written_concat, lemma_written_frame, push_command,
    push_data, views, written, Error, Line, Pin, PinState, Step, StepView,
};
pub use crate::transfer::Transfer;
