use vstd::prelude::*;

verus! {

/// Serial clock frequency the controller is driven at.
pub const SPI_SPEED_HZ: u32 = 1_000_000;

/// Display width in pixels.
pub const WIDTH: u8 = 128;

/// Display height in pixels.
pub const HEIGHT: u8 = 64;

/// Number of bytes in one page (one byte per column).
pub const ST7567_PAGESIZE: u8 = 128;

/// Number of pages; each page covers eight pixel rows.
pub const PAGES: u8 = 8;

/// Size of the framebuffer: `WIDTH * HEIGHT / 8`.
pub const BUFFER_SIZE: usize = 1024;

/// Display ON in normal mode.
pub const ST7567_DISPON: u8 = 0xaf;

/// Set display start line (0x40 - 0x7f).
pub const ST7567_SETSTARTLINE: u8 = 0x40;

/// Voltage regulator resistor ratio (0x20 - 0x27).
pub const ST7567_REG_RATIO: u8 = 0x20;

/// Set page start address (0xb0 - 0xb7).
pub const ST7567_SETPAGESTART: u8 = 0xb0;

/// Set lower column address (0x00 - 0x0f).
pub const ST7567_SETCOLL: u8 = 0x00;

/// Set higher column address (0x10 - 0x1f).
pub const ST7567_SETCOLH: u8 = 0x10;

/// Column address 0 is mapped to SEG0.
pub const ST7567_SEG_DIR_NORMAL: u8 = 0xa0;

/// Normal (non-inverted) display.
pub const ST7567_DISPNORMAL: u8 = 0xa6;

/// Select bias setting 1/7.
pub const ST7567_BIAS_1_7: u8 = 0xa3;

/// Enter read-modify-write mode.
pub const ST7567_ENTER_RMWMODE: u8 = 0xe0;

/// Leave read-modify-write mode.
pub const ST7567_EXIT_RMWMODE: u8 = 0xee;

/// Set COM output direction, reverse mode (vertical flip).
pub const ST7567_SETCOMREVERSE: u8 = 0xc8;

/// Enable the built-in power circuit (booster, regulator and follower).
pub const ST7567_POWERCTRL: u8 = 0x2f;

/// Set contrast; the next command byte is the contrast value.
pub const ST7567_SETCONTRAST: u8 = 0x81;

/// Contrast value set by `init`.
pub const DEFAULT_CONTRAST: u8 = 40;

/// Low pulse width of the reset line, in milliseconds.
pub const RESET_LOW_MS: u64 = 10;

/// Settle time after releasing the reset line, in milliseconds.
pub const RESET_SETTLE_MS: u64 = 100;

} // verus!
