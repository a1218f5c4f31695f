//! HD44780 character LCD behind a PCF8574 I2C backpack, driven in 4-bit
//! mode.
//!
//! Every byte the driver hands to the bus is recorded in ghost logs (those
//! the bus took, and those it refused with its error), so the contracts
//! state exactly what each operation sends and where a refusal stops it.
use vstd::prelude::*;
use vstd::string::{StringExecFns, StrSliceExecFns, StringSliceAdditionalSpecFns};
use vstd::array::ArrayAdditionalExecFns;
use crate::{Error, Result};

verus! {

/// Backlight state.
#[derive(Debug, Clone, Copy, PartialEq, Eq, Structural)]
pub enum Backlight {
    On,
    Off,
}

/// The I2C bus that carries the backpack's bytes, swappable for tests.
pub trait I2cBus {
    /// Writes one byte to the device at `addr`.
    fn write_byte(&mut self, addr: u8, byte: u8) -> Result<()>;

    /// Waits at least `us` microseconds; buses that need no settling time
    /// (a test double) keep this default, which returns at once.
    fn delay_us(&mut self, us: u64) {
    }
}

pub const MASK_RS: u8 = 0x01;
pub const MASK_E: u8 = 0x04;
pub const SHIFT_BACKLIGHT: u8 = 3;
pub const SHIFT_DATA: u8 = 4;

pub const LCD_CLR: u8 = 0x01;
pub const LCD_HOME: u8 = 0x02;
pub const LCD_ENTRY_MODE: u8 = 0x04;
pub const LCD_ENTRY_INC: u8 = 0x02;
pub const LCD_ON_CTRL: u8 = 0x08;
pub const LCD_ON_DISPLAY: u8 = 0x04;
pub const LCD_ON_CURSOR: u8 = 0x02;
pub const LCD_ON_BLINK: u8 = 0x01;
pub const LCD_FUNCTION: u8 = 0x20;
pub const LCD_FUNCTION_2LINES: u8 = 0x08;
pub const LCD_FUNCTION_RESET: u8 = 0x30;
pub const LCD_DDRAM: u8 = 0x80;
/// Display on, cursor hidden: `LCD_ON_CTRL | LCD_ON_DISPLAY`.
pub const LCD_DISPLAY_ON: u8 = 0x0c;
/// Display on, cursor shown: `LCD_ON_CTRL | LCD_ON_DISPLAY | LCD_ON_CURSOR`.
pub const LCD_CURSOR_ON: u8 = 0x0e;
/// Display on, cursor blinking: all four display-control bits.
pub const LCD_BLINK_ON: u8 = 0x0f;
/// Entry mode, cursor moving right: `LCD_ENTRY_MODE | LCD_ENTRY_INC`.
pub const LCD_ENTRY_RIGHT: u8 = 0x06;
/// The backlight bit, `1 << SHIFT_BACKLIGHT`.
pub const BACKLIGHT_BIT: u8 = 0x08;
pub const LCD_CGRAM: u8 = 0x40;

/// The usual address of a PCF8574 backpack.
pub const DEFAULT_I2C_ADDR: u8 = 0x27;

/// The driver's state: bus address, geometry, cursor and backlight.
pub struct LcdModel {
    pub addr: u8,
    pub cols: u8,
    pub rows: u8,
    pub x: u8,
    pub y: u8,
    /// Set after a write wrapped to the next row, so that a newline right
    /// after it is not counted twice.
    pub implied: bool,
    pub backlight: Backlight,
}

/// `rows`, at least 1.
pub open spec fn rows_or_one(rows: u8) -> u8 {
    if rows == 0 {
        1
    } else {
        rows
    }
}

/// The backlight bit of every byte sent.
pub open spec fn backlight_bits(b: Backlight) -> u8 {
    match b {
        Backlight::On => 8,
        Backlight::Off => 0,
    }
}

/// The two bus writes (enable high, then low) that clock in the high nibble
/// of `v`.
pub open spec fn nibble_bytes(mask: u8, rs: bool, v: u8) -> Seq<u8> {
    let b = mask | (if rs {
        1u8
    } else {
        0u8
    }) | ((v >> 4u8) << 4u8);
    seq![b | 4u8, b]
}

/// A command byte: its high nibble, then its low nibble.
pub open spec fn command_bytes(mask: u8, c: u8) -> Seq<u8> {
    nibble_bytes(mask, false, c) + nibble_bytes(mask, false, c << 4u8)
}

/// A data byte: its high nibble, then its low nibble, with RS set.
pub open spec fn data_bytes(mask: u8, d: u8) -> Seq<u8> {
    nibble_bytes(mask, true, d) + nibble_bytes(mask, true, d << 4u8)
}

/// A nibble of the reset sequence, sent without the backlight bit.
pub open spec fn init_nibble_bytes(n: u8) -> Seq<u8> {
    let b = ((n >> 4u8) & 0x0fu8) << 4u8;
    seq![b | 4u8, b]
}

/// The DDRAM address command for column `x` of row `y`.
pub open spec fn ddram_command(cols: u8, x: u8, y: u8) -> u8 {
    let base: int = (x & 0x3fu8) as int;
    let with_row: int = if y & 1u8 == 1u8 {
        base + 0x40
    } else {
        base
    };
    let full: int = if y & 2u8 == 2u8 {
        with_row + cols as int
    } else {
        with_row
    };
    0x80u8 | (full as u8)
}

/// Moving the cursor: the row taken modulo the number of rows.
pub open spec fn move_model(m: LcdModel, x: u8, y: u8) -> (LcdModel, Seq<u8>) {
    let y2 = (y % rows_or_one(m.rows)) as u8;
    (
        LcdModel { x, y: y2, ..m },
        command_bytes(backlight_bits(m.backlight), ddram_command(m.cols, x, y2)),
    )
}

/// Writing one character: a newline ends the row (unless a wrap just did),
/// any other character is written as its low byte; reaching the end of a
/// row wraps to the start of the next one.
pub open spec fn putchar_model(m: LcdModel, ch: char) -> (LcdModel, Seq<u8>) {
    let mask = backlight_bits(m.backlight);
    let x1: int = if ch == '\n' {
        if m.implied {
            m.x as int
        } else {
            m.cols as int
        }
    } else {
        m.x + 1
    };
    let out: Seq<u8> = if ch == '\n' {
        Seq::empty()
    } else {
        data_bytes(mask, ch as u8)
    };
    if x1 >= m.cols {
        let y2 = ((m.y + 1) % (rows_or_one(m.rows) as int)) as u8;
        (
            LcdModel { x: 0, y: y2, implied: ch != '\n', ..m },
            out + command_bytes(mask, ddram_command(m.cols, 0, y2)),
        )
    } else {
        (LcdModel { x: x1 as u8, implied: false, ..m }, out)
    }
}

/// Writing characters in turn.
pub open spec fn putstr_model(m: LcdModel, s: Seq<char>) -> (LcdModel, Seq<u8>)
    decreases s.len(),
{
    if s.len() == 0 {
        (m, Seq::empty())
    } else {
        let (m1, b1) = putstr_model(m, s.drop_last());
        let (m2, b2) = putchar_model(m1, s.last());
        (m2, b1 + b2)
    }
}

/// The bytes written for the first `j` characters of `s` come first among
/// those written for all of `s`.
pub proof fn lemma_putstr_prefix(m: LcdModel, s: Seq<char>, j: int) -> (tail: Seq<u8>)
    requires
        0 <= j <= s.len(),
    ensures
        putstr_model(m, s).1 == putstr_model(m, s.take(j)).1 + tail,
    decreases s.len(),
{
    if j == s.len() {
        assert(s.take(j) =~= s);
        assert(putstr_model(m, s).1 =~= putstr_model(m, s).1 + Seq::<u8>::empty());
        Seq::empty()
    } else {
        let t = lemma_putstr_prefix(m, s.drop_last(), j);
        assert(s.drop_last().take(j) =~= s.take(j));
        let b2 = putchar_model(putstr_model(m, s.drop_last()).0, s.last()).1;
        assert(putstr_model(m, s).1 =~= putstr_model(m, s.take(j)).1 + (t + b2));
        t + b2
    }
}

/// The value of a hexadecimal digit byte.
pub open spec fn hex_digit(b: u8) -> Option<u8> {
    if 48 <= b <= 57 {
        Some((b - 48) as u8)
    } else if 97 <= b <= 102 {
        Some((b - 87) as u8)
    } else if 65 <= b <= 70 {
        Some((b - 55) as u8)
    } else {
        None
    }
}

/// Whether `bytes` starts with a `{0xNN}` placeholder.
pub open spec fn placeholder_at(bytes: Seq<u8>) -> Option<u8> {
    if bytes.len() >= 6 && bytes[0] == 123u8 && bytes[1] == 48u8 && (bytes[2] == 120u8
        || bytes[2] == 88u8) && bytes[5] == 125u8 && hex_digit(bytes[3]) is Some && hex_digit(
        bytes[4],
    ) is Some {
        Some((hex_digit(bytes[3])->0 * 16 + hex_digit(bytes[4])->0) as u8)
    } else {
        None
    }
}

/// The characters that extended text writes: each `{0xNN}` placeholder is
/// the byte it names, every other byte is written as it is.
pub open spec fn extended_chars(bytes: Seq<u8>) -> Seq<char>
    decreases bytes.len(),
{
    if bytes.len() == 0 {
        Seq::empty()
    } else {
        match placeholder_at(bytes) {
            Some(v) => seq![v as char] + extended_chars(bytes.subrange(6, bytes.len() as int)),
            None => seq![bytes[0] as char] + extended_chars(bytes.subrange(1, bytes.len() as int)),
        }
    }
}

/// The bytes that bring up the display after power-on: a zero byte, the
/// reset nibbles, function set, display off, clear and home, entry mode,
/// display on.
pub open spec fn init_bytes(two_lines: bool) -> Seq<u8> {
    let function: u8 = if two_lines {
        0x28u8
    } else {
        0x20u8
    };
    seq![0u8] + init_nibble_bytes(0x30) + init_nibble_bytes(0x30) + init_nibble_bytes(0x30)
        + init_nibble_bytes(0x20) + command_bytes(8, function) + command_bytes(8, 0x08)
        + command_bytes(8, 0x01) + command_bytes(8, 0x02) + command_bytes(8, 0x06) + command_bytes(
        8,
        0x0c,
    )
}

/// The value of one bitmap row: `1` or `#` sets the bit of its column,
/// leftmost column highest.
pub open spec fn bitmap_row_value(row: Seq<char>) -> nat
    decreases row.len(),
{
    if row.len() == 0 {
        0
    } else {
        let k = (row.len() - 1) as nat;
        bitmap_row_value(row.drop_last()) + if row.last() == '1' || row.last() == '#' {
            vstd::arithmetic::power2::pow2((4 - k) as nat)
        } else {
            0
        }
    }
}

/// The pattern of a bitmap given as eight rows.
pub open spec fn bitmap_pattern(rows: Seq<&str>) -> Seq<u8> {
    Seq::new(8, |k: int| bitmap_row_value(rows[k]@) as u8)
}

/// Whether every row of a bitmap has at most five bytes.
pub open spec fn bitmap_rows_fit(rows: Seq<&str>) -> bool {
    forall|k: int| 0 <= k < rows.len() ==> (#[trigger] rows[k]).spec_bytes().len() <= 5
}

/// The state and bytes after storing `pattern` in CGRAM slot `location & 7`
/// and putting the cursor back.
pub open spec fn custom_char_model(m: LcdModel, location: u8, pattern: Seq<u8>) -> (LcdModel, Seq<u8>) {
    let mask = backlight_bits(m.backlight);
    let (m2, b2) = move_model(m, m.x, m.y);
    (m2, command_bytes(mask, 0x40u8 | ((location & 7u8) << 3u8)) + pattern_bytes(mask, pattern) + b2)
}

/// The state and bytes after storing the first `n` bitmaps in slots 0, 1, ...
pub open spec fn custom_bitmaps_model(m: LcdModel, bitmaps: Seq<[&str; 8]>, n: nat) -> (LcdModel, Seq<u8>)
    decreases n,
{
    if n == 0 {
        (m, Seq::empty())
    } else {
        let (m1, b1) = custom_bitmaps_model(m, bitmaps, (n - 1) as nat);
        let (m2, b2) = custom_char_model(m1, (n - 1) as u8, bitmap_pattern(bitmaps[n - 1]@));
        (m2, b1 + b2)
    }
}

/// Whether, going from `(s0, f0)` to `(s1, f1)` (the bytes the bus took,
/// and the bytes it refused with the error it gave), `bytes` were handed to
/// the bus in order: all of them taken when `r` is `Ok`; otherwise taken up
/// to the one the bus refused, with the error that `r` carries, and none
/// after it.
pub open spec fn sent_in_order(
    s0: Seq<u8>,
    f0: Seq<(u8, Error)>,
    s1: Seq<u8>,
    f1: Seq<(u8, Error)>,
    bytes: Seq<u8>,
    r: Result<()>,
) -> bool {
    match r {
        Ok(_) => s1 == s0 + bytes && f1 == f0,
        Err(e) => {
            let k = s1.len() - s0.len();
            &&& 0 <= k < bytes.len()
            &&& s1 == s0 + bytes.take(k)
            &&& f1 == f0.push((bytes[k], e))
        },
    }
}

/// Sending `b1`, then `b2`, is sending `b1 + b2`.
proof fn lemma_sent_then(
    s0: Seq<u8>,
    f0: Seq<(u8, Error)>,
    s1: Seq<u8>,
    f1: Seq<(u8, Error)>,
    s2: Seq<u8>,
    f2: Seq<(u8, Error)>,
    b1: Seq<u8>,
    b2: Seq<u8>,
    r: Result<()>,
)
    requires
        sent_in_order(s0, f0, s1, f1, b1, Ok(())),
        sent_in_order(s1, f1, s2, f2, b2, r),
    ensures
        sent_in_order(s0, f0, s2, f2, b1 + b2, r),
{
    match r {
        Ok(_) => {
            assert(s2 =~= s0 + (b1 + b2));
        },
        Err(e) => {
            let k = s2.len() - s1.len();
            assert((b1 + b2).take(b1.len() + k) =~= b1 + b2.take(k));
            assert((b1 + b2)[b1.len() + k] == b2[k]);
            assert(s2 =~= s0 + (b1 + b2).take(b1.len() + k));
        },
    }
}

/// A refusal while sending `b1` ends the sending of `b1 + b2` there.
proof fn lemma_sent_stopped(
    s0: Seq<u8>,
    f0: Seq<(u8, Error)>,
    s1: Seq<u8>,
    f1: Seq<(u8, Error)>,
    b1: Seq<u8>,
    b2: Seq<u8>,
    e: Error,
)
    requires
        sent_in_order(s0, f0, s1, f1, b1, Err(e)),
    ensures
        sent_in_order(s0, f0, s1, f1, b1 + b2, Err(e)),
{
    let k = s1.len() - s0.len();
    assert((b1 + b2).take(k) =~= b1.take(k));
    assert((b1 + b2)[k] == b1[k]);
}

/// HD44780 driver that targets a PCF8574 backpack in 4-bit mode.
pub struct Hd44780<B: I2cBus> {
    bus: B,
    addr: u8,
    cols: u8,
    rows: u8,
    cursor_x: u8,
    cursor_y: u8,
    implied_newline: bool,
    backlight: Backlight,
    sent: Ghost<Seq<u8>>,
    refused: Ghost<Seq<(u8, Error)>>,
}

impl<B: I2cBus> Hd44780<B> {
    /// The driver's state.
    pub closed spec fn model(&self) -> LcdModel {
        LcdModel {
            addr: self.addr,
            cols: self.cols,
            rows: self.rows,
            x: self.cursor_x,
            y: self.cursor_y,
            implied: self.implied_newline,
            backlight: self.backlight,
        }
    }

    /// Every byte handed to the bus so far, in order.
    pub closed spec fn sent(&self) -> Seq<u8> {
        self.sent@
    }

    /// Every byte the bus refused so far, with the error it gave, in order.
    pub closed spec fn refused(&self) -> Seq<(u8, Error)> {
        self.refused@
    }

    /// Whether `bytes` went to the bus in order between `self` and `after`,
    /// as `r` tells (see `sent_in_order`).
    pub open spec fn sends(self, after: Self, bytes: Seq<u8>, r: Result<()>) -> bool {
        sent_in_order(self.sent(), self.refused(), after.sent(), after.refused(), bytes, r)
    }

    /// The driver's invariant: at most 40 columns and 4 rows, the cursor on
    /// an existing row.
    pub open spec fn inv(&self) -> bool {
        &&& self.model().cols <= 40
        &&& self.model().rows <= 4
        &&& self.model().y < rows_or_one(self.model().rows)
    }

    /// The bus.
    pub fn bus(&self) -> &B {
        &self.bus
    }

    /// The cursor's column and row.
    pub fn cursor(&self) -> (r: (u8, u8))
        ensures
            r == (self.model().x, self.model().y),
    {
        (self.cursor_x, self.cursor_y)
    }

    fn send(&mut self, byte: u8) -> (r: Result<()>)
        ensures
            final(self).model() == old(self).model(),
            old(self).sends(*final(self), seq![byte], r),
    {
        match self.bus.write_byte(self.addr, byte) {
            Ok(()) => {
                proof {
                    self.sent@ = self.sent@.push(byte);
                }
                assert(self.sent() =~= old(self).sent() + seq![byte]);
                Ok(())
            },
            Err(e) => {
                proof {
                    self.refused@ = self.refused@.push((byte, e));
                }
                assert(self.sent() =~= old(self).sent() + seq![byte].take(0));
                Err(e)
            },
        }
    }

    fn backlight_mask(&self) -> (r: u8)
        ensures
            r == backlight_bits(self.model().backlight),
    {
        match self.backlight {
            Backlight::On => BACKLIGHT_BIT,
            Backlight::Off => 0,
        }
    }

    fn write_nibble(&mut self, nibble: u8, is_data: bool) -> (r: Result<()>)
        ensures
            final(self).model() == old(self).model(),
            old(self).sends(
                *final(self),
                nibble_bytes(backlight_bits(old(self).model().backlight), is_data, nibble),
                r,
            ),
    {
        let mut byte = self.backlight_mask();
        if is_data {
            byte = byte | MASK_RS;
        } else {
            byte = byte | 0;
        }
        byte = byte | ((nibble >> 4) << SHIFT_DATA);
        assert(seq![byte | MASK_E] + seq![byte] =~= nibble_bytes(
            backlight_bits(old(self).model().backlight),
            is_data,
            nibble,
        ));
        self.send_pair(byte | MASK_E, byte)
    }

    /// Sends `first`, then (unless the bus refused it) `second`.
    fn send_pair(&mut self, first: u8, second: u8) -> (r: Result<()>)
        ensures
            final(self).model() == old(self).model(),
            old(self).sends(*final(self), seq![first] + seq![second], r),
    {
        let ghost (s0, f0) = (self.sent(), self.refused());
        match self.send(first) {
            Ok(()) => {},
            Err(e) => {
                proof {
                    lemma_sent_stopped(s0, f0, self.sent(), self.refused(), seq![first], seq![second], e);
                }
                return Err(e);
            },
        }
        let ghost (s1, f1) = (self.sent(), self.refused());
        let r = self.send(second);
        proof {
            lemma_sent_then(s0, f0, s1, f1, self.sent(), self.refused(), seq![first], seq![second], r);
        }
        r
    }

    fn write_init_nibble(&mut self, nibble: u8) -> (r: Result<()>)
        ensures
            final(self).model() == old(self).model(),
            old(self).sends(*final(self), init_nibble_bytes(nibble), r),
    {
        let byte = ((nibble >> 4) & 0x0f) << SHIFT_DATA;
        assert(seq![byte | MASK_E] + seq![byte] =~= init_nibble_bytes(nibble));
        self.send_pair(byte | MASK_E, byte)
    }

    fn write_command(&mut self, cmd: u8) -> (r: Result<()>)
        ensures
            final(self).model() == old(self).model(),
            old(self).sends(*final(self), command_bytes(backlight_bits(old(self).model().backlight), cmd), r),
    {
        let ghost mask = backlight_bits(old(self).model().backlight);
        let ghost (s0, f0) = (self.sent(), self.refused());
        match self.write_nibble(cmd, false) {
            Ok(()) => {},
            Err(e) => {
                proof {
                    lemma_sent_stopped(s0, f0, self.sent(), self.refused(), nibble_bytes(mask, false, cmd), nibble_bytes(mask, false, cmd << 4u8), e);
                }
                return Err(e);
            },
        }
        let ghost (s1, f1) = (self.sent(), self.refused());
        let r = self.write_nibble(cmd << 4, false);
        proof {
            lemma_sent_then(s0, f0, s1, f1, self.sent(), self.refused(), nibble_bytes(mask, false, cmd), nibble_bytes(mask, false, cmd << 4u8), r);
        }
        if r.is_ok() && cmd <= 3 {
            self.bus.delay_us(5000);
        }
        r
    }

    fn write_data(&mut self, data: u8) -> (r: Result<()>)
        ensures
            final(self).model() == old(self).model(),
            old(self).sends(*final(self), data_bytes(backlight_bits(old(self).model().backlight), data), r),
    {
        let ghost mask = backlight_bits(old(self).model().backlight);
        let ghost (s0, f0) = (self.sent(), self.refused());
        match self.write_nibble(data, true) {
            Ok(()) => {},
            Err(e) => {
                proof {
                    lemma_sent_stopped(s0, f0, self.sent(), self.refused(), nibble_bytes(mask, true, data), nibble_bytes(mask, true, data << 4u8), e);
                }
                return Err(e);
            },
        }
        let ghost (s1, f1) = (self.sent(), self.refused());
        let r = self.write_nibble(data << 4, true);
        proof {
            lemma_sent_then(s0, f0, s1, f1, self.sent(), self.refused(), nibble_bytes(mask, true, data), nibble_bytes(mask, true, data << 4u8), r);
        }
        r
    }

    /// Creates and initialises the display (backlight on), clamping the
    /// geometry to 40 columns and 4 rows.
    pub fn new(bus: B, addr: u8, cols: u8, rows: u8) -> (r: Result<Self>)
        ensures
            r matches Ok(d) ==> d.inv() && d.model() == (LcdModel {
                addr,
                cols: if cols > 40 {
                    40
                } else {
                    cols
                },
                rows: if rows > 4 {
                    4
                } else {
                    rows
                },
                x: 0,
                y: 0,
                implied: false,
                backlight: Backlight::On,
            }) && d.sent() == init_bytes(rows > 1) && d.refused() == Seq::<(u8, Error)>::empty(),
    {
        let mut driver = Hd44780 {
            bus,
            addr,
            cols: if cols > 40 {
                40
            } else {
                cols
            },
            rows: if rows > 4 {
                4
            } else {
                rows
            },
            cursor_x: 0,
            cursor_y: 0,
            implied_newline: false,
            backlight: Backlight::On,
            sent: Ghost(Seq::empty()),
            refused: Ghost(Seq::empty()),
        };
        driver.send(0)?;
        driver.bus.delay_us(20_000);
        driver.write_init_nibble(LCD_FUNCTION_RESET)?;
        driver.bus.delay_us(5_000);
        driver.write_init_nibble(LCD_FUNCTION_RESET)?;
        driver.bus.delay_us(1_000);
        driver.write_init_nibble(LCD_FUNCTION_RESET)?;
        driver.bus.delay_us(1_000);
        driver.write_init_nibble(LCD_FUNCTION)?;
        driver.bus.delay_us(1_000);
        let mut cmd = LCD_FUNCTION;
        if rows > 1 {
            cmd = cmd | LCD_FUNCTION_2LINES;
        }
        assert(cmd == if rows > 1 {
            0x28u8
        } else {
            0x20u8
        }) by (bit_vector)
            requires
                cmd == if rows > 1 {
                    0x20u8 | 0x08u8
                } else {
                    0x20u8
                },
        ;
        driver.write_command(cmd)?;
        driver.write_command(LCD_ON_CTRL)?;
        driver.write_command(LCD_CLR)?;
        driver.write_command(LCD_HOME)?;
        driver.write_command(LCD_ENTRY_RIGHT)?;
        driver.write_command(LCD_DISPLAY_ON)?;
        assert(driver.sent() =~= init_bytes(rows > 1));
        Ok(driver)
    }

    /// Clears the display and homes the cursor.
    pub fn clear(&mut self) -> (r: Result<()>)
        requires
            old(self).inv(),
        ensures
            final(self).inv(),
            old(self).sends(
                *final(self),
                command_bytes(backlight_bits(old(self).model().backlight), LCD_CLR)
                    + command_bytes(backlight_bits(old(self).model().backlight), LCD_HOME),
                r,
            ),
            r is Ok ==> final(self).model() == (LcdModel { x: 0, y: 0, ..old(self).model() }),
            r is Err ==> final(self).model() == old(self).model(),
    {
        let ghost mask = backlight_bits(old(self).model().backlight);
        let ghost (s0, f0) = (self.sent(), self.refused());
        match self.write_command(LCD_CLR) {
            Ok(()) => {},
            Err(e) => {
                proof {
                    lemma_sent_stopped(s0, f0, self.sent(), self.refused(), command_bytes(mask, LCD_CLR), command_bytes(mask, LCD_HOME), e);
                }
                return Err(e);
            },
        }
        let ghost (s1, f1) = (self.sent(), self.refused());
        let r = self.write_command(LCD_HOME);
        proof {
            lemma_sent_then(s0, f0, s1, f1, self.sent(), self.refused(), command_bytes(mask, LCD_CLR), command_bytes(mask, LCD_HOME), r);
        }
        match r {
            Ok(()) => {
                self.cursor_x = 0;
                self.cursor_y = 0;
                Ok(())
            },
            Err(e) => Err(e),
        }
    }

    /// Sends one display-control command.
    fn control(&mut self, cmd: u8) -> (r: Result<()>)
        requires
            old(self).inv(),
        ensures
            final(self).inv(),
            final(self).model() == old(self).model(),
            old(self).sends(*final(self), command_bytes(backlight_bits(old(self).model().backlight), cmd), r),
    {
        self.write_command(cmd)
    }

    /// Display on, cursor hidden.
    pub fn display_on(&mut self) -> (r: Result<()>)
        requires
            old(self).inv(),
        ensures
            final(self).inv(),
            final(self).model() == old(self).model(),
            old(self).sends(*final(self), command_bytes(backlight_bits(old(self).model().backlight), 0x0c), r),
    {
        self.control(LCD_DISPLAY_ON)
    }

    /// Display off.
    pub fn display_off(&mut self) -> (r: Result<()>)
        requires
            old(self).inv(),
        ensures
            final(self).inv(),
            final(self).model() == old(self).model(),
            old(self).sends(*final(self), command_bytes(backlight_bits(old(self).model().backlight), 0x08), r),
    {
        self.control(LCD_ON_CTRL)
    }

    /// Display on, cursor shown.
    pub fn show_cursor(&mut self) -> (r: Result<()>)
        requires
            old(self).inv(),
        ensures
            final(self).inv(),
            final(self).model() == old(self).model(),
            old(self).sends(*final(self), command_bytes(backlight_bits(old(self).model().backlight), 0x0e), r),
    {
        self.control(LCD_CURSOR_ON)
    }

    /// Display on, cursor hidden.
    pub fn hide_cursor(&mut self) -> (r: Result<()>)
        requires
            old(self).inv(),
        ensures
            final(self).inv(),
            final(self).model() == old(self).model(),
            old(self).sends(*final(self), command_bytes(backlight_bits(old(self).model().backlight), 0x0c), r),
    {
        self.control(LCD_DISPLAY_ON)
    }

    /// Display on, cursor shown and blinking.
    pub fn blink_cursor_on(&mut self) -> (r: Result<()>)
        requires
            old(self).inv(),
        ensures
            final(self).inv(),
            final(self).model() == old(self).model(),
            old(self).sends(*final(self), command_bytes(backlight_bits(old(self).model().backlight), 0x0f), r),
    {
        self.control(LCD_BLINK_ON)
    }

    /// Stops the blinking (and hides the cursor).
    pub fn blink_cursor_off(&mut self) -> (r: Result<()>)
        requires
            old(self).inv(),
        ensures
            final(self).inv(),
            final(self).model() == old(self).model(),
            old(self).sends(*final(self), command_bytes(backlight_bits(old(self).model().backlight), 0x0c), r),
    {
        self.hide_cursor()
    }

    /// Turns the backlight on.
    pub fn backlight_on(&mut self) -> (r: Result<()>)
        requires
            old(self).inv(),
        ensures
            final(self).inv(),
            final(self).model() == (LcdModel { backlight: Backlight::On, ..old(self).model() }),
            old(self).sends(*final(self), seq![8u8], r),
    {
        self.backlight = Backlight::On;
        self.send(BACKLIGHT_BIT)
    }

    /// Turns the backlight off.
    pub fn backlight_off(&mut self) -> (r: Result<()>)
        requires
            old(self).inv(),
        ensures
            final(self).inv(),
            final(self).model() == (LcdModel { backlight: Backlight::Off, ..old(self).model() }),
            old(self).sends(*final(self), seq![0u8], r),
    {
        self.backlight = Backlight::Off;
        self.send(0)
    }

    /// Moves the cursor to column `cursor_x` of row `cursor_y` (taken
    /// modulo the number of rows).
    pub fn move_to(&mut self, cursor_x: u8, cursor_y: u8) -> (r: Result<()>)
        requires
            old(self).inv(),
        ensures
            final(self).inv(),
            final(self).model() == move_model(old(self).model(), cursor_x, cursor_y).0,
            old(self).sends(*final(self), move_model(old(self).model(), cursor_x, cursor_y).1, r),
    {
        let rows: u8 = if self.rows == 0 {
            1
        } else {
            self.rows
        };
        self.cursor_x = cursor_x;
        self.cursor_y = cursor_y % rows;
        let y = self.cursor_y;
        let cols = self.cols;
        let base: u8 = cursor_x & 0x3f;
        assert(base <= 63) by (bit_vector)
            requires
                base == cursor_x & 0x3f,
        ;
        let with_row: u8 = if y & 1 == 1 {
            base + 0x40
        } else {
            base
        };
        let full: u8 = if y & 2 == 2 {
            with_row + cols
        } else {
            with_row
        };
        self.write_command(LCD_DDRAM | full)
    }

    /// Writes one character at the cursor.
    pub fn putchar(&mut self, ch: char) -> (r: Result<()>)
        requires
            old(self).inv(),
        ensures
            final(self).inv(),
            old(self).sends(*final(self), putchar_model(old(self).model(), ch).1, r),
            r is Ok ==> final(self).model() == putchar_model(old(self).model(), ch).0,
            r is Err ==> final(self).model() == if ch != '\n' && final(self).sent().len()
                - old(self).sent().len() < 4 {
                old(self).model()
            } else {
                putchar_model(old(self).model(), ch).0
            },
    {
        let ghost m0 = self.model();
        let ghost mask = backlight_bits(m0.backlight);
        let ghost (s0, f0) = (self.sent(), self.refused());
        let ghost wraps: bool = (if ch == '\n' {
            if m0.implied {
                m0.x as int
            } else {
                m0.cols as int
            }
        } else {
            m0.x + 1
        }) >= m0.cols;
        let x1: u16 = if ch == '\n' {
            if self.implied_newline {
                self.cursor_x as u16
            } else {
                self.cols as u16
            }
        } else {
            match self.write_data(ch as u8) {
                Ok(()) => {},
                Err(e) => {
                    proof {
                        if wraps {
                            let y2 = ((m0.y + 1) % (rows_or_one(m0.rows) as int)) as u8;
                            lemma_sent_stopped(
                                s0,
                                f0,
                                self.sent(),
                                self.refused(),
                                data_bytes(mask, ch as u8),
                                command_bytes(mask, ddram_command(m0.cols, 0, y2)),
                                e,
                            );
                        }
                    }
                    return Err(e);
                },
            }
            self.cursor_x as u16 + 1
        };
        let ghost out: Seq<u8> = if ch == '\n' {
            Seq::empty()
        } else {
            data_bytes(mask, ch as u8)
        };
        let ghost (s1, f1) = (self.sent(), self.refused());
        assert(self.sent() =~= s0 + out);
        if x1 >= self.cols as u16 {
            let rows: u8 = if self.rows == 0 {
                1
            } else {
                self.rows
            };
            let y2: u8 = ((self.cursor_y as u16 + 1) % (rows as u16)) as u8;
            self.cursor_x = 0;
            self.cursor_y = y2;
            self.implied_newline = ch != '\n';
            proof {
                vstd::arithmetic::div_mod::lemma_mod_pos_bound(
                    self.model().y as int + 1,
                    rows as int,
                );
                vstd::arithmetic::div_mod::lemma_small_mod(y2 as nat, rows as nat);
            }
            let r = self.move_to(0, y2);
            proof {
                lemma_sent_then(
                    s0,
                    f0,
                    s1,
                    f1,
                    self.sent(),
                    self.refused(),
                    out,
                    command_bytes(mask, ddram_command(m0.cols, 0, y2)),
                    r,
                );
            }
            r
        } else {
            self.cursor_x = x1 as u8;
            self.implied_newline = false;
            assert(out =~= out + Seq::<u8>::empty());
            Ok(())
        }
    }

    /// Writes each character of `text` in turn, stopping at the first the
    /// bus refuses.
    pub fn putstr(&mut self, text: &str) -> (r: Result<()>)
        requires
            old(self).inv(),
        ensures
            final(self).inv(),
            old(self).sends(*final(self), putstr_model(old(self).model(), text@).1, r),
            r is Ok ==> final(self).model() == putstr_model(old(self).model(), text@).0,
            r is Err ==> exists|j: int|
                0 <= j <= text@.len() && final(self).model() == #[trigger] putstr_model(
                    old(self).model(),
                    text@.take(j),
                ).0,
    {
        let n = text.unicode_len();
        let mut i: usize = 0;
        let ghost m0 = self.model();
        let ghost s0 = self.sent();
        let ghost f0 = self.refused();
        while i < n
            invariant
                n == text@.len(),
                i <= n,
                self.inv(),
                self.model() == putstr_model(m0, text@.take(i as int)).0,
                self.sent() == s0 + putstr_model(m0, text@.take(i as int)).1,
                self.refused() == f0,
                m0 == old(self).model(),
                s0 == old(self).sent(),
                f0 == old(self).refused(),
            decreases n - i,
        {
            let ch = text.get_char(i);
            assert(text@.take(i + 1).drop_last() =~= text@.take(i as int));
            let ghost (si, fi, mi) = (self.sent(), self.refused(), self.model());
            match self.putchar(ch) {
                Ok(()) => {},
                Err(e) => {
                    proof {
                        let bi = putstr_model(m0, text@.take(i as int)).1;
                        assert(sent_in_order(s0, f0, si, fi, bi, Ok(())));
                        lemma_sent_then(s0, f0, si, fi, self.sent(), self.refused(), bi, putchar_model(mi, ch).1, Err(e));
                        let tail = lemma_putstr_prefix(m0, text@, i + 1);
                        lemma_sent_stopped(s0, f0, self.sent(), self.refused(), putstr_model(m0, text@.take(i + 1)).1, tail, e);
                        if self.model() == mi {
                            assert(self.model() == putstr_model(m0, text@.take(i as int)).0);
                        } else {
                            assert(self.model() == putstr_model(m0, text@.take(i + 1)).0);
                        }
                    }
                    return Err(e);
                },
            }
            assert(self.sent() =~= s0 + putstr_model(m0, text@.take(i + 1)).1);
            i = i + 1;
        }
        assert(text@.take(n as int) =~= text@);
        Ok(())
    }

    /// Writes `text` at the start of `row`, wrapping as `putchar` does.
    pub fn write_line(&mut self, row: u8, text: &str) -> (r: Result<()>)
        requires
            old(self).inv(),
        ensures
            final(self).inv(),
            old(self).sends(
                *final(self),
                move_model(old(self).model(), 0, row).1 + putstr_model(
                    move_model(old(self).model(), 0, row).0,
                    text@,
                ).1,
                r,
            ),
            r is Ok ==> final(self).model() == putstr_model(move_model(old(self).model(), 0, row).0, text@).0,
            r is Err ==> exists|j: int|
                0 <= j <= text@.len() && final(self).model() == #[trigger] putstr_model(
                    move_model(old(self).model(), 0, row).0,
                    text@.take(j),
                ).0,
    {
        let ghost (s0, f0, m0) = (self.sent(), self.refused(), self.model());
        let ghost m1 = move_model(m0, 0, row).0;
        let ghost b1 = move_model(m0, 0, row).1;
        match self.move_to(0, row) {
            Ok(()) => {},
            Err(e) => {
                proof {
                    lemma_sent_stopped(s0, f0, self.sent(), self.refused(), b1, putstr_model(m1, text@).1, e);
                    assert(text@.take(0) =~= Seq::<char>::empty());
                    assert(self.model() == putstr_model(m1, text@.take(0)).0);
                }
                return Err(e);
            },
        }
        let ghost (s1, f1) = (self.sent(), self.refused());
        let r = self.putstr(text);
        proof {
            lemma_sent_then(s0, f0, s1, f1, self.sent(), self.refused(), b1, putstr_model(m1, text@).1, r);
        }
        r
    }

    /// Writes text in which `{0xNN}` stands for the byte `NN` (a custom
    /// character, say); every other byte is written as it is.
    pub fn putstr_extended(&mut self, text: &str) -> (r: Result<()>)
        requires
            old(self).inv(),
        ensures
            final(self).inv(),
            old(self).sends(
                *final(self),
                putstr_model(old(self).model(), extended_chars(text.spec_bytes())).1,
                r,
            ),
            r is Ok ==> final(self).model() == putstr_model(
                old(self).model(),
                extended_chars(text.spec_bytes()),
            ).0,
            r is Err ==> exists|j: int|
                0 <= j <= extended_chars(text.spec_bytes()).len() && final(self).model()
                    == #[trigger] putstr_model(
                    old(self).model(),
                    extended_chars(text.spec_bytes()).take(j),
                ).0,
    {
        let bytes = text.as_bytes();
        let ghost all = bytes@;
        let ghost m0 = self.model();
        let ghost s0 = self.sent();
        let ghost f0 = self.refused();
        let mut idx: usize = 0;
        let ghost written: Seq<char> = Seq::empty();
        assert(all.subrange(0, all.len() as int) =~= all);
        assert(written + extended_chars(all) =~= extended_chars(all));
        while idx < bytes.len()
            invariant
                all == bytes@,
                idx <= all.len(),
                self.inv(),
                written + extended_chars(all.subrange(idx as int, all.len() as int))
                    == extended_chars(all),
                self.model() == putstr_model(m0, written).0,
                self.sent() == s0 + putstr_model(m0, written).1,
                self.refused() == f0,
                m0 == old(self).model(),
                s0 == old(self).sent(),
                f0 == old(self).refused(),
                all == text.spec_bytes(),
            decreases all.len() - idx,
        {
            let ghost rest = all.subrange(idx as int, all.len() as int);
            let mut ch: char = bytes[idx] as char;
            let mut step: usize = 1;
            if bytes[idx] == 123 && bytes.len() - idx >= 6 && bytes[idx + 1] == 48 && (bytes[idx
                + 2] == 120 || bytes[idx + 2] == 88) && bytes[idx + 5] == 125 {
                match (from_hex(bytes[idx + 3]), from_hex(bytes[idx + 4])) {
                    (Some(h1), Some(h2)) => {
                        let value: u8 = h1 * 16 + h2;
                        ch = value as char;
                        step = 6;
                    },
                    _ => {},
                }
            }
            assert(rest[0] == bytes@[idx as int]);
            if step == 6 {
                assert(rest[1] == bytes@[idx + 1]);
                assert(rest[2] == bytes@[idx + 2]);
                assert(rest[3] == bytes@[idx + 3]);
                assert(rest[4] == bytes@[idx + 4]);
                assert(rest[5] == bytes@[idx + 5]);
                assert(placeholder_at(rest) == Some(ch as u8));
            } else {
                assert(placeholder_at(rest) is None) by {
                    if rest.len() >= 6 {
                        assert(rest[1] == bytes@[idx + 1]);
                        assert(rest[2] == bytes@[idx + 2]);
                        assert(rest[3] == bytes@[idx + 3]);
                        assert(rest[4] == bytes@[idx + 4]);
                        assert(rest[5] == bytes@[idx + 5]);
                    }
                }
            }
            assert(rest.subrange(step as int, rest.len() as int) =~= all.subrange(
                idx + step,
                all.len() as int,
            ));
            let ghost next = written.push(ch);
            assert(next.drop_last() =~= written);
            assert(next + extended_chars(all.subrange(idx + step, all.len() as int))
                =~= written + extended_chars(rest));
            let ghost (si, fi, mi) = (self.sent(), self.refused(), self.model());
            match self.putchar(ch) {
                Ok(()) => {},
                Err(e) => {
                    proof {
                        let x = extended_chars(all);
                        assert(x.take(next.len() as int) =~= next);
                        assert(x.take(written.len() as int) =~= written);
                        let bi = putstr_model(m0, written).1;
                        assert(sent_in_order(s0, f0, si, fi, bi, Ok(())));
                        lemma_sent_then(s0, f0, si, fi, self.sent(), self.refused(), bi, putchar_model(mi, ch).1, Err(e));
                        let tail = lemma_putstr_prefix(m0, x, next.len() as int);
                        lemma_sent_stopped(s0, f0, self.sent(), self.refused(), putstr_model(m0, next).1, tail, e);
                        if self.model() == mi {
                            assert(self.model() == putstr_model(m0, x.take(written.len() as int)).0);
                        } else {
                            assert(self.model() == putstr_model(m0, x.take(next.len() as int)).0);
                        }
                    }
                    return Err(e);
                },
            }
            assert(self.sent() =~= s0 + putstr_model(m0, next).1);
            proof {
                written = next;
            }
            idx = idx + step;
        }
        assert(all.subrange(idx as int, all.len() as int) =~= Seq::<u8>::empty());
        assert(written + Seq::<char>::empty() =~= written);
        Ok(())
    }

    /// Stores a custom character pattern in CGRAM slot `location & 7`, then
    /// puts the cursor back.
    pub fn custom_char(&mut self, location: u8, pattern: &[u8; 8]) -> (r: Result<()>)
        requires
            old(self).inv(),
        ensures
            final(self).inv(),
            old(self).sends(*final(self), custom_char_model(old(self).model(), location, pattern@).1, r),
            r is Ok ==> final(self).model() == custom_char_model(old(self).model(), location, pattern@).0,
            final(self).model().x == old(self).model().x,
            final(self).model().y == old(self).model().y,
            r is Err ==> final(self).model() == old(self).model(),
    {
        let loc = location & 0x7;
        let ghost (s0, f0, m0) = (self.sent(), self.refused(), self.model());
        let ghost mask = backlight_bits(self.model().backlight);
        let ghost cmd = command_bytes(mask, 0x40u8 | ((location & 7u8) << 3u8));
        let ghost mv = move_model(m0, m0.x, m0.y).1;
        assert(custom_char_model(m0, location, pattern@).1 =~= cmd + (pattern_bytes(mask, pattern@) + mv));
        match self.write_command(LCD_CGRAM | (loc << 3)) {
            Ok(()) => {},
            Err(e) => {
                proof {
                    lemma_sent_stopped(s0, f0, self.sent(), self.refused(), cmd, pattern_bytes(mask, pattern@) + mv, e);
                }
                return Err(e);
            },
        }
        self.bus.delay_us(40);
        let ghost after_cmd = self.sent();
        let mut i: usize = 0;
        while i < 8
            invariant
                i <= 8,
                self.inv(),
                self.model() == old(self).model(),
                self.sent() == after_cmd + pattern_bytes(mask, pattern@.take(i as int)),
                self.refused() == f0,
                after_cmd == s0 + cmd,
                mask == backlight_bits(self.model().backlight),
                m0 == old(self).model(),
                s0 == old(self).sent(),
                f0 == old(self).refused(),
                custom_char_model(m0, location, pattern@).1 == cmd + (pattern_bytes(mask, pattern@) + mv),
            decreases 8 - i,
        {
            let ghost si = self.sent();
            assert(pattern@.take(i + 1).drop_last() =~= pattern@.take(i as int));
            match self.write_data(pattern[i]) {
                Ok(()) => {},
                Err(e) => {
                    proof {
                        let pi = cmd + pattern_bytes(mask, pattern@.take(i as int));
                        assert(si =~= s0 + pi);
                        lemma_sent_then(s0, f0, si, f0, self.sent(), self.refused(), pi, data_bytes(mask, pattern@[i as int]), Err(e));
                        let tail = lemma_pattern_prefix(mask, pattern@, i + 1);
                        assert(pi + data_bytes(mask, pattern@[i as int]) =~= cmd + pattern_bytes(mask, pattern@.take(i + 1)));
                        lemma_sent_stopped(s0, f0, self.sent(), self.refused(), cmd + pattern_bytes(mask, pattern@.take(i + 1)), tail + mv, e);
                        assert(cmd + pattern_bytes(mask, pattern@.take(i + 1)) + (tail + mv) =~= cmd + (pattern_bytes(mask, pattern@) + mv));
                    }
                    return Err(e);
                },
            }
            self.bus.delay_us(40);
            assert(self.sent() =~= after_cmd + pattern_bytes(mask, pattern@.take(i + 1)));
            i = i + 1;
        }
        assert(pattern@.take(8) =~= pattern@);
        let x = self.cursor_x;
        let y = self.cursor_y;
        let ghost (s1, f1) = (self.sent(), self.refused());
        proof {
            vstd::arithmetic::div_mod::lemma_small_mod(y as nat, rows_or_one(self.model().rows) as nat);
            assert(s1 =~= s0 + (cmd + pattern_bytes(mask, pattern@)));
            assert(sent_in_order(s0, f0, s1, f1, cmd + pattern_bytes(mask, pattern@), Ok(())));
        }
        let r = self.move_to(x, y);
        proof {
            lemma_sent_then(s0, f0, s1, f1, self.sent(), self.refused(), cmd + pattern_bytes(mask, pattern@), mv, r);
            assert(cmd + pattern_bytes(mask, pattern@) + mv =~= cmd + (pattern_bytes(mask, pattern@) + mv));
        }
        r
    }

    /// Stores a bitmap given as eight rows of at most five characters
    /// (`1` or `#` for a lit pixel) in CGRAM slot `location & 7`.
    pub fn load_custom_bitmap(&mut self, location: u8, rows: [&str; 8]) -> (r: Result<()>)
        requires
            old(self).inv(),
        ensures
            final(self).inv(),
            !bitmap_rows_fit(rows@) ==> (r matches Err(Error::InvalidArgs(m)) && m@
                == "bitmap rows must be at most 5 characters"@) && final(self).sent() == old(
                self,
            ).sent() && final(self).refused() == old(self).refused(),
            bitmap_rows_fit(rows@) ==> old(self).sends(
                *final(self),
                custom_char_model(old(self).model(), location, bitmap_pattern(rows@)).1,
                r,
            ),
            r is Ok ==> bitmap_rows_fit(rows@) && final(self).model() == custom_char_model(
                old(self).model(),
                location,
                bitmap_pattern(rows@),
            ).0,
            r is Err ==> final(self).model() == old(self).model(),
    {
        let mut pattern: [u8; 8] = [0u8; 8];
        let mut i: usize = 0;
        while i < 8
            invariant
                i <= 8,
                self.inv(),
                self.model() == old(self).model(),
                self.sent() == old(self).sent(),
                self.refused() == old(self).refused(),
                pattern@.len() == 8,
                forall|k: int| 0 <= k < i ==> (#[trigger] rows@[k]).spec_bytes().len() <= 5,
                forall|k: int| 0 <= k < i ==> #[trigger] pattern@[k] == bitmap_row_value(rows@[k]@) as u8,
            decreases 8 - i,
        {
            let v = parse_bitmap_row(rows[i])?;
            pattern.set(i, v);
            i = i + 1;
        }
        assert(pattern@ =~= bitmap_pattern(rows@));
        self.custom_char(location, &pattern)
    }

    /// Stores the first eight (at most) bitmaps in CGRAM slots 0, 1, ...,
    /// stopping at the first that fails.
    pub fn load_custom_bitmaps(&mut self, bitmaps: &[[&str; 8]]) -> (r: Result<()>)
        requires
            old(self).inv(),
        ensures
            final(self).inv(),
            r is Ok ==> forall|k: int|
                0 <= k < bitmaps@.len() && k < 8 ==> bitmap_rows_fit(#[trigger] bitmaps@[k]@),
            r is Ok ==> ({
                let n: nat = if bitmaps@.len() < 8 { bitmaps@.len() } else { 8 };
                let (m, b) = custom_bitmaps_model(old(self).model(), bitmaps@, n);
                final(self).model() == m && final(self).sent() == old(self).sent() + b
                    && final(self).refused() == old(self).refused()
            }),
            r matches Err(e) ==> exists|j: nat|
                j < bitmaps@.len() && j < 8 && #[trigger] bitmaps_stopped(
                    old(self).model(),
                    old(self).sent(),
                    old(self).refused(),
                    bitmaps@,
                    j,
                    e,
                    final(self).model(),
                    final(self).sent(),
                    final(self).refused(),
                ),
    {
        let n: usize = if bitmaps.len() < 8 {
            bitmaps.len()
        } else {
            8
        };
        let ghost (s0, f0, m0) = (self.sent(), self.refused(), self.model());
        let mut idx: usize = 0;
        while idx < n
            invariant
                n <= 8,
                n <= bitmaps@.len(),
                n == (if bitmaps@.len() < 8 { bitmaps@.len() } else { 8 }),
                idx <= n,
                self.inv(),
                forall|k: int| 0 <= k < idx ==> bitmap_rows_fit(#[trigger] bitmaps@[k]@),
                self.model() == custom_bitmaps_model(m0, bitmaps@, idx as nat).0,
                self.sent() == s0 + custom_bitmaps_model(m0, bitmaps@, idx as nat).1,
                self.refused() == f0,
                m0 == old(self).model(),
                s0 == old(self).sent(),
                f0 == old(self).refused(),
            decreases n - idx,
        {
            let ghost before = self.sent();
            match self.load_custom_bitmap(idx as u8, bitmaps[idx]) {
                Ok(()) => {},
                Err(e) => {
                    proof {
                        assert(bitmaps_stopped(m0, s0, f0, bitmaps@, idx as nat, e, self.model(), self.sent(), self.refused()));
                    }
                    return Err(e);
                },
            }
            assert(self.sent() =~= s0 + custom_bitmaps_model(m0, bitmaps@, (idx + 1) as nat).1);
            idx = idx + 1;
        }
        Ok(())
    }
}

/// Whether `(m1, s1, f1)` is where storing `bitmaps` from `(m0, s0, f0)`
/// stops at bitmap `j` with the error `e`: the bitmaps before it fit and
/// were stored; bitmap `j` has a row that is too long (nothing more is
/// sent), or its storing was refused by the bus.
pub open spec fn bitmaps_stopped(
    m0: LcdModel,
    s0: Seq<u8>,
    f0: Seq<(u8, Error)>,
    bitmaps: Seq<[&str; 8]>,
    j: nat,
    e: Error,
    m1: LcdModel,
    s1: Seq<u8>,
    f1: Seq<(u8, Error)>,
) -> bool {
    let (mj, bj) = custom_bitmaps_model(m0, bitmaps, j);
    &&& forall|k: int| 0 <= k < j ==> bitmap_rows_fit(#[trigger] bitmaps[k]@)
    &&& m1 == mj
    &&& if bitmap_rows_fit(bitmaps[j as int]@) {
        sent_in_order(
            s0 + bj,
            f0,
            s1,
            f1,
            custom_char_model(mj, j as u8, bitmap_pattern(bitmaps[j as int]@)).1,
            Err(e),
        )
    } else {
        &&& e matches Error::InvalidArgs(msg) && msg@ == "bitmap rows must be at most 5 characters"@
        &&& s1 == s0 + bj
        &&& f1 == f0
    }
}

/// The eight data writes of a glyph pattern.
pub open spec fn pattern_bytes(mask: u8, p: Seq<u8>) -> Seq<u8>
    decreases p.len(),
{
    if p.len() == 0 {
        Seq::empty()
    } else {
        pattern_bytes(mask, p.drop_last()) + data_bytes(mask, p.last())
    }
}

/// The data writes of the first `j` rows of a pattern come first among
/// those of the whole pattern.
pub proof fn lemma_pattern_prefix(mask: u8, p: Seq<u8>, j: int) -> (tail: Seq<u8>)
    requires
        0 <= j <= p.len(),
    ensures
        pattern_bytes(mask, p) == pattern_bytes(mask, p.take(j)) + tail,
    decreases p.len(),
{
    if j == p.len() {
        assert(p.take(j) =~= p);
        assert(pattern_bytes(mask, p) =~= pattern_bytes(mask, p) + Seq::<u8>::empty());
        Seq::empty()
    } else {
        let t = lemma_pattern_prefix(mask, p.drop_last(), j);
        assert(p.drop_last().take(j) =~= p.take(j));
        assert(pattern_bytes(mask, p) =~= pattern_bytes(mask, p.take(j)) + (t + data_bytes(mask, p.last())));
        t + data_bytes(mask, p.last())
    }
}

/// The value of a hexadecimal digit byte (`0-9`, `a-f`, `A-F`).
pub fn from_hex(byte: u8) -> (r: Option<u8>)
    ensures
        r == hex_digit(byte),
{
    if 48 <= byte && byte <= 57 {
        Some(byte - 48)
    } else if 97 <= byte && byte <= 102 {
        Some(byte - 87)
    } else if 65 <= byte && byte <= 70 {
        Some(byte - 55)
    } else {
        None
    }
}

/// Reads one bitmap row: at most five characters (five bytes), where `1`
/// or `#` sets the pixel of its column, leftmost highest.
pub fn parse_bitmap_row(row: &str) -> (r: Result<u8>)
    ensures
        row.spec_bytes().len() > 5 ==> (r matches Err(Error::InvalidArgs(m)) && m@
            == "bitmap rows must be at most 5 characters"@),
        row.spec_bytes().len() <= 5 ==> (r matches Ok(v) && v as nat == bitmap_row_value(row@)),
{
    if row.as_bytes().len() > 5 {
        return Err(Error::InvalidArgs(String::from_str("bitmap rows must be at most 5 characters")));
    }
    let n = row.unicode_len();
    proof {
        lemma_char_count_at_most_bytes(row@);
    }
    let mut value: u8 = 0;
    let mut i: usize = 0;
    while i < n
        invariant
            n == row@.len(),
            n <= 5,
            i <= n,
            value as nat == bitmap_row_value(row@.take(i as int)),
            value as nat <= vstd::arithmetic::power2::pow2(5) - vstd::arithmetic::power2::pow2(
                (5 - i) as nat,
            ),
        decreases n - i,
    {
        let ch = row.get_char(i);
        assert(row@.take(i + 1).drop_last() =~= row@.take(i as int));
        proof {
            vstd::arithmetic::power2::lemma2_to64();
        }
        let bit: u8 = if i == 0 {
            16
        } else if i == 1 {
            8
        } else if i == 2 {
            4
        } else if i == 3 {
            2
        } else {
            1
        };
        assert(bit as nat == vstd::arithmetic::power2::pow2((4 - i) as nat));
        if ch == '1' || ch == '#' {
            value = value + bit;
        }
        i = i + 1;
    }
    assert(row@.take(n as int) =~= row@);
    Ok(value)
}

/// A string has no more characters than UTF-8 bytes.
pub proof fn lemma_char_count_at_most_bytes(s: Seq<char>)
    ensures
        s.len() <= vstd::utf8::encode_utf8(s).len(),
    decreases s.len(),
{
    if s.len() > 0 {
        lemma_char_count_at_most_bytes(s.drop_first());
        assert(vstd::utf8::encode_scalar(s[0] as u32).len() >= 1);
    }
}

/// `byte` with the backlight bit set when `on`, cleared otherwise.
pub open spec fn with_backlight(byte: u8, on: bool) -> u8 {
    if on {
        byte | 0x08u8
    } else {
        byte & 0xf7u8
    }
}

/// The bytes a backpack receives when the backlight is `on` (or off): each
/// byte with its backlight bit forced to match, the rest unchanged.
pub fn apply_backlight(bytes: &[u8], on: bool) -> (r: Vec<u8>)
    ensures
        r@.len() == bytes@.len(),
        forall|k: int| 0 <= k < bytes@.len() ==> r@[k] == with_backlight(#[trigger] bytes@[k], on),
        forall|k: int| 0 <= k < bytes@.len() ==> (r@[k] & 0x08u8 != 0) == on,
        forall|k: int| 0 <= k < bytes@.len() ==> (r@[k] & 0xf7u8) == (bytes@[k] & 0xf7u8),
{
    let mut out: Vec<u8> = Vec::new();
    let mut i: usize = 0;
    while i < bytes.len()
        invariant
            i <= bytes@.len(),
            out@.len() == i,
            forall|k: int| 0 <= k < i ==> out@[k] == with_backlight(#[trigger] bytes@[k], on),
            forall|k: int| 0 <= k < i ==> (out@[k] & 0x08u8 != 0) == on,
            forall|k: int| 0 <= k < i ==> (out@[k] & 0xf7u8) == (bytes@[k] & 0xf7u8),
        decreases bytes@.len() - i,
    {
        let b = bytes[i];
        let v: u8 = if on {
            b | 0x08
        } else {
            b & 0xf7
        };
        assert((v & 0x08u8 != 0) == on && (v & 0xf7u8) == (b & 0xf7u8)) by (bit_vector)
            requires
                v == if on {
                    b | 0x08u8
                } else {
                    b & 0xf7u8
                },
        ;
        out.push(v);
        i = i + 1;
    }
    out
}

/// The display address of column `x` of row `y` (rows 2 and 3 continue
/// rows 0 and 1 after `cols` characters), as `ddram_command` sets it.
pub fn ddram_address(cols: u8, x: u8, y: u8) -> (r: u8)
    requires
        cols <= 40,
    ensures
        0x80u8 | r == ddram_command(cols, x, y),
{
    let base: u8 = x & 0x3f;
    assert(base <= 63) by (bit_vector)
        requires
            base == x & 0x3f,
    ;
    let with_row: u8 = if y & 1 == 1 {
        base + 0x40
    } else {
        base
    };
    let full: u8 = if y & 2 == 2 {
        with_row + cols
    } else {
        with_row
    };
    full
}

} // verus!
