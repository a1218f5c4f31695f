use lifelinetty::lcd_driver::{
    apply_backlight, ddram_address, from_hex, parse_bitmap_row, Hd44780, I2cBus, LCD_CLR, LCD_ON_BLINK, LCD_ON_CTRL,
    LCD_ON_CURSOR, LCD_ON_DISPLAY, MASK_E, MASK_RS, SHIFT_BACKLIGHT,
};

#[derive(Debug, Default)]
struct MockBus {
    writes: Vec<(u8, u8)>,
    decoded: Vec<DecodedByte>,
    pending_enable: Option<(bool, u8)>,
    partial_byte: Option<(bool, u8)>,
}

#[derive(Debug, Clone, Copy)]
struct DecodedByte {
    rs: bool,
    value: u8,
}

impl I2cBus for MockBus {
    fn write_byte(&mut self, addr: u8, byte: u8) -> lifelinetty::Result<()> {
        if byte & MASK_E != 0 {
            self.pending_enable = Some((byte & MASK_RS != 0, byte));
        } else if let Some((rs, prev)) = self.pending_enable.take() {
            let nibble = (prev & 0xF0) >> 4;
            self.record_nibble(rs, nibble);
        }
        self.writes.push((addr, byte));
        Ok(())
    }
}

impl MockBus {
    fn record_nibble(&mut self, rs: bool, nibble: u8) {
        if let Some((prev_rs, prev)) = self.partial_byte.take() {
            assert_eq!(prev_rs, rs);
            let value = (prev << 4) | nibble;
            self.decoded.push(DecodedByte { rs, value });
        } else {
            self.partial_byte = Some((rs, nibble));
        }
    }

    /// Commands decoded since position `start` of the decoded stream.
    fn decoded_commands_since(&self, start: usize) -> Vec<u8> {
        self.decoded[start..]
            .iter()
            .filter(|d| !d.rs)
            .map(|d| d.value)
            .collect()
    }
}

#[test]
fn init_sequence_matches_python_order() {
    let bus = MockBus::default();
    let mut driver = Hd44780::new(bus, 0x27, 16, 2).unwrap();
    let writes = &driver.bus().writes;
    assert_eq!(writes[0], (0x27, 0));
    assert_eq!(writes[1], (0x27, 0x34));
    assert_eq!(writes[2], (0x27, 0x30));
    let has_function = writes.iter().any(|&(_, b)| b == 0x8C || b == 0x2C);
    assert!(has_function);
    assert!(writes.iter().any(|&(_, b)| b & (1 << SHIFT_BACKLIGHT) != 0));
    driver.clear().unwrap();
    let after_clear_len = driver.bus().writes.len();
    assert!(after_clear_len > 6);
}

#[test]
fn write_line_wraps() {
    let mut driver = Hd44780::new(MockBus::default(), 0x27, 8, 2).unwrap();
    driver.write_line(0, "abcdefghi").unwrap();
    assert_eq!(driver.cursor().0, 1);
    assert_eq!(driver.cursor().1, 1);
}

#[test]
fn implied_newline_matches_python_behavior() {
    let mut driver = Hd44780::new(MockBus::default(), 0x27, 4, 2).unwrap();
    driver.write_line(0, "abcd").unwrap();
    driver.putchar('\n').unwrap();
    assert_eq!(driver.cursor().1, 1);
    let writes_after_first = driver.bus().writes.len();
    driver.putchar('\n').unwrap();
    assert!(driver.bus().writes.len() > writes_after_first);
}

#[test]
fn parses_extended_placeholders() {
    let mut driver = Hd44780::new(MockBus::default(), 0x27, 8, 2).unwrap();
    driver.putstr_extended("A{0x41}B").unwrap();
    assert_eq!(driver.cursor().0, 3);
}

#[test]
fn smoke_init_clear_backlight() {
    let mut driver = Hd44780::new(MockBus::default(), 0x27, 16, 2).unwrap();
    let before = driver.bus().writes.len();
    driver.clear().unwrap();
    driver.backlight_off().unwrap();
    driver.backlight_on().unwrap();
    driver.write_line(0, "hi").unwrap();
    assert!(driver.bus().writes.len() > before);
}

#[test]
fn loads_custom_bitmap_rows() {
    let mut driver = Hd44780::new(MockBus::default(), 0x27, 16, 2).unwrap();
    let heart = [
        "01010", "11111", "11111", "11111", "01110", "00100", "00000", "00000",
    ];
    driver.load_custom_bitmap(0, heart).unwrap();
    driver.putchar('\n').unwrap();
    assert_eq!(driver.cursor().1, 1);
}

#[test]
fn write_line_avoids_clear_between_updates() {
    let mut driver = Hd44780::new(MockBus::default(), 0x27, 16, 2).unwrap();
    let start = driver.bus().decoded.len();
    driver.write_line(0, "first").unwrap();
    driver.write_line(0, "second").unwrap();
    let commands = driver.bus().decoded_commands_since(start);
    assert!(
        !commands.iter().any(|&cmd| cmd == LCD_CLR),
        "steady-state writes must not issue LCD_CLR"
    );
}

#[test]
fn blink_cursor_command_emitted() {
    let mut driver = Hd44780::new(MockBus::default(), 0x27, 16, 2).unwrap();
    let start = driver.bus().decoded.len();
    driver.blink_cursor_on().unwrap();
    let commands = driver.bus().decoded_commands_since(start);
    let expected = LCD_ON_CTRL | LCD_ON_DISPLAY | LCD_ON_CURSOR | LCD_ON_BLINK;
    assert!(
        commands.iter().any(|&cmd| cmd == expected),
        "blink command missing from decoded stream"
    );
}

#[test]
fn custom_char_restores_cursor_position() {
    let mut driver = Hd44780::new(MockBus::default(), 0x27, 16, 2).unwrap();
    driver.move_to(3, 1).unwrap();
    let pattern = [0u8; 8];
    driver.custom_char(2, &pattern).unwrap();
    assert_eq!(driver.cursor().0, 3);
    assert_eq!(driver.cursor().1, 1);
}

#[test]
fn clear_sends_clear_then_home() {
    let mut driver = Hd44780::new(MockBus::default(), 0x27, 16, 2).unwrap();
    driver.move_to(5, 1).unwrap();
    let start = driver.bus().decoded.len();
    driver.clear().unwrap();
    assert_eq!(driver.bus().decoded_commands_since(start), vec![0x01, 0x02]);
    assert_eq!(driver.cursor(), (0, 0));
}

#[test]
fn move_to_second_row_addresses_ddram_0x40() {
    let mut driver = Hd44780::new(MockBus::default(), 0x27, 16, 2).unwrap();
    let start = driver.bus().decoded.len();
    driver.move_to(2, 1).unwrap();
    assert_eq!(driver.bus().decoded_commands_since(start), vec![0x80 | 0x42]);
}

#[test]
fn backlight_off_writes_zero() {
    let mut driver = Hd44780::new(MockBus::default(), 0x27, 16, 2).unwrap();
    driver.backlight_off().unwrap();
    assert_eq!(*driver.bus().writes.last().unwrap(), (0x27, 0));
    driver.backlight_on().unwrap();
    assert_eq!(*driver.bus().writes.last().unwrap(), (0x27, 0x08));
}

#[test]
fn geometry_is_clamped() {
    let mut driver = Hd44780::new(MockBus::default(), 0x27, 80, 9).unwrap();
    driver.move_to(0, 5).unwrap();
    assert_eq!(driver.cursor(), (0, 1));
}

#[test]
fn bitmap_rows_and_hex_digits() {
    assert_eq!(parse_bitmap_row("10001").unwrap(), 0b10001);
    assert_eq!(parse_bitmap_row("#").unwrap(), 0b10000);
    assert_eq!(parse_bitmap_row("").unwrap(), 0);
    assert!(parse_bitmap_row("111111").is_err());
    assert_eq!(from_hex(b'7'), Some(7));
    assert_eq!(from_hex(b'b'), Some(11));
    assert_eq!(from_hex(b'F'), Some(15));
    assert_eq!(from_hex(b'g'), None);
}

#[test]
fn long_bitmap_row_is_refused() {
    let mut driver = Hd44780::new(MockBus::default(), 0x27, 16, 2).unwrap();
    let rows = ["1", "1", "1", "1", "111111", "1", "1", "1"];
    let err = driver.load_custom_bitmap(1, rows).unwrap_err();
    assert!(err.message().contains("at most 5"));
}

#[test]
fn loads_several_bitmaps_into_consecutive_slots() {
    let mut driver = Hd44780::new(MockBus::default(), 0x27, 16, 2).unwrap();
    let start = driver.bus().decoded.len();
    let blank = ["0", "0", "0", "0", "0", "0", "0", "0"];
    driver.load_custom_bitmaps(&[blank, blank]).unwrap();
    let commands = driver.bus().decoded_commands_since(start);
    assert!(commands.contains(&0x40));
    assert!(commands.contains(&0x48));
}

#[test]
fn adapter_sets_backlight_bit_when_on() {
    let written = apply_backlight(&[0x00], true);
    assert_eq!(written.len(), 1);
    assert!(written[0] & (1 << SHIFT_BACKLIGHT) != 0);
}

#[test]
fn adapter_clears_backlight_bit_when_off() {
    let written = apply_backlight(&[0xFF], false);
    assert_eq!(written.len(), 1);
    assert_eq!(written[0] & (1 << SHIFT_BACKLIGHT), 0);
    assert_eq!(written[0], 0xF7);
}

#[test]
fn ddram_addresses_follow_the_row_layout() {
    assert_eq!(ddram_address(16, 2, 1), 0x42);
    assert_eq!(ddram_address(16, 0, 2), 16);
    assert_eq!(ddram_address(20, 1, 3), 0x40 + 1 + 20);
    assert_eq!(ddram_address(20, 5, 0), 5);
}

/// A bus that takes a fixed number of bytes, then refuses every byte.
#[derive(Debug)]
struct TiredBus {
    budget: usize,
    taken: Vec<u8>,
}

impl I2cBus for TiredBus {
    fn write_byte(&mut self, _addr: u8, byte: u8) -> lifelinetty::Result<()> {
        if self.taken.len() >= self.budget {
            return Err(lifelinetty::Error::InvalidArgs("bus asleep".to_string()));
        }
        self.taken.push(byte);
        Ok(())
    }
}

#[test]
fn refused_byte_stops_the_write_and_returns_the_bus_error() {
    // The power-on sequence takes 1 + 4 * 2 + 6 * 4 bytes.
    let bus = TiredBus { budget: 33 + 4 + 2, taken: Vec::new() };
    let mut driver = Hd44780::new(bus, 0x27, 16, 2).unwrap();
    // One character (four bytes) goes through, the second stops after two.
    let err = driver.putstr("ab").unwrap_err();
    assert_eq!(err.message(), "invalid arguments: bus asleep");
    assert_eq!(driver.bus().taken.len(), 39);
    assert_eq!(driver.cursor(), (1, 0));
    assert!(Hd44780::new(TiredBus { budget: 0, taken: Vec::new() }, 0x27, 16, 2).is_err());
}
