use vstd::prelude::*;
use vstd::string::StringSliceAdditionalSpecFns;

use crate::pic::PortWrite;

verus! {

/// The sixteen text mode colors.
#[derive(Clone, Copy, Debug, PartialEq, Eq, Structural)]
pub enum Color {
    Black,
    Blue,
    Green,
    Cyan,
    Red,
    Purple,
    Brown,
    Gray,
    DarkGray,
    LightBlue,
    LightGreen,
    LightCyan,
    LightRed,
    LightPurple,
    Yellow,
    White,
}

impl Color {
    pub open spec fn spec_value(self) -> u8 {
        match self {
            Color::Black => 0,
            Color::Blue => 1,
            Color::Green => 2,
            Color::Cyan => 3,
            Color::Red => 4,
            Color::Purple => 5,
            Color::Brown => 6,
            Color::Gray => 7,
            Color::DarkGray => 8,
            Color::LightBlue => 9,
            Color::LightGreen => 10,
            Color::LightCyan => 11,
            Color::LightRed => 12,
            Color::LightPurple => 13,
            Color::Yellow => 14,
            Color::White => 15,
        }
    }

    pub fn value(self) -> (r: u8)
        ensures
            r == self.spec_value(),
            r < 16,
    {
        match self {
            Color::Black => 0,
            Color::Blue => 1,
            Color::Green => 2,
            Color::Cyan => 3,
            Color::Red => 4,
            Color::Purple => 5,
            Color::Brown => 6,
            Color::Gray => 7,
            Color::DarkGray => 8,
            Color::LightBlue => 9,
            Color::LightGreen => 10,
            Color::LightCyan => 11,
            Color::LightRed => 12,
            Color::LightPurple => 13,
            Color::Yellow => 14,
            Color::White => 15,
        }
    }
}

/// A foreground and a background color: background in the high nibble.
#[derive(Clone, Copy, Debug, PartialEq, Eq, Structural)]
pub struct ColorCode(pub u8);

impl ColorCode {
    pub fn new(fg: Color, bg: Color) -> (r: ColorCode)
        ensures
            r.0 == bg.spec_value() * 16 + fg.spec_value(),
    {
        let b = bg.value();
        let f = fg.value();
        assert((b << 4u8) | f == b * 16 + f) by (bit_vector)
            requires
                b < 16,
                f < 16,
        ;
        ColorCode((b << 4u8) | f)
    }
}

/// A character cell of the text screen.
#[derive(Clone, Copy, Debug, PartialEq, Eq, Structural)]
pub struct ScreenChar {
    pub ascii_char: u8,
    pub color_code: ColorCode,
}

pub const BUFFER_WIDTH: usize = 80;
pub const BUFFER_HEIGHT: usize = 25;
pub const BUFFER_SIZE: usize = 2000;

/// Position of the cursor.
#[derive(Clone, Copy, Debug, PartialEq, Eq, Structural)]
pub struct CursorPos {
    pub row: usize,
    pub col: usize,
}

impl CursorPos {
    pub fn new(row: usize, col: usize) -> (r: CursorPos)
        ensures
            r.row == row,
            r.col == col,
    {
        CursorPos { row, col }
    }
}

/// The state of a text screen writer: the cursor, the current color and the
/// screen's cells, row by row.
pub struct ScreenState {
    pub row: int,
    pub col: int,
    pub color: ColorCode,
    pub cells: Seq<ScreenChar>,
}

/// The screen scrolled up by one line, the new bottom line blank.
pub open spec fn scrolled(cells: Seq<ScreenChar>, color: ColorCode) -> Seq<ScreenChar> {
    Seq::new(
        BUFFER_SIZE as nat,
        |i: int|
            if i < (BUFFER_HEIGHT - 1) * BUFFER_WIDTH {
                cells[i + BUFFER_WIDTH]
            } else {
                ScreenChar { ascii_char: 0x20, color_code: color }
            },
    )
}

/// The state after moving to the start of the next line, scrolling at the
/// bottom of the screen.
pub open spec fn after_new_line(s: ScreenState) -> ScreenState {
    if s.row + 1 >= BUFFER_HEIGHT {
        ScreenState {
            row: BUFFER_HEIGHT - 1,
            col: 0,
            color: s.color,
            cells: scrolled(s.cells, s.color),
        }
    } else {
        ScreenState { row: s.row + 1, col: 0, color: s.color, cells: s.cells }
    }
}

/// The state after writing one byte: a newline moves to the next line; any
/// other byte is put at the cursor, after wrapping to the next line if the
/// current one is full.
pub open spec fn after_char(s: ScreenState, ch: u8) -> ScreenState {
    if ch == 0x0A {
        after_new_line(s)
    } else {
        let t = if s.col >= BUFFER_WIDTH {
            after_new_line(s)
        } else {
            s
        };
        ScreenState {
            row: t.row,
            col: t.col + 1,
            color: t.color,
            cells: t.cells.update(
                t.row * BUFFER_WIDTH + t.col,
                ScreenChar { ascii_char: ch, color_code: t.color },
            ),
        }
    }
}

/// The state after writing the bytes one after another.
pub open spec fn after_bytes(s: ScreenState, bytes: Seq<u8>) -> ScreenState
    decreases bytes.len(),
{
    if bytes.len() == 0 {
        s
    } else {
        after_char(after_bytes(s, bytes.drop_last()), bytes.last())
    }
}

/// The serial port COM1, which gets a copy of every byte written to the
/// screen.
pub const COM1_PORT: u16 = 0x3F8;

/// Writes to the text screen.  Every byte written is also copied to COM1:
/// `serial` holds the copies that have not been handed to the port yet.
pub struct Writer {
    pub pos: CursorPos,
    pub color_code: ColorCode,
    pub buffer: Vec<ScreenChar>,
    pub serial: Vec<u8>,
}

impl Writer {
    pub open spec fn wf(&self) -> bool {
        &&& self.pos.row < BUFFER_HEIGHT
        &&& self.pos.col <= BUFFER_WIDTH
        &&& self.buffer@.len() == BUFFER_SIZE
    }

    pub open spec fn state(&self) -> ScreenState {
        ScreenState {
            row: self.pos.row as int,
            col: self.pos.col as int,
            color: self.color_code,
            cells: self.buffer@,
        }
    }

    /// A writer with a blank screen and the cursor at `pos`.
    pub fn new(pos: CursorPos, color_code: ColorCode) -> (r: Writer)
        requires
            pos.row < BUFFER_HEIGHT,
            pos.col <= BUFFER_WIDTH,
        ensures
            r.wf(),
            r.pos == pos,
            r.color_code == color_code,
            r.serial@ == Seq::<u8>::empty(),
            forall|i: int| 0 <= i < BUFFER_SIZE ==> #[trigger] r.buffer@[i] == (ScreenChar {
                ascii_char: 0x20,
                color_code,
            }),
    {
        let mut buffer: Vec<ScreenChar> = Vec::new();
        let mut i: usize = 0;
        while i < BUFFER_SIZE
            invariant
                i <= BUFFER_SIZE,
                buffer@.len() == i,
                forall|k: int| 0 <= k < i ==> #[trigger] buffer@[k] == (ScreenChar {
                    ascii_char: 0x20,
                    color_code,
                }),
            decreases BUFFER_SIZE - i,
        {
            buffer.push(ScreenChar { ascii_char: 0x20, color_code });
            i = i + 1;
        }
        Writer { pos, color_code, buffer, serial: Vec::new() }
    }

    /// Writes one byte to the screen, and a copy of it to COM1.
    pub fn write_char(&mut self, ch: u8)
        requires
            old(self).wf(),
        ensures
            final(self).wf(),
            final(self).state() == after_char(old(self).state(), ch),
            final(self).serial@ == old(self).serial@.push(ch),
    {
        self.serial.push(ch);
        if ch == 0x0A {
            self.new_line();
        } else {
            if self.pos.col >= BUFFER_WIDTH {
                self.new_line();
            }
            let idx = self.pos.row * BUFFER_WIDTH + self.pos.col;
            self.buffer.set(idx, ScreenChar { ascii_char: ch, color_code: self.color_code });
            self.pos.col = self.pos.col + 1;
        }
    }

    /// Writes the bytes of `s` one after another.
    pub fn write_string(&mut self, s: &str)
        requires
            old(self).wf(),
        ensures
            final(self).wf(),
            final(self).state() == after_bytes(old(self).state(), s.spec_bytes()),
            final(self).serial@ == old(self).serial@ + s.spec_bytes(),
    {
        let bytes = s.as_bytes();
        self.write_bytes(bytes);
    }

    /// Writes the bytes one after another.
    pub fn write_bytes(&mut self, bytes: &[u8])
        requires
            old(self).wf(),
        ensures
            final(self).wf(),
            final(self).state() == after_bytes(old(self).state(), bytes@),
            final(self).serial@ == old(self).serial@ + bytes@,
    {
        let ghost s0 = self.state();
        let mut i: usize = 0;
        while i < bytes.len()
            invariant
                i <= bytes@.len(),
                self.wf(),
                self.state() == after_bytes(s0, bytes@.take(i as int)),
                self.serial@ == old(self).serial@ + bytes@.take(i as int),
            decreases bytes@.len() - i,
        {
            assert(bytes@.take(i as int + 1).drop_last() =~= bytes@.take(i as int));
            assert(bytes@.take(i as int + 1) =~= bytes@.take(i as int).push(bytes@[i as int]));
            self.write_char(bytes[i]);
            i = i + 1;
        }
        assert(bytes@.take(i as int) =~= bytes@);
    }

    fn new_line(&mut self)
        requires
            old(self).wf(),
        ensures
            final(self).wf(),
            final(self).state() == after_new_line(old(self).state()),
            final(self).serial == old(self).serial,
    {
        self.pos.col = 0;
        if self.pos.row + 1 >= BUFFER_HEIGHT {
            let ghost before = self.buffer@;
            self.scroll_screen_one();
            self.pos.row = BUFFER_HEIGHT - 1;
            self.clear_row(BUFFER_HEIGHT - 1);
            assert(self.buffer@ =~= scrolled(before, self.color_code));
        } else {
            self.pos.row = self.pos.row + 1;
        }
    }

    /// Moves every line up by one; the bottom line stays as it was.
    fn scroll_screen_one(&mut self)
        requires
            old(self).wf(),
        ensures
            final(self).wf(),
            final(self).pos == old(self).pos,
            final(self).color_code == old(self).color_code,
            final(self).serial == old(self).serial,
            forall|i: int|
                0 <= i < BUFFER_SIZE ==> #[trigger] final(self).buffer@[i] == if i < (BUFFER_HEIGHT
                    - 1) * BUFFER_WIDTH {
                    old(self).buffer@[i + BUFFER_WIDTH]
                } else {
                    old(self).buffer@[i]
                },
    {
        let mut i: usize = 0;
        while i < (BUFFER_HEIGHT - 1) * BUFFER_WIDTH
            invariant
                i <= (BUFFER_HEIGHT - 1) * BUFFER_WIDTH,
                self.wf(),
                self.pos == old(self).pos,
                self.color_code == old(self).color_code,
                self.serial == old(self).serial,
                forall|k: int|
                    0 <= k < BUFFER_SIZE ==> #[trigger] self.buffer@[k] == if k < i {
                        old(self).buffer@[k + BUFFER_WIDTH]
                    } else {
                        old(self).buffer@[k]
                    },
            decreases (BUFFER_HEIGHT - 1) * BUFFER_WIDTH - i,
        {
            let c = self.buffer[i + BUFFER_WIDTH];
            self.buffer.set(i, c);
            i = i + 1;
        }
    }

    /// Fills a line with blanks of the current color.
    fn clear_row(&mut self, row: usize)
        requires
            old(self).wf(),
            row < BUFFER_HEIGHT,
        ensures
            final(self).wf(),
            final(self).pos == old(self).pos,
            final(self).color_code == old(self).color_code,
            final(self).serial == old(self).serial,
            forall|i: int|
                0 <= i < BUFFER_SIZE ==> #[trigger] final(self).buffer@[i] == if row * BUFFER_WIDTH
                    <= i < (row + 1) * BUFFER_WIDTH {
                    ScreenChar { ascii_char: 0x20, color_code: old(self).color_code }
                } else {
                    old(self).buffer@[i]
                },
    {
        let blank = ScreenChar { ascii_char: 0x20, color_code: self.color_code };
        let mut col: usize = 0;
        while col < BUFFER_WIDTH
            invariant
                col <= BUFFER_WIDTH,
                row < BUFFER_HEIGHT,
                self.wf(),
                self.pos == old(self).pos,
                self.color_code == old(self).color_code,
                self.serial == old(self).serial,
                blank == (ScreenChar { ascii_char: 0x20, color_code: old(self).color_code }),
                forall|i: int|
                    0 <= i < BUFFER_SIZE ==> #[trigger] self.buffer@[i] == if row * BUFFER_WIDTH
                        <= i < row * BUFFER_WIDTH + col {
                        blank
                    } else {
                        old(self).buffer@[i]
                    },
            decreases BUFFER_WIDTH - col,
        {
            self.buffer.set(row * BUFFER_WIDTH + col, blank);
            col = col + 1;
        }
    }

    /// Blanks the whole screen.
    pub fn clear_screen(&mut self)
        requires
            old(self).wf(),
        ensures
            final(self).wf(),
            final(self).pos == old(self).pos,
            final(self).color_code == old(self).color_code,
            final(self).serial == old(self).serial,
            forall|i: int| 0 <= i < BUFFER_SIZE ==> #[trigger] final(self).buffer@[i] == (ScreenChar {
                ascii_char: 0x20,
                color_code: old(self).color_code,
            }),
    {
        let mut row: usize = 0;
        while row < BUFFER_HEIGHT
            invariant
                row <= BUFFER_HEIGHT,
                self.wf(),
                self.pos == old(self).pos,
                self.color_code == old(self).color_code,
                self.serial == old(self).serial,
                forall|i: int| 0 <= i < row * BUFFER_WIDTH ==> #[trigger] self.buffer@[i] == (ScreenChar {
                    ascii_char: 0x20,
                    color_code: old(self).color_code,
                }),
            decreases BUFFER_HEIGHT - row,
        {
            self.clear_row(row);
            row = row + 1;
        }
    }

    /// The port writes that copy to COM1 what was written to the screen
    /// since the last call, one byte each, in order; the record of them is
    /// emptied and the screen is left as it is.
    pub fn take_serial_writes(&mut self) -> (r: Vec<PortWrite>)
        ensures
            r@.len() == old(self).serial@.len(),
            forall|i: int| 0 <= i < r@.len() ==> #[trigger] r@[i] == (PortWrite {
                port: COM1_PORT,
                value: old(self).serial@[i],
            }),
            final(self).serial@ == Seq::<u8>::empty(),
            final(self).pos == old(self).pos,
            final(self).color_code == old(self).color_code,
            final(self).buffer == old(self).buffer,
    {
        let mut out: Vec<PortWrite> = Vec::new();
        let mut i: usize = 0;
        while i < self.serial.len()
            invariant
                i <= self.serial@.len(),
                self == old(self),
                out@.len() == i,
                forall|k: int| 0 <= k < i ==> #[trigger] out@[k] == (PortWrite {
                    port: COM1_PORT,
                    value: old(self).serial@[k],
                }),
            decreases self.serial@.len() - i,
        {
            out.push(PortWrite { port: COM1_PORT, value: self.serial[i] });
            i = i + 1;
        }
        self.serial = Vec::new();
        out
    }
}

/// The kernel's screen writer: cursor at the top left, white on black, and
/// a blank screen.
pub fn init() -> (r: Writer)
    ensures
        r.wf(),
        r.pos == (CursorPos { row: 0, col: 0 }),
        r.color_code.0 == 0x0F,
        r.serial@ == Seq::<u8>::empty(),
{
    let color_code = ColorCode::new(Color::White, Color::Black);
    let mut w = Writer::new(CursorPos { row: 0, col: 0 }, color_code);
    w.clear_screen();
    w
}

} // verus!
