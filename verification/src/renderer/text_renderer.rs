use vstd::prelude::*;

verus! {

/// The height of a character cell in pixels, which is also the height of the
/// cursor.
pub const CURSOR_HEIGHT: i32 = 14;

/// The width of a character cell in pixels.
pub const LETTER_WIDTH: i32 = 7;

/// The number of pixel lines between two lines of text.
pub const LINE_SPACING: i32 = 4;

/// The number of characters in a line of the text buffer.
pub const BUFFER_COLUMNS: usize = 128;

/// The number of characters that the text buffer holds: 25 lines.
pub const BUFFER_SIZE: usize = 3200;

/// The place of the cursor on the screen, in pixels.
#[derive(Debug, Clone, Copy, PartialEq, Eq)]
pub struct Cursor {
    pub x: i32,
    pub y: i32,
}

/// What drawing a character asks of the screen.
#[derive(Debug, Clone, Copy, PartialEq, Eq)]
pub enum Glyph {
    /// A carriage return or a line feed: nothing is drawn.
    Control,
    /// The character is drawn at `at`, after the picture was moved by a line
    /// of text if `scrolled` says so; then the cursor is drawn.
    Draw { at: Cursor, scrolled: bool },
}

/// The cursor one step to the left: at the end of the line above, where the
/// line was at its start.
pub open spec fn left_of(cursor: Cursor, width: usize) -> Cursor {
    if cursor.x - (LETTER_WIDTH + 1) < 0 {
        Cursor {
            x: (width - LETTER_WIDTH) as i32,
            y: (cursor.y - (CURSOR_HEIGHT + LINE_SPACING)) as i32,
        }
    } else {
        Cursor { x: (cursor.x - (LETTER_WIDTH + 1)) as i32, y: cursor.y }
    }
}

/// The cursor one step to the right: at the start of the line below, where
/// the step leaves the screen.
pub open spec fn right_of(cursor: Cursor, width: usize) -> Cursor {
    let x = cursor.x + (LETTER_WIDTH + 1);
    if x < 0 || x >= width {
        Cursor { x: 0, y: (cursor.y + (CURSOR_HEIGHT + LINE_SPACING)) as i32 }
    } else {
        Cursor { x: x as i32, y: cursor.y }
    }
}

/// The cursor one line up, and whether the picture has to move up for it.
/// Moving the picture takes the cursor two character cells and a line
/// spacing down again.
pub open spec fn above(cursor: Cursor) -> (Cursor, bool) {
    let y = cursor.y - (CURSOR_HEIGHT + LINE_SPACING);
    if y < 0 {
        (Cursor { x: cursor.x, y: (y + (2 * CURSOR_HEIGHT + LINE_SPACING)) as i32 }, true)
    } else {
        (Cursor { x: cursor.x, y: y as i32 }, false)
    }
}

/// The cursor one line down, and whether the picture has to move down for
/// it. Moving the picture takes the cursor two character cells and a line
/// spacing up again.
pub open spec fn below(cursor: Cursor, height: usize) -> (Cursor, bool) {
    let y = cursor.y + (CURSOR_HEIGHT + LINE_SPACING);
    if y < 0 || y >= height {
        (Cursor { x: cursor.x, y: (y - (2 * CURSOR_HEIGHT + LINE_SPACING)) as i32 }, true)
    } else {
        (Cursor { x: cursor.x, y: y as i32 }, false)
    }
}

/// Where a character that is drawn with the cursor at `cursor` goes: at the
/// start of the next line if it does not fit the line, and a line higher,
/// with the picture moved, if it does not fit the screen.
pub open spec fn glyph_place(cursor: Cursor, width: usize, height: usize) -> (Cursor, bool) {
    let wraps = cursor.x + LETTER_WIDTH < 0 || cursor.x + LETTER_WIDTH > width;
    let x = if wraps {
        0
    } else {
        cursor.x as int
    };
    let y = if wraps {
        cursor.y + (CURSOR_HEIGHT + LINE_SPACING)
    } else {
        cursor.y as int
    };
    let scrolls = y + CURSOR_HEIGHT < 0 || y + CURSOR_HEIGHT > height;
    if scrolls {
        (Cursor { x: x as i32, y: (y - (2 * CURSOR_HEIGHT + LINE_SPACING)) as i32 }, true)
    } else {
        (Cursor { x: x as i32, y: y as i32 }, false)
    }
}

impl Cursor {
    /// Whether the cursor lies so far inside the range of its coordinates,
    /// and the screen is so small, that no step from here overflows.
    pub open spec fn can_step(self, width: usize, height: usize) -> bool {
        &&& -0x4000_0000 <= self.x <= 0x4000_0000
        &&& -0x4000_0000 <= self.y <= 0x4000_0000
        &&& width <= 0x4000_0000
        &&& height <= 0x4000_0000
    }

    /// Moves the cursor one step to the left.
    pub fn cursor_left(&mut self, width: usize)
        requires
            old(self).can_step(width, 0),
        ensures
            *final(self) == left_of(*old(self), width),
    {
        self.x = self.x - (LETTER_WIDTH + 1);
        if self.x < 0 {
            self.x = width as i32 - LETTER_WIDTH;
            self.y = self.y - (CURSOR_HEIGHT + LINE_SPACING);
        }
    }

    /// Moves the cursor one step to the right.
    pub fn cursor_right(&mut self, width: usize)
        requires
            old(self).can_step(width, 0),
        ensures
            *final(self) == right_of(*old(self), width),
    {
        self.x = self.x + (LETTER_WIDTH + 1);
        if self.x < 0 || self.x as usize >= width {
            self.x = 0;
            self.y = self.y + (CURSOR_HEIGHT + LINE_SPACING);
        }
    }

    /// Moves the cursor one line up and says whether the picture has to be
    /// moved up.
    pub fn cursor_up(&mut self) -> (shift: bool)
        requires
            old(self).can_step(0, 0),
        ensures
            (*final(self), shift) == above(*old(self)),
    {
        self.y = self.y - (CURSOR_HEIGHT + LINE_SPACING);
        if self.y < 0 {
            self.y = self.y + (2 * CURSOR_HEIGHT + LINE_SPACING);
            true
        } else {
            false
        }
    }

    /// Moves the cursor one line down and says whether the picture has to be
    /// moved down.
    pub fn cursor_down(&mut self, height: usize) -> (shift: bool)
        requires
            old(self).can_step(0, height),
        ensures
            (*final(self), shift) == below(*old(self), height),
    {
        self.y = self.y + (CURSOR_HEIGHT + LINE_SPACING);
        if self.y < 0 || self.y as usize >= height {
            self.y = self.y - (2 * CURSOR_HEIGHT + LINE_SPACING);
            true
        } else {
            false
        }
    }

    /// Takes the cursor past a character and says what to draw. A carriage
    /// return takes the cursor to the start of its line, a line feed to the
    /// start of the next line. Any other character is drawn where
    /// [`glyph_place`] puts it, and the cursor goes one step to its right.
    pub fn draw_char(&mut self, c: char, width: usize, height: usize) -> (glyph: Glyph)
        requires
            old(self).can_step(width, height),
        ensures
            c == '\r' ==> glyph == Glyph::Control && *final(self) == (Cursor {
                x: 0,
                y: old(self).y,
            }),
            c == '\n' ==> glyph == Glyph::Control && *final(self) == (Cursor {
                x: 0,
                y: (old(self).y + (CURSOR_HEIGHT + LINE_SPACING)) as i32,
            }),
            c != '\r' && c != '\n' ==> glyph == (Glyph::Draw {
                at: glyph_place(*old(self), width, height).0,
                scrolled: glyph_place(*old(self), width, height).1,
            }) && *final(self) == (Cursor {
                x: (glyph_place(*old(self), width, height).0.x + (LETTER_WIDTH + 1)) as i32,
                y: glyph_place(*old(self), width, height).0.y,
            }),
    {
        if c == '\r' {
            self.x = 0;
            return Glyph::Control;
        }
        if c == '\n' {
            self.x = 0;
            self.y = self.y + (CURSOR_HEIGHT + LINE_SPACING);
            return Glyph::Control;
        }
        if self.x + LETTER_WIDTH < 0 || (self.x + LETTER_WIDTH) as usize > width {
            self.x = 0;
            self.y = self.y + (CURSOR_HEIGHT + LINE_SPACING);
        }
        let mut scrolled: bool = false;
        if self.y + CURSOR_HEIGHT < 0 || (self.y + CURSOR_HEIGHT) as usize > height {
            self.y = self.y - (2 * CURSOR_HEIGHT + LINE_SPACING);
            scrolled = true;
        }
        let at = Cursor { x: self.x, y: self.y };
        self.x = self.x + (LETTER_WIDTH + 1);
        Glyph::Draw { at, scrolled }
    }
}

/// The characters that were written, as far as 25 lines of 128 hold them.
pub struct TextBuffer {
    buffer: Vec<u8>,
    buffer_index: usize,
}

/// A full buffer after one more character: every line has moved up by one,
/// and the character stands at the start of the last line, whose other
/// characters stay.
pub open spec fn scrolled(bytes: Seq<u8>, c: u8) -> Seq<u8> {
    Seq::new(
        BUFFER_SIZE as nat,
        |i: int|
            if i < BUFFER_SIZE - BUFFER_COLUMNS {
                bytes[i + BUFFER_COLUMNS]
            } else if i == BUFFER_SIZE - BUFFER_COLUMNS {
                c
            } else {
                bytes[i]
            },
    )
}

/// The place in the buffer of the character under a cursor.
pub open spec fn cell_of(cursor: Cursor) -> int {
    (cursor.y / CURSOR_HEIGHT) * BUFFER_COLUMNS + cursor.x / LETTER_WIDTH
}

impl TextBuffer {
    /// The characters of the buffer, line by line.
    pub closed spec fn bytes(&self) -> Seq<u8> {
        self.buffer@
    }

    /// The number of characters written, until the buffer is full.
    pub closed spec fn len(&self) -> usize {
        self.buffer_index
    }

    /// The buffer has 25 lines of 128 characters.
    pub open spec fn wf(&self) -> bool {
        self.bytes().len() == BUFFER_SIZE && self.len() <= BUFFER_SIZE
    }

    /// A buffer of zeros with nothing written.
    pub fn new() -> (buffer: TextBuffer)
        ensures
            buffer.wf(),
            buffer.len() == 0,
            buffer.bytes() == Seq::new(BUFFER_SIZE as nat, |i: int| 0u8),
    {
        let mut bytes: Vec<u8> = Vec::new();
        let mut i: usize = 0;
        while i < BUFFER_SIZE
            invariant
                i <= BUFFER_SIZE,
                bytes@.len() == i,
                forall|k: int| 0 <= k < i ==> bytes@[k] == 0,
            decreases BUFFER_SIZE - i,
        {
            bytes.push(0);
            i = i + 1;
        }
        assert(bytes@ =~= Seq::new(BUFFER_SIZE as nat, |i: int| 0u8));
        TextBuffer { buffer: bytes, buffer_index: 0 }
    }

    /// The number of characters written, until the buffer is full.
    #[verifier::when_used_as_spec(len)]
    pub fn buffer_index(&self) -> (index: usize)
        ensures
            index == self.len(),
    {
        self.buffer_index
    }

    /// Writes a character behind those written before. A full buffer makes
    /// room as [`scrolled`] says.
    pub fn add_to_buffer(&mut self, c: u8)
        requires
            old(self).wf(),
        ensures
            final(self).wf(),
            old(self).len() < BUFFER_SIZE ==> final(self).len() == old(self).len() + 1 && final(self).bytes() == old(self).bytes().update(old(self).len() as int, c),
            old(self).len() == BUFFER_SIZE ==> final(self).len() == BUFFER_SIZE && final(self).bytes() == scrolled(old(self).bytes(), c),
    {
        if self.buffer_index == BUFFER_SIZE {
            let mut i: usize = 0;
            while i < BUFFER_SIZE - BUFFER_COLUMNS
                invariant
                    i <= BUFFER_SIZE - BUFFER_COLUMNS,
                    self.buffer@.len() == BUFFER_SIZE,
                    self.buffer_index == old(self).buffer_index,
                    forall|k: int| 0 <= k < i ==> self.buffer@[k] == old(self).buffer@[k + 128],
                    forall|k: int| i <= k < BUFFER_SIZE ==> self.buffer@[k] == old(self).buffer@[k],
                decreases BUFFER_SIZE - BUFFER_COLUMNS - i,
            {
                let byte: u8 = self.buffer[i + BUFFER_COLUMNS];
                self.buffer[i] = byte;
                i = i + 1;
            }
            self.buffer[BUFFER_SIZE - BUFFER_COLUMNS] = c;
            assert(self.buffer@ =~= scrolled(old(self).buffer@, c));
        } else {
            self.buffer[self.buffer_index] = c;
            self.buffer_index = self.buffer_index + 1;
        }
    }

    /// Sets the last character of the buffer to zero.
    pub fn remove_char(&mut self)
        requires
            old(self).wf(),
        ensures
            final(self).wf(),
            final(self).len() == old(self).len(),
            final(self).bytes() == old(self).bytes().update(BUFFER_SIZE - 1, 0u8),
    {
        self.buffer[BUFFER_SIZE - 1] = 0;
    }

    /// Whether a cursor stands on a character of the buffer.
    pub fn holds(&self, cursor: Cursor) -> (inside: bool)
        ensures
            inside == (cursor.x >= 0 && cursor.y >= 0 && cell_of(cursor) < BUFFER_SIZE),
    {
        if cursor.x < 0 || cursor.y < 0 {
            return false;
        }
        let row: u64 = cursor.y as u64 / 14;
        let column: u64 = cursor.x as u64 / 7;
        row * 128 + column < 3200
    }

    /// The character under a cursor that stands on the buffer.
    pub fn char_at(&self, cursor: Cursor) -> (c: u8)
        requires
            self.wf(),
            cursor.x >= 0,
            cursor.y >= 0,
            cell_of(cursor) < BUFFER_SIZE,
        ensures
            c == self.bytes()[cell_of(cursor)],
    {
        let row: usize = cursor.y as usize / 14;
        let column: usize = cursor.x as usize / 7;
        self.buffer[row * BUFFER_COLUMNS + column]
    }
}

/// The byte that the text buffer keeps for a character: its code, cut to
/// eight bits.
pub open spec fn byte_of(c: char) -> u8 {
    (c as u32 % 256) as u8
}

/// Writes a character: the text buffer records it, control characters
/// among them, and the cursor goes past it as [`Cursor::draw_char`] says.
/// The result says what is to be drawn.
pub fn draw_char(
    buffer: &mut TextBuffer,
    cursor: &mut Cursor,
    c: char,
    width: usize,
    height: usize,
) -> (glyph: Glyph)
    requires
        old(buffer).wf(),
        old(cursor).can_step(width, height),
    ensures
        final(buffer).wf(),
        old(buffer).len() < BUFFER_SIZE ==> final(buffer).len() == old(buffer).len() + 1
            && final(buffer).bytes() == old(buffer).bytes().update(old(buffer).len() as int, byte_of(c)),
        old(buffer).len() == BUFFER_SIZE ==> final(buffer).len() == BUFFER_SIZE && final(buffer).bytes() == scrolled(old(buffer).bytes(), byte_of(c)),
        c == '\r' ==> glyph == Glyph::Control && *final(cursor) == (Cursor {
            x: 0,
            y: old(cursor).y,
        }),
        c == '\n' ==> glyph == Glyph::Control && *final(cursor) == (Cursor {
            x: 0,
            y: (old(cursor).y + (CURSOR_HEIGHT + LINE_SPACING)) as i32,
        }),
        c != '\r' && c != '\n' ==> glyph == (Glyph::Draw {
            at: glyph_place(*old(cursor), width, height).0,
            scrolled: glyph_place(*old(cursor), width, height).1,
        }) && *final(cursor) == (Cursor {
            x: (glyph_place(*old(cursor), width, height).0.x + (LETTER_WIDTH + 1)) as i32,
            y: glyph_place(*old(cursor), width, height).0.y,
        }),
{
    let code: u32 = c as u32;
    let byte: u8 = (code % 256) as u8;
    buffer.add_to_buffer(byte);
    cursor.draw_char(c, width, height)
}

} // verus!
