//! Pixels in a linear frame buffer.
use vstd::prelude::*;

verus! {

/// The place of a pixel: column `x` of line `y`.
#[derive(Debug, Clone, Copy, PartialEq, Eq)]
pub struct Position {
    pub x: usize,
    pub y: usize,
}

/// A colour by its three channels.
#[derive(Debug, Clone, Copy, PartialEq, Eq)]
pub struct Color {
    pub red: u8,
    pub green: u8,
    pub blue: u8,
}

/// How a pixel lies in the buffer.
#[derive(Debug, Clone, Copy, PartialEq, Eq)]
pub enum PixelFormat {
    /// Three bytes: red, green, blue.
    Rgb,
    /// Three bytes: blue, green, red.
    Bgr,
    /// One byte of grey.
    U8,
}

/// The layout of a frame buffer.
#[derive(Debug, Clone, Copy, PartialEq, Eq)]
pub struct FrameBufferInfo {
    /// The width in pixels.
    pub width: usize,
    /// The height in pixels.
    pub height: usize,
    /// The number of pixels from the start of a line to the start of the next.
    pub stride: usize,
    /// The number of bytes from a pixel to the next.
    pub bytes_per_pixel: usize,
    /// How a pixel lies in the buffer.
    pub pixel_format: PixelFormat,
}

/// The grey of a colour: a third of each channel, added up.
pub open spec fn gray(color: Color) -> u8 {
    (color.red / 3 + color.green / 3 + color.blue / 3) as u8
}

/// The bytes of a pixel of the given colour.
pub open spec fn pixel_bytes(format: PixelFormat, color: Color) -> Seq<u8> {
    match format {
        PixelFormat::Rgb => seq![color.red, color.green, color.blue],
        PixelFormat::Bgr => seq![color.blue, color.green, color.red],
        PixelFormat::U8 => seq![gray(color)],
    }
}

/// A buffer with `bytes` written into it from `offset` on.
pub open spec fn overwritten(buffer: Seq<u8>, offset: int, bytes: Seq<u8>) -> Seq<u8> {
    Seq::new(
        buffer.len(),
        |i: int|
            if offset <= i < offset + bytes.len() {
                bytes[i - offset]
            } else {
                buffer[i]
            },
    )
}

impl FrameBufferInfo {
    /// The offset of the first byte of a pixel.
    pub open spec fn byte_offset(self, position: Position) -> int {
        (position.y * self.stride + position.x) * self.bytes_per_pixel
    }

    /// Whether a pixel at `position` lies inside a buffer of `byte_len`
    /// bytes, and its offset can be computed.
    pub open spec fn holds(self, position: Position, byte_len: nat) -> bool {
        &&& position.y * self.stride + position.x <= usize::MAX
        &&& self.byte_offset(position) + pixel_bytes(
            self.pixel_format,
            Color { red: 0, green: 0, blue: 0 },
        ).len() <= byte_len
    }

    /// Whether the layout fits a buffer of `byte_len` bytes: a line is no
    /// longer than the stride, a pixel no larger than the step from one to
    /// the next, and all lines lie inside the buffer.
    pub open spec fn fits(self, byte_len: nat) -> bool {
        &&& self.width <= self.stride
        &&& pixel_bytes(self.pixel_format, Color { red: 0, green: 0, blue: 0 }).len()
            <= self.bytes_per_pixel
        &&& self.height * self.stride * self.bytes_per_pixel <= byte_len
    }

    /// Whether a point with these coordinates is a pixel of the picture.
    pub fn contains(&self, x: i32, y: i32) -> (inside: bool)
        ensures
            inside == (0 <= x < self.width && 0 <= y < self.height),
    {
        x >= 0 && y >= 0 && (x as usize) < self.width && (y as usize) < self.height
    }
}

/// In a layout that fits its buffer, every pixel of the picture lies inside
/// the buffer.
pub proof fn lemma_pixels_lie_inside(info: FrameBufferInfo, position: Position, byte_len: nat)
    requires
        info.fits(byte_len),
        byte_len <= usize::MAX,
        position.x < info.width,
        position.y < info.height,
    ensures
        info.holds(position, byte_len),
{
    let pixels = position.y * info.stride + position.x;
    let size = pixel_bytes(info.pixel_format, Color { red: 0, green: 0, blue: 0 }).len();
    assert(pixels + 1 <= info.height * info.stride) by (nonlinear_arith)
        requires
            pixels == position.y * info.stride + position.x,
            position.x < info.stride,
            position.y < info.height,
    ;
    assert((pixels + 1) * info.bytes_per_pixel <= info.height * info.stride
        * info.bytes_per_pixel) by (nonlinear_arith)
        requires
            pixels + 1 <= info.height * info.stride,
    ;
    assert((pixels + 1) * info.bytes_per_pixel == pixels * info.bytes_per_pixel
        + info.bytes_per_pixel) by (nonlinear_arith);
    assert(pixels <= pixels * info.bytes_per_pixel) by (nonlinear_arith)
        requires
            pixels >= 0,
            info.bytes_per_pixel >= 1,
    ;
}

/// Writes one pixel: its bytes, in the order of the pixel format, go to the
/// pixel's place in the buffer. Nothing else in the buffer changes.
pub fn set_pixel_in(buffer: &mut [u8], info: &FrameBufferInfo, position: Position, color: Color)
    requires
        info.holds(position, old(buffer)@.len()),
    ensures
        final(buffer)@ == overwritten(
            old(buffer)@,
            info.byte_offset(position),
            pixel_bytes(info.pixel_format, color),
        ),
{
    let byte_len: usize = buffer.len();
    assert((position.y * info.stride + position.x) * info.bytes_per_pixel <= byte_len);
    assert(position.y * info.stride <= usize::MAX) by (nonlinear_arith)
        requires
            position.y * info.stride + position.x <= usize::MAX,
    ;
    let line_offset: usize = position.y * info.stride;
    let pixel_offset: usize = line_offset + position.x;
    let byte_offset: usize = pixel_offset * info.bytes_per_pixel;
    match info.pixel_format {
        PixelFormat::Rgb => {
            buffer[byte_offset] = color.red;
            buffer[byte_offset + 1] = color.green;
            buffer[byte_offset + 2] = color.blue;
        },
        PixelFormat::Bgr => {
            buffer[byte_offset] = color.blue;
            buffer[byte_offset + 1] = color.green;
            buffer[byte_offset + 2] = color.red;
        },
        PixelFormat::U8 => {
            let gray: u8 = color.red / 3 + color.green / 3 + color.blue / 3;
            buffer[byte_offset] = gray;
        },
    }
    assert(buffer@ =~= overwritten(
        old(buffer)@,
        info.byte_offset(position),
        pixel_bytes(info.pixel_format, color),
    ));
}

/// Draws a point of a picture: a point inside the picture becomes a pixel, a
/// point outside it is ignored.
pub fn draw_pixel(buffer: &mut [u8], info: &FrameBufferInfo, x: i32, y: i32, color: Color)
    requires
        info.fits(old(buffer)@.len()),
    ensures
        final(buffer)@ == (if 0 <= x < info.width && 0 <= y < info.height {
            overwritten(
                old(buffer)@,
                info.byte_offset(Position { x: x as usize, y: y as usize }),
                pixel_bytes(info.pixel_format, color),
            )
        } else {
            old(buffer)@
        }),
{
    if info.contains(x, y) {
        let position = Position { x: x as usize, y: y as usize };
        let byte_len: usize = buffer.len();
        proof {
            lemma_pixels_lie_inside(*info, position, buffer@.len());
        }
        set_pixel_in(buffer, info, position, color);
    }
}

/// `count` zero bytes.
pub open spec fn zeros(count: nat) -> Seq<u8> {
    Seq::new(count, |i: int| 0u8)
}

impl FrameBufferInfo {
    /// The number of bytes that `rows` lines of pixels take.
    pub open spec fn rows_len(self, rows: usize) -> int {
        self.stride * self.bytes_per_pixel * rows
    }

    /// The number of bytes that the picture takes.
    pub open spec fn picture_len(self) -> int {
        self.stride * self.height * self.bytes_per_pixel
    }

    /// Whether a picture can be moved by `rows` lines inside a buffer of
    /// `byte_len` bytes: the lines are part of the picture, and the picture
    /// lies inside the buffer.
    pub open spec fn can_shift(self, rows: usize, byte_len: nat) -> bool {
        self.rows_len(rows) <= self.picture_len() <= byte_len
    }

    /// Computes [`Self::rows_len`] and [`Self::picture_len`], if they are no
    /// more than `byte_len`.
    pub fn shift_lengths(&self, rows: usize, byte_len: usize) -> (lengths: Option<(usize, usize)>)
        ensures
            lengths is Some <==> self.can_shift(rows, byte_len as nat),
            lengths matches Some((moved, picture)) ==> moved == self.rows_len(rows) && picture
                == self.picture_len(),
    {
        let picture: usize = match self.stride.checked_mul(self.height) {
            Some(pixels) => match pixels.checked_mul(self.bytes_per_pixel) {
                Some(bytes) => bytes,
                None => {
                    return None;
                },
            },
            None => {
                proof {
                    if self.bytes_per_pixel > 0 {
                        assert(self.stride * self.height <= self.stride * self.height
                            * self.bytes_per_pixel) by (nonlinear_arith)
                            requires
                                self.bytes_per_pixel > 0,
                        ;
                    } else {
                        assert(self.stride * self.height * self.bytes_per_pixel == 0)
                            by (nonlinear_arith)
                            requires
                                self.bytes_per_pixel == 0,
                        ;
                        assert(self.stride * self.bytes_per_pixel * rows == 0) by (nonlinear_arith)
                            requires
                                self.bytes_per_pixel == 0,
                        ;
                    }
                }
                if self.bytes_per_pixel == 0 {
                    return Some((0, 0));
                }
                return None;
            },
        };
        if picture > byte_len {
            return None;
        }
        let moved: usize = match self.stride.checked_mul(self.bytes_per_pixel) {
            Some(line) => match line.checked_mul(rows) {
                Some(bytes) => bytes,
                None => {
                    return None;
                },
            },
            None => {
                proof {
                    if rows > 0 {
                        assert(self.stride * self.bytes_per_pixel <= self.stride
                            * self.bytes_per_pixel * rows) by (nonlinear_arith)
                            requires
                                rows > 0,
                        ;
                    } else {
                        assert(self.stride * self.bytes_per_pixel * rows == 0) by (nonlinear_arith)
                            requires
                                rows == 0,
                        ;
                    }
                }
                if rows == 0 {
                    return Some((0, picture));
                }
                return None;
            },
        };
        if moved > picture {
            return None;
        }
        Some((moved, picture))
    }
}

/// Moves the picture towards the start of the buffer by `rows` lines of
/// pixels: the first `rows` lines are lost, the others follow on, and the
/// last `rows` lines of the picture become zero. What lies behind the picture
/// stays.
pub fn shift_framebuffer_down(buffer: &mut [u8], info: &FrameBufferInfo, rows: usize)
    requires
        info.can_shift(rows, old(buffer)@.len()),
    ensures
        final(buffer)@ == old(buffer)@.subrange(info.rows_len(rows), info.picture_len()) + zeros(info.rows_len(rows) as nat)
            + old(buffer)@.subrange(info.picture_len(), old(buffer)@.len() as int),
{
    let byte_len: usize = buffer.len();
    let (moved, picture) = match info.shift_lengths(rows, byte_len) {
        Some(lengths) => lengths,
        None => {
            return ;
        },
    };
    let kept: usize = picture - moved;
    let mut i: usize = 0;
    while i < kept
        invariant
            i <= kept,
            kept + moved == picture,
            picture <= byte_len,
            buffer@.len() == byte_len,
            old(buffer)@.len() == byte_len,
            forall|k: int| 0 <= k < i ==> buffer@[k] == old(buffer)@[k + moved],
            forall|k: int| i <= k < byte_len ==> buffer@[k] == old(buffer)@[k],
        decreases kept - i,
    {
        let byte: u8 = buffer[i + moved];
        buffer[i] = byte;
        i = i + 1;
    }
    while i < picture
        invariant
            kept <= i <= picture,
            kept + moved == picture,
            picture <= byte_len,
            buffer@.len() == byte_len,
            old(buffer)@.len() == byte_len,
            forall|k: int| 0 <= k < kept ==> buffer@[k] == old(buffer)@[k + moved],
            forall|k: int| kept <= k < i ==> buffer@[k] == 0,
            forall|k: int| i <= k < byte_len ==> buffer@[k] == old(buffer)@[k],
        decreases picture - i,
    {
        buffer[i] = 0;
        i = i + 1;
    }
    assert(buffer@ =~= old(buffer)@.subrange(moved as int, picture as int) + zeros(moved as nat)
        + old(buffer)@.subrange(picture as int, byte_len as int));
}

/// Moves the picture towards the end of the buffer by `rows` lines of
/// pixels: the first `rows` lines become zero, the others follow on, and
/// the last `rows` lines of the picture are lost. What lies behind the
/// picture stays.
pub fn shift_framebuffer_up(buffer: &mut [u8], info: &FrameBufferInfo, rows: usize)
    requires
        info.can_shift(rows, old(buffer)@.len()),
    ensures
        final(buffer)@ == zeros(info.rows_len(rows) as nat) + old(buffer)@.subrange(0, info.picture_len() - info.rows_len(rows))
            + old(buffer)@.subrange(info.picture_len(), old(buffer)@.len() as int),
{
    let byte_len: usize = buffer.len();
    let (moved, picture) = match info.shift_lengths(rows, byte_len) {
        Some(lengths) => lengths,
        None => {
            return ;
        },
    };
    let kept: usize = picture - moved;
    let mut i: usize = picture;
    while i > moved
        invariant
            moved <= i <= picture,
            kept + moved == picture,
            picture <= byte_len,
            buffer@.len() == byte_len,
            old(buffer)@.len() == byte_len,
            forall|k: int| i <= k < picture ==> buffer@[k] == old(buffer)@[k - moved],
            forall|k: int| 0 <= k < i ==> buffer@[k] == old(buffer)@[k],
            forall|k: int| picture <= k < byte_len ==> buffer@[k] == old(buffer)@[k],
        decreases i,
    {
        i = i - 1;
        let byte: u8 = buffer[i - moved];
        buffer[i] = byte;
    }
    while i > 0
        invariant
            i <= moved,
            kept + moved == picture,
            picture <= byte_len,
            buffer@.len() == byte_len,
            old(buffer)@.len() == byte_len,
            forall|k: int| moved <= k < picture ==> buffer@[k] == old(buffer)@[k - moved],
            forall|k: int| i <= k < moved ==> buffer@[k] == 0,
            forall|k: int| picture <= k < byte_len ==> buffer@[k] == old(buffer)@[k],
        decreases i,
    {
        i = i - 1;
        buffer[i] = 0;
    }
    assert(buffer@ =~= zeros(moved as nat) + old(buffer)@.subrange(0, picture - moved)
        + old(buffer)@.subrange(picture as int, byte_len as int));
}

} // verus!
