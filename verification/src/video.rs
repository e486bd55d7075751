//! The Video device: two WIDTH×HEIGHT layers of palette indices (background
//! and foreground), drawing ports for single pixels, rectangular fills and
//! 8×8 sprites, and a dirty-flagged composite buffer where the foreground
//! wins wherever it is non-zero.

use vstd::prelude::*;

use crate::arith::{be_short, min_u8, spec_min_u8, zeroed};
use crate::cpu::{Cpu, CpuView, Ports};

verus! {

/// Port window of the Video device.
pub struct VideoPorts {}

impl Ports for VideoPorts {
    const BASE: u8 = 0x10;
}

/// Frame-vector port (short), as an offset inside the window.
pub const VIDEO_VECTOR: u8 = 0x00;

/// X-coordinate port (byte).
pub const VIDEO_X: u8 = 0x02;

/// Y-coordinate port (byte).
pub const VIDEO_Y: u8 = 0x03;

/// Pixel command port (byte); writing it triggers a pixel write or fill.
pub const VIDEO_PIXEL: u8 = 0x04;

/// Sprite source address port (short).
pub const VIDEO_ADDRESS: u8 = 0x08;

/// Sprite command port (byte); writing it triggers an 8×8 blit.
pub const VIDEO_SPRITE: u8 = 0x0a;

pub const SCREEN_WIDTH: u8 = 192;

pub const SCREEN_HEIGHT: u8 = 144;

/// SCREEN_WIDTH * SCREEN_HEIGHT.
pub const VIDEO_BUFFER_LEN: usize = 27648;

pub type Pixel = u8;

pub type VideoBuffer = Vec<Pixel>;

/// The composite of the two layers: the foreground wherever it is non-zero,
/// the background elsewhere.
pub open spec fn composite(bg: Seq<u8>, fg: Seq<u8>) -> Seq<u8> {
    Seq::new(bg.len(), |i: int| if fg[i] != 0 {
        fg[i]
    } else {
        bg[i]
    })
}

/// A layer after a rectangular fill: `color` at every pixel whose column is
/// in `x0..=x1` and row in `y0..=y1`, the rest untouched.
pub open spec fn fill_rect(l: Seq<u8>, x0: int, x1: int, y0: int, y1: int, color: u8) -> Seq<u8> {
    Seq::new(l.len(), |i: int| if x0 <= i % 192 <= x1 && y0 <= i / 192 <= y1 {
        color
    } else {
        l[i]
    })
}

/// The sprite pixel at `(row, col)` of the 8×8 tile stored at `addr`: four
/// bytes per row, the high nibble of each byte being the left pixel.
pub open spec fn sprite_pixel(ram: Seq<u8>, addr: u16, row: int, col: int) -> u8 {
    let byte = ram[addr.wrapping_add((4 * row + col / 2) as u16) as int];
    if col % 2 == 0 {
        (0xf0 & byte) >> 4
    } else {
        0x0f & byte
    }
}

/// A layer after an 8×8 sprite blit at `(x, y)`: sprite pixels whose
/// destination falls outside the screen are discarded.
pub open spec fn blit(l: Seq<u8>, ram: Seq<u8>, addr: u16, x: int, y: int) -> Seq<u8> {
    Seq::new(l.len(), |i: int| if x <= i % 192 < x + 8 && y <= i / 192 < y + 8 {
        sprite_pixel(ram, addr, i / 192 - y, i % 192 - x)
    } else {
        l[i]
    })
}

/// Decomposes a buffer index into its row (`i / 192`) and column (`i % 192`).
proof fn lemma_coords(i: int)
    by (nonlinear_arith)
    requires
        0 <= i < 27648,
    ensures
        i == 192 * (i / 192) + i % 192,
        0 <= i % 192 < 192,
        0 <= i / 192 < 144,
{
}

/// The buffer index of on-screen coordinates, with its row and column.
proof fn lemma_index_of(r: int, c: int)
    by (nonlinear_arith)
    requires
        0 <= c < 192,
        0 <= r < 144,
    ensures
        0 <= r * 192 + c < 27648,
        (r * 192 + c) / 192 == r,
        (r * 192 + c) % 192 == c,
{
}

/// The pixel at on-screen coordinates `(x, y)` lies inside the buffer.
proof fn lemma_pixel_index(x: u8, y: u8)
    by (nonlinear_arith)
    requires
        x < 192,
        y < 144,
    ensures
        0 <= (y as int) * 192 + (x as int) < 27648,
{
}

/// Every composite pixel is the foreground pixel where that is non-zero and
/// the background pixel elsewhere.
pub proof fn lemma_composite_pointwise(bg: Seq<u8>, fg: Seq<u8>, i: int)
    requires
        0 <= i < bg.len(),
    ensures
        composite(bg, fg)[i] == (if fg[i] != 0 {
            fg[i]
        } else {
            bg[i]
        }),
{
}

/// A fill writes the color into exactly the pixels of the rectangle and
/// leaves every pixel outside it unchanged.
pub proof fn lemma_fill_rect_pointwise(
    l: Seq<u8>,
    x0: int,
    x1: int,
    y0: int,
    y1: int,
    color: u8,
    i: int,
)
    requires
        0 <= i < l.len(),
    ensures
        (x0 <= i % 192 <= x1 && y0 <= i / 192 <= y1) ==> fill_rect(l, x0, x1, y0, y1, color)[i]
            == color,
        !(x0 <= i % 192 <= x1 && y0 <= i / 192 <= y1) ==> fill_rect(l, x0, x1, y0, y1, color)[i]
            == l[i],
{
}

/// Mathematical state of the Video device.
pub struct VideoView {
    pub bg: Seq<u8>,
    pub fg: Seq<u8>,
    pub buffer: Seq<u8>,
    pub is_dirty: bool,
    pub vector: u16,
}

impl VideoView {
    /// Both layers and the composite buffer are full screens, and a clean
    /// buffer is the composite of the layers.
    pub open spec fn wf(self) -> bool {
        &&& self.bg.len() == VIDEO_BUFFER_LEN
        &&& self.fg.len() == VIDEO_BUFFER_LEN
        &&& self.buffer.len() == VIDEO_BUFFER_LEN
        &&& !self.is_dirty ==> self.buffer == composite(self.bg, self.fg)
    }

    /// The chosen layer: foreground or background.
    pub open spec fn layer(self, to_fg: bool) -> Seq<u8> {
        if to_fg {
            self.fg
        } else {
            self.bg
        }
    }

    /// Replaces the chosen layer.
    pub open spec fn with_layer(self, to_fg: bool, l: Seq<u8>) -> VideoView {
        if to_fg {
            VideoView { fg: l, ..self }
        } else {
            VideoView { bg: l, ..self }
        }
    }

    /// Marks the composite buffer out of date.
    pub open spec fn dirty(self) -> VideoView {
        VideoView { is_dirty: true, ..self }
    }

    /// One pixel written into the chosen layer.
    pub open spec fn put(self, to_fg: bool, x: u8, y: u8, color: u8) -> VideoView {
        self.with_layer(to_fg, self.layer(to_fg).update(y as int * 192 + x as int, color))
    }
}

/// The clamped coordinates named by the X and Y ports of `c`.
pub open spec fn spec_xy(c: CpuView) -> (u8, u8) {
    (
        spec_min_u8(c.dev_byte((0x10 + VIDEO_X) as u8), (SCREEN_WIDTH - 1) as u8),
        spec_min_u8(c.dev_byte((0x10 + VIDEO_Y) as u8), (SCREEN_HEIGHT - 1) as u8),
    )
}

/// The sprite source address named by the ADDRESS port pair of `c`.
pub open spec fn spec_address(c: CpuView) -> u16 {
    be_short(c.dev_byte((0x10 + VIDEO_ADDRESS) as u8), c.dev_byte((0x10 + VIDEO_ADDRESS + 1) as u8))
}

/// Effect of a write to the PIXEL command port: a single pixel write, or a
/// rectangular fill whose span each flip bit anchors at the screen edge.
pub open spec fn spec_deo_pixel(v: VideoView, c: CpuView) -> VideoView {
    let pixel = c.dev_byte((0x10 + VIDEO_PIXEL) as u8);
    let xy = spec_xy(c);
    let x = xy.0;
    let y = xy.1;
    let color = pixel & 0x0f;
    let to_fg = (pixel & 0x10) != 0;
    let is_fill = (pixel & 0x20) != 0;
    if is_fill {
        let flip_x = (pixel & 0x80) != 0;
        let flip_y = (pixel & 0x40) != 0;
        let x0: int = if flip_x {
            0
        } else {
            x as int
        };
        let x1: int = if flip_x {
            x as int
        } else {
            191
        };
        let y0: int = if flip_y {
            0
        } else {
            y as int
        };
        let y1: int = if flip_y {
            y as int
        } else {
            143
        };
        v.dirty().with_layer(to_fg, fill_rect(v.layer(to_fg), x0, x1, y0, y1, color))
    } else {
        v.dirty().put(to_fg, x, y, color)
    }
}

/// Effect of a write to the SPRITE command port: an 8×8 blit from RAM at the
/// ADDRESS port to the clamped coordinates.
pub open spec fn spec_deo_sprite(v: VideoView, c: CpuView) -> VideoView {
    let sprite = c.dev_byte((0x10 + VIDEO_SPRITE) as u8);
    let xy = spec_xy(c);
    let to_fg = (sprite & 0x10) != 0;
    v.dirty().with_layer(
        to_fg,
        blit(v.layer(to_fg), c.ram, spec_address(c), xy.0 as int, xy.1 as int),
    )
}

/// A pixel write whose port coordinates lie off screen stores into the
/// clamped location, and the other layer is never touched.
pub proof fn lemma_pixel_clamped(v: VideoView, c: CpuView)
    requires
        v.wf(),
        c.wf(),
        (c.dev_byte(0x14) & 0x20) == 0,
    ensures
        ({
            let pixel = c.dev_byte(0x14);
            let x = spec_min_u8(c.dev_byte(0x12), 191);
            let y = spec_min_u8(c.dev_byte(0x13), 143);
            let to_fg = (pixel & 0x10) != 0;
            let v2 = spec_deo_pixel(v, c);
            &&& v2.layer(to_fg)[(y as int) * 192 + (x as int)] == (pixel & 0x0f)
            &&& v2.layer(!to_fg) == v.layer(!to_fg)
        }),
{
    let x = spec_min_u8(c.dev_byte(0x12), 191);
    let y = spec_min_u8(c.dev_byte(0x13), 143);
    lemma_pixel_index(x, y);
}

/// A fill with neither flip bit set colors exactly the rectangle from the
/// clamped `(x, y)` to the bottom-right screen corner, leaving the
/// rectangle's complement and the other layer unchanged.
pub proof fn lemma_fill_no_flip(v: VideoView, c: CpuView, i: int)
    requires
        v.wf(),
        c.wf(),
        (c.dev_byte(0x14) & 0x20) != 0,
        (c.dev_byte(0x14) & 0x80) == 0,
        (c.dev_byte(0x14) & 0x40) == 0,
        0 <= i < 27648,
    ensures
        ({
            let pixel = c.dev_byte(0x14);
            let x = spec_min_u8(c.dev_byte(0x12), 191) as int;
            let y = spec_min_u8(c.dev_byte(0x13), 143) as int;
            let to_fg = (pixel & 0x10) != 0;
            let v2 = spec_deo_pixel(v, c);
            &&& (x <= i % 192 && y <= i / 192 ==> v2.layer(to_fg)[i] == (pixel & 0x0f))
            &&& (!(x <= i % 192 && y <= i / 192) ==> v2.layer(to_fg)[i] == v.layer(to_fg)[i])
            &&& v2.layer(!to_fg) == v.layer(!to_fg)
        }),
{
    lemma_coords(i);
}

/// Effect of a DEO routed to the Video device at port offset `target`.
pub open spec fn spec_video_deo(v: VideoView, c: CpuView, target: u8) -> VideoView {
    if target == VIDEO_VECTOR {
        VideoView {
            vector: be_short(c.dev_byte(0x10), c.dev_byte(0x11)),
            ..v
        }
    } else if target == VIDEO_PIXEL {
        spec_deo_pixel(v, c)
    } else if target == VIDEO_SPRITE {
        spec_deo_sprite(v, c)
    } else {
        v
    }
}

/// Dual-layer pixel buffers with a lazily recomposed display buffer.
pub struct VideoDevice {
    bg: Vec<u8>,
    fg: Vec<u8>,
    is_dirty: bool,
    buffer: Vec<u8>,
    vector: u16,
}

impl View for VideoDevice {
    type V = VideoView;

    closed spec fn view(&self) -> VideoView {
        VideoView {
            bg: self.bg@,
            fg: self.fg@,
            buffer: self.buffer@,
            is_dirty: self.is_dirty,
            vector: self.vector,
        }
    }
}

impl VideoDevice {
    pub open spec fn wf(self) -> bool {
        self@.wf()
    }

    pub fn new() -> (r: Self)
        ensures
            r.wf(),
            r@.is_dirty,
            r@.vector == 0,
            forall|i: int| 0 <= i < VIDEO_BUFFER_LEN ==> r@.bg[i] == 0u8,
            forall|i: int| 0 <= i < VIDEO_BUFFER_LEN ==> r@.fg[i] == 0u8,
            forall|i: int| 0 <= i < VIDEO_BUFFER_LEN ==> r@.buffer[i] == 0u8,
    {
        VideoDevice {
            bg: zeroed(VIDEO_BUFFER_LEN),
            fg: zeroed(VIDEO_BUFFER_LEN),
            is_dirty: true,
            buffer: zeroed(VIDEO_BUFFER_LEN),
            vector: 0,
        }
    }

    /// The frame vector installed through the VECTOR port; zero until set.
    pub fn vector(&self) -> (r: u16)
        ensures
            r == self@.vector,
    {
        self.vector
    }

    /// The composite display buffer, recomposed first if any draw since the
    /// last read could have changed a layer.
    pub fn pixels(&mut self) -> (r: &VideoBuffer)
        requires
            old(self).wf(),
        ensures
            final(self).wf(),
            !final(self)@.is_dirty,
            final(self)@.bg == old(self)@.bg,
            final(self)@.fg == old(self)@.fg,
            final(self)@.vector == old(self)@.vector,
            final(self)@.buffer == composite(old(self)@.bg, old(self)@.fg),
            r@ == final(self)@.buffer,
    {
        if self.is_dirty {
            self.refresh_buffer();
            self.is_dirty = false;
        }
        &self.buffer
    }

    /// Rebuilds the composite: the foreground wins wherever it is non-zero.
    fn refresh_buffer(&mut self)
        requires
            old(self).wf(),
        ensures
            final(self)@ == (VideoView {
                buffer: composite(old(self)@.bg, old(self)@.fg),
                ..old(self)@
            }),
    {
        let mut i: usize = 0;
        while i < VIDEO_BUFFER_LEN
            invariant
                self@.bg.len() == VIDEO_BUFFER_LEN,
                self@.fg.len() == VIDEO_BUFFER_LEN,
                self@.buffer.len() == VIDEO_BUFFER_LEN,
                i <= VIDEO_BUFFER_LEN,
                self@.bg == old(self)@.bg,
                self@.fg == old(self)@.fg,
                self@.is_dirty == old(self)@.is_dirty,
                self@.vector == old(self)@.vector,
                forall|j: int|
                    0 <= j < i ==> self@.buffer[j] == composite(old(self)@.bg, old(self)@.fg)[j],
                forall|j: int| i <= j < VIDEO_BUFFER_LEN ==> self@.buffer[j] == old(self)@.buffer[j],
            decreases VIDEO_BUFFER_LEN - i,
        {
            let px = if self.fg[i] != 0x00 {
                self.fg[i]
            } else {
                self.bg[i]
            };
            self.buffer.set(i, px);
            i = i + 1;
        }
        proof {
            assert(self@.buffer =~= composite(old(self)@.bg, old(self)@.fg));
            assert(self@ =~= VideoView {
                buffer: composite(old(self)@.bg, old(self)@.fg),
                ..old(self)@
            });
        }
    }

    /// The clamped coordinates in the X and Y ports of a device window copy.
    fn xy(&self, ports: &Vec<u8>) -> (r: (u8, u8))
        requires
            ports@.len() == 0x10,
        ensures
            r.0 == spec_min_u8(ports@[VIDEO_X as int], (SCREEN_WIDTH - 1) as u8),
            r.1 == spec_min_u8(ports@[VIDEO_Y as int], (SCREEN_HEIGHT - 1) as u8),
    {
        let x = min_u8(ports[VIDEO_X as usize], SCREEN_WIDTH - 1);
        let y = min_u8(ports[VIDEO_Y as usize], SCREEN_HEIGHT - 1);
        (x, y)
    }

    /// The sprite source address in the ADDRESS port pair of a window copy.
    fn address(&self, ports: &Vec<u8>) -> (r: u16)
        requires
            ports@.len() == 0x10,
        ensures
            r == be_short(ports@[VIDEO_ADDRESS as int], ports@[VIDEO_ADDRESS as int + 1]),
    {
        let hi = ports[VIDEO_ADDRESS as usize];
        let lo = ports[VIDEO_ADDRESS as usize + 1];
        crate::arith::join_short(hi, lo)
    }

    /// Installs the frame vector from the VECTOR port pair.
    fn deo_vector(&mut self, cpu: &Cpu)
        requires
            old(self).wf(),
            cpu.wf(),
        ensures
            final(self).wf(),
            final(self)@ == (VideoView {
                vector: be_short(cpu@.dev_byte(0x10), cpu@.dev_byte(0x11)),
                ..old(self)@
            }),
    {
        let ports = cpu.device_page::<VideoPorts>();
        let hi = ports[VIDEO_VECTOR as usize];
        let lo = ports[VIDEO_VECTOR as usize + 1];
        self.vector = crate::arith::join_short(hi, lo);
    }

    /// Writes one pixel of the chosen layer; coordinates must be on screen.
    fn put_pixel(&mut self, x: u8, y: u8, color: u8, to_fg: bool)
        requires
            old(self).wf(),
            old(self)@.is_dirty,
            x < SCREEN_WIDTH,
            y < SCREEN_HEIGHT,
        ensures
            final(self).wf(),
            final(self)@ == old(self)@.put(to_fg, x, y, color),
    {
        proof {
            lemma_pixel_index(x, y);
        }
        let i: usize = y as usize * SCREEN_WIDTH as usize + x as usize;
        if to_fg {
            self.fg.set(i, color);
        } else {
            self.bg.set(i, color);
        }
    }

    /// Fills the rectangle reaching from `(x, y)` to the screen edges, each
    /// flip bit anchoring that axis at the opposite edge instead.
    fn fill(&mut self, x: u8, y: u8, color: u8, to_fg: bool, flip_x: bool, flip_y: bool)
        requires
            old(self).wf(),
            old(self)@.is_dirty,
            x < SCREEN_WIDTH,
            y < SCREEN_HEIGHT,
        ensures
            final(self).wf(),
            final(self)@ == old(self)@.with_layer(
                to_fg,
                fill_rect(
                    old(self)@.layer(to_fg),
                    if flip_x { 0int } else { x as int },
                    if flip_x { x as int } else { 191int },
                    if flip_y { 0int } else { y as int },
                    if flip_y { y as int } else { 143int },
                    color,
                ),
            ),
    {
        let x0: u8 = if flip_x {
            0
        } else {
            x
        };
        let x1: u8 = if flip_x {
            x
        } else {
            SCREEN_WIDTH - 1
        };
        let y0: u8 = if flip_y {
            0
        } else {
            y
        };
        let y1: u8 = if flip_y {
            y
        } else {
            SCREEN_HEIGHT - 1
        };
        let mut col: u8 = x0;
        while col <= x1
            invariant
                self.wf(),
                self@.is_dirty,
                x0 <= col,
                col <= x1 + 1,
                x0 <= x1 < 192,
                y0 <= y1 < 144,
                self@ == old(self)@.with_layer(to_fg, self@.layer(to_fg)),
                self@.layer(to_fg).len() == 27648,
                forall|i: int|
                    0 <= i < 27648 ==> #[trigger] self@.layer(to_fg)[i] == (if x0 <= i % 192 < col
                        && y0 <= i / 192 <= y1 {
                        color
                    } else {
                        old(self)@.layer(to_fg)[i]
                    }),
            decreases x1 + 1 - col,
        {
            let mut row: u8 = y0;
            while row <= y1
                invariant
                    self.wf(),
                    self@.is_dirty,
                    x0 <= col <= x1,
                    x0 <= x1 < 192,
                    y0 <= row,
                    row <= y1 + 1,
                    y0 <= y1 < 144,
                    self@ == old(self)@.with_layer(to_fg, self@.layer(to_fg)),
                    self@.layer(to_fg).len() == 27648,
                    forall|i: int|
                        0 <= i < 27648 ==> #[trigger] self@.layer(to_fg)[i] == (if (x0 <= i % 192
                            < col && y0 <= i / 192 <= y1) || (i % 192 == col && y0 <= i / 192
                            < row) {
                            color
                        } else {
                            old(self)@.layer(to_fg)[i]
                        }),
                decreases y1 + 1 - row,
            {
                self.put_pixel(col, row, color, to_fg);
                proof {
                    lemma_index_of(row as int, col as int);
                    assert forall|i: int| 0 <= i < 27648 implies #[trigger] self@.layer(to_fg)[i]
                        == (if (x0 <= i % 192 < col && y0 <= i / 192 <= y1) || (i % 192 == col && y0
                        <= i / 192 < row + 1) {
                        color
                    } else {
                        old(self)@.layer(to_fg)[i]
                    }) by {
                        lemma_coords(i);
                    };
                }
                row = row + 1;
            }
            col = col + 1;
        }
        proof {
            assert(self@.layer(to_fg) =~= fill_rect(
                old(self)@.layer(to_fg),
                if flip_x { 0int } else { x as int },
                if flip_x { x as int } else { 191int },
                if flip_y { 0int } else { y as int },
                if flip_y { y as int } else { 143int },
                color,
            ));
        }
    }

    /// Handles a write to the PIXEL command port: a single pixel write, or a
    /// rectangular fill when the fill bit is set.
    fn deo_pixel(&mut self, cpu: &Cpu)
        requires
            old(self).wf(),
            cpu.wf(),
        ensures
            final(self).wf(),
            final(self)@ == spec_deo_pixel(old(self)@, cpu@),
    {
        self.is_dirty = true;

        let ports = cpu.device_page::<VideoPorts>();
        let pixel = ports[VIDEO_PIXEL as usize];

        let (x, y) = self.xy(&ports);
        let color = pixel & 0x0f;
        let to_fg = (pixel & 0x10) != 0;
        let is_fill = (pixel & 0x20) != 0;

        if is_fill {
            let flip_x = (pixel & 0x80) != 0;
            let flip_y = (pixel & 0x40) != 0;
            self.fill(x, y, color, to_fg, flip_x, flip_y);
        } else {
            self.put_pixel(x, y, color, to_fg);
        }
    }

    /// Reads the 64 pixels of the 8×8 sprite tile stored at `base_addr`:
    /// four bytes per row, the high nibble of each byte first.
    fn sprite_data(&self, base_addr: u16, cpu: &Cpu) -> (r: Vec<u8>)
        requires
            cpu.wf(),
        ensures
            r@.len() == 64,
            forall|row: int, col: int|
                0 <= row < 8 && 0 <= col < 8 ==> r@[row * 8 + col] == sprite_pixel(
                    cpu@.ram,
                    base_addr,
                    row,
                    col,
                ),
    {
        let mut res: Vec<u8> = Vec::new();
        let mut row: u16 = 0;
        while row < 8
            invariant
                cpu.wf(),
                row <= 8,
                res@.len() == row * 8,
                forall|r0: int, c0: int|
                    0 <= r0 < row && 0 <= c0 < 8 ==> res@[r0 * 8 + c0] == sprite_pixel(
                        cpu@.ram,
                        base_addr,
                        r0,
                        c0,
                    ),
            decreases 8 - row,
        {
            let mut chunk: u16 = 0;
            while chunk < 4
                invariant
                    cpu.wf(),
                    row < 8,
                    chunk <= 4,
                    res@.len() == row * 8 + chunk * 2,
                    forall|r0: int, c0: int|
                        0 <= r0 < row && 0 <= c0 < 8 ==> res@[r0 * 8 + c0] == sprite_pixel(
                            cpu@.ram,
                            base_addr,
                            r0,
                            c0,
                        ),
                    forall|c0: int|
                        0 <= c0 < chunk * 2 ==> res@[row * 8 + c0] == sprite_pixel(
                            cpu@.ram,
                            base_addr,
                            row as int,
                            c0,
                        ),
                decreases 4 - chunk,
            {
                let pixel_data = cpu.ram_peek_byte(base_addr.wrapping_add(row * 4 + chunk));
                res.push((0xf0 & pixel_data) >> 4);
                res.push(0x0f & pixel_data);
                chunk = chunk + 1;
            }
            row = row + 1;
        }
        res
    }

    /// Handles a write to the SPRITE command port: blits the 8×8 tile at the
    /// ADDRESS port to the clamped coordinates, discarding pixels that fall
    /// off screen.
    fn deo_sprite(&mut self, cpu: &Cpu)
        requires
            old(self).wf(),
            cpu.wf(),
        ensures
            final(self).wf(),
            final(self)@ == spec_deo_sprite(old(self)@, cpu@),
    {
        self.is_dirty = true;

        let ports = cpu.device_page::<VideoPorts>();
        let sprite_port = ports[VIDEO_SPRITE as usize];

        let (x, y) = self.xy(&ports);
        let addr = self.address(&ports);
        let data = self.sprite_data(addr, cpu);
        let to_fg = (sprite_port & 0x10) != 0;

        let mut spr_y: u8 = 0;
        while spr_y < 8
            invariant
                self.wf(),
                self@.is_dirty,
                spr_y <= 8,
                x < 192,
                y < 144,
                data@.len() == 64,
                forall|r0: int, c0: int|
                    0 <= r0 < 8 && 0 <= c0 < 8 ==> data@[r0 * 8 + c0] == sprite_pixel(
                        cpu@.ram,
                        addr,
                        r0,
                        c0,
                    ),
                self@ == old(self)@.dirty().with_layer(to_fg, self@.layer(to_fg)),
                self@.layer(to_fg).len() == 27648,
                forall|i: int|
                    0 <= i < 27648 ==> #[trigger] self@.layer(to_fg)[i] == (if x <= i % 192 < x + 8
                        && y <= i / 192 < y + spr_y {
                        sprite_pixel(cpu@.ram, addr, i / 192 - y, i % 192 - x)
                    } else {
                        old(self)@.layer(to_fg)[i]
                    }),
            decreases 8 - spr_y,
        {
            let mut spr_x: u8 = 0;
            while spr_x < 8
                invariant
                    self.wf(),
                    self@.is_dirty,
                    spr_y < 8,
                    spr_x <= 8,
                    x < 192,
                    y < 144,
                    data@.len() == 64,
                    forall|r0: int, c0: int|
                        0 <= r0 < 8 && 0 <= c0 < 8 ==> data@[r0 * 8 + c0] == sprite_pixel(
                            cpu@.ram,
                            addr,
                            r0,
                            c0,
                        ),
                    self@ == old(self)@.dirty().with_layer(to_fg, self@.layer(to_fg)),
                    self@.layer(to_fg).len() == 27648,
                    forall|i: int|
                        0 <= i < 27648 ==> #[trigger] self@.layer(to_fg)[i] == (if (x <= i % 192 < x
                            + 8 && y <= i / 192 < y + spr_y) || (i / 192 == y + spr_y && x <= i
                            % 192 < x + spr_x) {
                            sprite_pixel(cpu@.ram, addr, i / 192 - y, i % 192 - x)
                        } else {
                            old(self)@.layer(to_fg)[i]
                        }),
                decreases 8 - spr_x,
            {
                let spr_pixel = data[spr_y as usize * 8 + spr_x as usize];
                let dx = x + spr_x;
                let dy = y + spr_y;
                if dx < SCREEN_WIDTH && dy < SCREEN_HEIGHT {
                    self.put_pixel(dx, dy, spr_pixel, to_fg);
                    proof {
                        lemma_index_of(dy as int, dx as int);
                    }
                }
                proof {
                    assert forall|i: int| 0 <= i < 27648 implies #[trigger] self@.layer(to_fg)[i]
                        == (if (x <= i % 192 < x + 8 && y <= i / 192 < y + spr_y) || (i / 192 == y
                        + spr_y && x <= i % 192 < x + spr_x + 1) {
                        sprite_pixel(cpu@.ram, addr, i / 192 - y, i % 192 - x)
                    } else {
                        old(self)@.layer(to_fg)[i]
                    }) by {
                        lemma_coords(i);
                    };
                }
                spr_x = spr_x + 1;
            }
            spr_y = spr_y + 1;
        }
        proof {
            assert(self@.layer(to_fg) =~= blit(
                old(self)@.layer(to_fg),
                cpu@.ram,
                addr,
                x as int,
                y as int,
            ));
        }
    }

    /// Handles a DEO callback routed to this device; `target` is the port
    /// offset inside the window. The VECTOR, PIXEL and SPRITE ports react;
    /// the X, Y and ADDRESS ports are plain storage.
    pub fn deo(&mut self, cpu: &Cpu, target: u8)
        requires
            old(self).wf(),
            cpu.wf(),
        ensures
            final(self).wf(),
            final(self)@ == spec_video_deo(old(self)@, cpu@, target),
    {
        if target == VIDEO_VECTOR {
            self.deo_vector(cpu);
        } else if target == VIDEO_PIXEL {
            self.deo_pixel(cpu);
        } else if target == VIDEO_SPRITE {
            self.deo_sprite(cpu);
        }
    }
}

} // verus!
