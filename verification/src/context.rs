//! Printer state: text styling, barcode and 2D-code settings, graphics
//! areas, and the page-mode subsystem with its logical-to-render area
//! translation and rotation arithmetic.
use vstd::prelude::*;

use crate::graphics::{GraphicsCommand, Image, ImageRef, TextSpan};
use crate::util::{sat_add_u32, sat_sub};

verus! {

#[derive(Clone, Copy, PartialEq, Eq, Structural, Debug)]
pub enum TextJustify {
    Left,
    Center,
    Right,
}

#[derive(Clone, Copy, PartialEq, Eq, Structural, Debug)]
pub enum TextStrikethrough {
    Off,
    On,
    Double,
}

#[derive(Clone, Copy, PartialEq, Eq, Structural, Debug)]
pub enum TextUnderline {
    Off,
    On,
    Double,
}

#[derive(Clone, Copy, PartialEq, Eq, Structural, Debug)]
pub enum Font {
    A,
    B,
    C,
    D,
    E,
    SpecialA,
    SpecialB,
}

impl Font {
    /// The font selected by a raw command byte; unrecognized bytes fall
    /// back to font A.
    pub fn from_raw(byte: u8) -> (f: Font)
        ensures
            f == Font::spec_from_raw(byte),
    {
        match byte {
            0 | 48 => Font::A,
            1 | 49 => Font::B,
            2 | 50 => Font::C,
            3 | 51 => Font::D,
            4 | 52 => Font::E,
            97 => Font::SpecialA,
            98 => Font::SpecialB,
            _ => Font::A,
        }
    }

    pub open spec fn spec_from_raw(byte: u8) -> Font {
        if byte == 0 || byte == 48 {
            Font::A
        } else if byte == 1 || byte == 49 {
            Font::B
        } else if byte == 2 || byte == 50 {
            Font::C
        } else if byte == 3 || byte == 51 {
            Font::D
        } else if byte == 4 || byte == 52 {
            Font::E
        } else if byte == 97 {
            Font::SpecialA
        } else if byte == 98 {
            Font::SpecialB
        } else {
            Font::A
        }
    }

    /// Character cell size in pixels: font A is 12x24, every other font
    /// uses the 9x17 cell.
    pub fn to_size(&self) -> (s: (u8, u8))
        ensures
            *self == Font::A ==> s == (12u8, 24u8),
            *self != Font::A ==> s == (9u8, 17u8),
    {
        if *self == Font::A {
            (12, 24)
        } else {
            (9, 17)
        }
    }
}

#[derive(Clone, Copy, PartialEq, Eq, Structural, Debug)]
pub enum HumanReadableInterface {
    Off,
    Above,
    Below,
    Both,
}

#[derive(Clone, Copy, PartialEq, Eq, Structural, Debug)]
pub struct RGBA {
    pub r: u8,
    pub g: u8,
    pub b: u8,
    pub a: u8,
}

/// Which byte-to-character table is active. The decoding tables themselves
/// live with the output side; the context only records the selection, with
/// table 255 reserved for UTF-8 passthrough.
#[derive(Clone, Copy, PartialEq, Eq, Structural, Debug)]
pub struct Codepage {
    pub code_table: u8,
    pub character_set: u8,
    pub use_utf8_table: bool,
}

/// The decoder selection for a code table and character set.
pub fn get_codepage(code_table: u8, character_set: u8) -> (c: Codepage)
    ensures
        c.code_table == code_table,
        c.character_set == character_set,
        !c.use_utf8_table,
{
    Codepage { code_table, character_set, use_utf8_table: false }
}

#[derive(Clone, Copy, PartialEq, Eq, Structural, Debug)]
pub struct RenderColors {
    pub paper_color: RGBA,
    pub color_1: RGBA,
    pub color_2: RGBA,
    pub color_3: RGBA,
}

impl RenderColors {
    /// The palette entry selected by a color number byte; unrecognized
    /// numbers fall back to the primary print color.
    pub fn color_for_number(&self, number: u8) -> (c: &RGBA)
        ensures
            number == 0 ==> *c == self.paper_color,
            number == 1 || number == 49 ==> *c == self.color_1,
            number == 2 || number == 50 ==> *c == self.color_2,
            number == 3 || number == 51 ==> *c == self.color_3,
            !(number == 0 || number == 1 || number == 49 || number == 2 || number == 50 || number
                == 3 || number == 51) ==> *c == self.color_1,
    {
        match number {
            0 => &self.paper_color,
            1 | 49 => &self.color_1,
            2 | 50 => &self.color_2,
            3 | 51 => &self.color_3,
            _ => &self.color_1,
        }
    }
}

#[derive(Clone, Copy, PartialEq, Eq, Structural, Debug)]
pub struct RenderArea {
    pub x: u32,
    pub y: u32,
    pub w: u32,
    pub h: u32,
}

#[derive(Clone, Copy, PartialEq, Eq, Structural, Debug)]
pub struct BarcodeContext {
    pub human_readable: HumanReadableInterface,
    pub width: u8,
    pub height: u8,
    pub font: Font,
}

#[derive(Clone, Copy, PartialEq, Eq, Structural, Debug)]
pub enum QrModel {
    Model1,
    Model2,
    Micro,
}

#[derive(Clone, Copy, PartialEq, Eq, Structural, Debug)]
pub enum QrErrorCorrection {
    L,
    M,
    Q,
    H,
}

#[derive(Clone, Copy, PartialEq, Eq, Structural, Debug)]
pub struct Code2DContext {
    pub qr_model: QrModel,
    pub qr_error_correction: QrErrorCorrection,
    pub qr_size: u8,
    pub pdf417_columns: u8,
    pub pdf417_rows: u8,
    pub pdf417_width: u8,
    pub pdf417_row_height: u8,
    pub pdf417_err_correction: u8,
    pub pdf417_is_truncated: bool,
    pub maxicode_mode: u8,
    pub gs1_databar_width: u8,
    pub gs1_databar_max_width: u32,
    pub composite_width: u8,
    pub composite_max_width: u32,
    pub composite_font: Font,
    pub aztec_mode: u8,
    pub aztec_layers: u8,
    pub aztec_size: u8,
    pub aztec_error_correction: u8,
    pub datamatrix_type: u8,
    pub datamatrix_columns: u8,
    pub datamatrix_rows: u8,
    pub datamatrix_width: u8,
}

#[derive(Clone, Copy, PartialEq, Eq, Structural, Debug)]
pub enum PrintDirection {
    TopLeft2Right,
    BottomRight2Left,
    TopRight2Bottom,
    BottomLeft2Top,
}

#[derive(Clone, Copy, PartialEq, Eq, Structural, Debug)]
pub enum Rotation {
    R0,
    R90,
    R180,
    R270,
}

/// Orientation index of a print direction: each step of one is a quarter
/// turn counterclockwise of the page content.
pub open spec fn dir_index(d: PrintDirection) -> int {
    match d {
        PrintDirection::TopLeft2Right => 0,
        PrintDirection::BottomLeft2Top => 1,
        PrintDirection::BottomRight2Left => 2,
        PrintDirection::TopRight2Bottom => 3,
    }
}

/// Whether a direction lays text along the paper's vertical axis, so that
/// the page area's width and height trade places.
pub open spec fn dimension_swaps(d: PrintDirection) -> bool {
    match d {
        PrintDirection::TopLeft2Right | PrintDirection::BottomRight2Left => false,
        _ => true,
    }
}

/// Quarter turns needed to go from one direction to another, in 0..4.
pub open spec fn rotation_delta(from: PrintDirection, to: PrintDirection) -> int {
    (dir_index(to) - dir_index(from)) % 4
}

pub open spec fn rotation_for(delta: int) -> Rotation {
    if delta == 1 {
        Rotation::R90
    } else if delta == 2 {
        Rotation::R180
    } else if delta == 3 {
        Rotation::R270
    } else {
        Rotation::R0
    }
}

pub open spec fn rotation_degrees(r: Rotation) -> int {
    match r {
        Rotation::R0 => 0,
        Rotation::R90 => 90,
        Rotation::R180 => 180,
        Rotation::R270 => 270,
    }
}

/// The render area a logical area maps to under a print direction, inside
/// a page area of the given dimensions. Subtractions saturate at zero.
pub open spec fn translate_area(d: PrintDirection, l: RenderArea, p: RenderArea) -> RenderArea {
    match d {
        PrintDirection::TopLeft2Right => RenderArea { x: l.x, y: l.y, w: l.w, h: l.h },
        PrintDirection::BottomRight2Left => (RenderArea {
            x: sat_sub(p.w as int, l.x + l.w) as u32,
            y: l.y,
            w: l.w,
            h: l.h,
        }),
        PrintDirection::TopRight2Bottom => (RenderArea {
            x: sat_sub(p.w as int, l.y + l.h) as u32,
            y: sat_sub(p.h as int, l.x + l.w) as u32,
            w: l.h,
            h: l.w,
        }),
        PrintDirection::BottomLeft2Top => (RenderArea {
            x: sat_sub(p.w as int, l.y + l.h) as u32,
            y: l.x,
            w: l.h,
            h: l.w,
        }),
    }
}

#[derive(Clone, Copy, PartialEq, Eq, Structural, Debug)]
pub struct PageModeContext {
    /// Whether page mode is active.
    pub enabled: bool,
    /// The area exactly as programmed by the page-area command.
    pub logical_area: RenderArea,
    /// The drawing rectangle, a translation of the logical area.
    pub render_area: RenderArea,
    /// The total page envelope; grows as render areas are applied.
    pub page_area: RenderArea,
    pub direction: PrintDirection,
    pub previous_direction: PrintDirection,
}

impl PageModeContext {
    /// Re-derives the render area from the logical area after a direction
    /// or area change: swaps the page dimensions exactly when the new and
    /// old directions disagree on orientation, translates the logical
    /// area, and grows the page envelope to cover it. Returns the rotation
    /// between the two directions and the page dimensions.
    pub fn apply_logical_area(&mut self) -> (r: (Rotation, u32, u32))
        ensures
            applies_logical_area(*old(self), *final(self), r),
    {
        let rotation = self.calculate_directional_rotation(
            &self.previous_direction,
            &self.direction,
        );

        let previously_swapped = PageModeContext::should_dimension_swap(&self.previous_direction);
        let should_swap = PageModeContext::should_dimension_swap(&self.direction);

        if !previously_swapped && should_swap || !should_swap && previously_swapped {
            let tmp_w = self.page_area.w;
            self.page_area.w = self.page_area.h;
            self.page_area.h = tmp_w;
        }

        match self.direction {
            PrintDirection::TopLeft2Right => self.translate_top_left_to_right(),
            PrintDirection::BottomRight2Left => self.translate_bottom_right_to_left(),
            PrintDirection::TopRight2Bottom => self.translate_top_right_to_bottom(),
            PrintDirection::BottomLeft2Top => self.translate_bottom_left_to_top(),
        }

        self.page_area.x = self.render_area.x;
        self.page_area.y = self.render_area.y;

        let render_max_width = self.render_area.x.saturating_add(self.render_area.w);
        let render_max_height = self.render_area.y.saturating_add(self.render_area.h);

        if render_max_width > self.page_area.w {
            self.page_area.w = render_max_width;
        }
        if render_max_height > self.page_area.h {
            self.page_area.h = render_max_height;
        }

        (rotation, self.page_area.w, self.page_area.h)
    }

    /// Moves the render x to an offset from the page's left edge.
    pub fn set_x(&mut self, x: u32)
        ensures
            *final(self) == (PageModeContext {
                render_area: RenderArea {
                    x: sat_add_u32(old(self).page_area.x as int, x as int) as u32,
                    ..old(self).render_area
                },
                ..*old(self)
            }),
    {
        self.render_area.x = self.page_area.x.saturating_add(x);
    }

    /// Moves the render y to an offset from the page's top edge.
    pub fn set_y(&mut self, y: u32)
        ensures
            *final(self) == (PageModeContext {
                render_area: RenderArea {
                    y: sat_add_u32(old(self).page_area.y as int, y as int) as u32,
                    ..old(self).render_area
                },
                ..*old(self)
            }),
    {
        self.render_area.y = self.page_area.y.saturating_add(y);
    }

    /// Sets the horizontal position measured from the top-left of the
    /// physical page, whatever the print direction.
    pub fn set_x_absolute(&mut self, x: u32)
        ensures
            old(self).direction == PrintDirection::TopLeft2Right ==> *final(self) == (
            PageModeContext {
                render_area: RenderArea {
                    x: sat_add_u32(old(self).page_area.x as int, x as int) as u32,
                    ..old(self).render_area
                },
                ..*old(self)
            }),
            old(self).direction == PrintDirection::BottomRight2Left ==> *final(self) == (
            PageModeContext {
                render_area: RenderArea {
                    x: sat_sub(
                        sat_add_u32(old(self).page_area.x as int, old(self).render_area.w as int),
                        x as int,
                    ) as u32,
                    ..old(self).render_area
                },
                ..*old(self)
            }),
            old(self).direction == PrintDirection::TopRight2Bottom ==> *final(self) == (
            PageModeContext {
                render_area: RenderArea {
                    y: sat_sub(old(self).render_area.h as int, x as int) as u32,
                    ..old(self).render_area
                },
                ..*old(self)
            }),
            old(self).direction == PrintDirection::BottomLeft2Top ==> *final(self) == (
            PageModeContext {
                render_area: RenderArea {
                    y: sat_add_u32(old(self).page_area.y as int, x as int) as u32,
                    ..old(self).render_area
                },
                ..*old(self)
            }),
    {
        match self.direction {
            PrintDirection::TopLeft2Right => {
                self.render_area.x = self.page_area.x.saturating_add(x);
            },
            PrintDirection::BottomRight2Left => {
                self.render_area.x = self.page_area.x.saturating_add(self.render_area.w)
                    .saturating_sub(x);
            },
            PrintDirection::TopRight2Bottom => {
                self.render_area.y = self.render_area.h.saturating_sub(x);
            },
            PrintDirection::BottomLeft2Top => {
                self.render_area.y = self.page_area.y.saturating_add(x);
            },
        }
    }

    /// Sets the vertical position measured from the top-left of the
    /// physical page, whatever the print direction.
    pub fn set_y_absolute(&mut self, y: u32)
        ensures
            old(self).direction == PrintDirection::TopLeft2Right ==> *final(self) == (
            PageModeContext {
                render_area: RenderArea {
                    y: sat_add_u32(old(self).page_area.y as int, y as int) as u32,
                    ..old(self).render_area
                },
                ..*old(self)
            }),
            old(self).direction == PrintDirection::BottomRight2Left ==> *final(self) == (
            PageModeContext {
                render_area: RenderArea {
                    y: sat_add_u32(
                        old(self).page_area.y as int,
                        sat_sub(old(self).render_area.h as int, y as int),
                    ) as u32,
                    ..old(self).render_area
                },
                ..*old(self)
            }),
            old(self).direction == PrintDirection::TopRight2Bottom ==> *final(self) == (
            PageModeContext {
                render_area: RenderArea {
                    x: sat_add_u32(old(self).page_area.x as int, y as int) as u32,
                    ..old(self).render_area
                },
                ..*old(self)
            }),
            old(self).direction == PrintDirection::BottomLeft2Top ==> *final(self) == (
            PageModeContext {
                render_area: RenderArea {
                    x: sat_add_u32(
                        old(self).page_area.x as int,
                        sat_sub(old(self).render_area.w as int, y as int),
                    ) as u32,
                    ..old(self).render_area
                },
                ..*old(self)
            }),
    {
        match self.direction {
            PrintDirection::TopLeft2Right => {
                self.render_area.y = self.page_area.y.saturating_add(y);
            },
            PrintDirection::BottomRight2Left => {
                self.render_area.y = self.page_area.y.saturating_add(
                    self.render_area.h.saturating_sub(y),
                );
            },
            PrintDirection::TopRight2Bottom => {
                self.render_area.x = self.page_area.x.saturating_add(y);
            },
            PrintDirection::BottomLeft2Top => {
                self.render_area.x = self.page_area.x.saturating_add(
                    self.render_area.w.saturating_sub(y),
                );
            },
        }
    }

    /// Advances the render x.
    pub fn offset_x(&mut self, x: u32)
        ensures
            *final(self) == (PageModeContext {
                render_area: RenderArea {
                    x: sat_add_u32(old(self).render_area.x as int, x as int) as u32,
                    ..old(self).render_area
                },
                ..*old(self)
            }),
    {
        self.render_area.x = self.render_area.x.saturating_add(x);
    }

    /// Advances the render y.
    pub fn offset_y(&mut self, y: u32)
        ensures
            *final(self) == (PageModeContext {
                render_area: RenderArea {
                    y: sat_add_u32(old(self).render_area.y as int, y as int) as u32,
                    ..old(self).render_area
                },
                ..*old(self)
            }),
    {
        self.render_area.y = self.render_area.y.saturating_add(y);
    }

    /// Moves the render x by a signed amount, saturating at zero.
    pub fn offset_x_relative(&mut self, x: i16)
        ensures
            x >= 0 ==> final(self).render_area.x == sat_add_u32(
                old(self).render_area.x as int,
                x as int,
            ),
            x < 0 ==> final(self).render_area.x == sat_sub(old(self).render_area.x as int, -x),
            final(self).render_area.y == old(self).render_area.y,
            final(self).render_area.w == old(self).render_area.w,
            final(self).render_area.h == old(self).render_area.h,
            final(self).page_area == old(self).page_area,
            final(self).logical_area == old(self).logical_area,
            final(self).enabled == old(self).enabled,
            final(self).direction == old(self).direction,
            final(self).previous_direction == old(self).previous_direction,
    {
        if x >= 0 {
            self.render_area.x = self.render_area.x.saturating_add(x as u32);
        } else {
            let mag: u32 = -(x as i32) as u32;
            self.render_area.x = self.render_area.x.saturating_sub(mag);
        }
    }

    /// Moves the render y by a signed amount, saturating at zero.
    pub fn offset_y_relative(&mut self, y: i16)
        ensures
            y >= 0 ==> final(self).render_area.y == sat_add_u32(
                old(self).render_area.y as int,
                y as int,
            ),
            y < 0 ==> final(self).render_area.y == sat_sub(old(self).render_area.y as int, -y),
            final(self).render_area.x == old(self).render_area.x,
            final(self).render_area.w == old(self).render_area.w,
            final(self).render_area.h == old(self).render_area.h,
            final(self).page_area == old(self).page_area,
            final(self).logical_area == old(self).logical_area,
            final(self).enabled == old(self).enabled,
            final(self).direction == old(self).direction,
            final(self).previous_direction == old(self).previous_direction,
    {
        if y >= 0 {
            self.render_area.y = self.render_area.y.saturating_add(y as u32);
        } else {
            let mag: u32 = -(y as i32) as u32;
            self.render_area.y = self.render_area.y.saturating_sub(mag);
        }
    }

    /// Whether the direction turns the page a quarter turn, so that width
    /// and height trade places.
    pub fn should_dimension_swap(direction: &PrintDirection) -> (r: bool)
        ensures
            r == dimension_swaps(*direction),
    {
        match direction {
            PrintDirection::TopLeft2Right | PrintDirection::BottomRight2Left => false,
            _ => true,
        }
    }

    fn translate_top_left_to_right(&mut self)
        ensures
            *final(self) == (PageModeContext {
                render_area: translate_area(
                    PrintDirection::TopLeft2Right,
                    old(self).logical_area,
                    old(self).page_area,
                ),
                ..*old(self)
            }),
    {
        self.render_area.w = self.logical_area.w;
        self.render_area.h = self.logical_area.h;
        self.render_area.x = self.logical_area.x;
        self.render_area.y = self.logical_area.y;
    }

    fn translate_bottom_right_to_left(&mut self)
        ensures
            *final(self) == (PageModeContext {
                render_area: translate_area(
                    PrintDirection::BottomRight2Left,
                    old(self).logical_area,
                    old(self).page_area,
                ),
                ..*old(self)
            }),
    {
        self.render_area.w = self.logical_area.w;
        self.render_area.h = self.logical_area.h;
        self.render_area.y = self.logical_area.y;
        self.render_area.x = self.page_area.w.saturating_sub(
            self.logical_area.x.saturating_add(self.logical_area.w),
        );
    }

    fn translate_top_right_to_bottom(&mut self)
        ensures
            *final(self) == (PageModeContext {
                render_area: translate_area(
                    PrintDirection::TopRight2Bottom,
                    old(self).logical_area,
                    old(self).page_area,
                ),
                ..*old(self)
            }),
    {
        self.render_area.w = self.logical_area.h;
        self.render_area.h = self.logical_area.w;
        self.render_area.x = self.page_area.w.saturating_sub(
            self.logical_area.y.saturating_add(self.logical_area.h),
        );
        self.render_area.y = self.page_area.h.saturating_sub(
            self.logical_area.x.saturating_add(self.logical_area.w),
        );
    }

    fn translate_bottom_left_to_top(&mut self)
        ensures
            *final(self) == (PageModeContext {
                render_area: translate_area(
                    PrintDirection::BottomLeft2Top,
                    old(self).logical_area,
                    old(self).page_area,
                ),
                ..*old(self)
            }),
    {
        self.render_area.w = self.logical_area.h;
        self.render_area.h = self.logical_area.w;
        self.render_area.x = self.page_area.w.saturating_sub(
            self.logical_area.y.saturating_add(self.logical_area.h),
        );
        self.render_area.y = self.logical_area.x;
    }

    /// The rotation that carries content laid out for `from` into the
    /// orientation of `to`: a quarter turn per step of orientation index,
    /// modulo a full turn.
    pub fn calculate_directional_rotation(
        &self,
        from: &PrintDirection,
        to: &PrintDirection,
    ) -> (r: Rotation)
        ensures
            r == rotation_for(rotation_delta(*from, *to)),
    {
        let previous: u8 = match from {
            PrintDirection::TopRight2Bottom => 3,
            PrintDirection::BottomRight2Left => 2,
            PrintDirection::BottomLeft2Top => 1,
            PrintDirection::TopLeft2Right => 0,
        };

        let current: u8 = match to {
            PrintDirection::TopRight2Bottom => 3,
            PrintDirection::BottomRight2Left => 2,
            PrintDirection::BottomLeft2Top => 1,
            PrintDirection::TopLeft2Right => 0,
        };

        let orientation_delta: u8 = (current + 4 - previous) % 4;

        match orientation_delta {
            1 => Rotation::R90,
            2 => Rotation::R180,
            3 => Rotation::R270,
            _ => Rotation::R0,
        }
    }
}

/// The page area of a page-mode context after the dimension swap that
/// `apply_logical_area` performs, before the envelope grows.
pub open spec fn spec_swapped_page(p: PageModeContext) -> RenderArea {
    if dimension_swaps(p.previous_direction) != dimension_swaps(p.direction) {
        RenderArea { w: p.page_area.h, h: p.page_area.w, ..p.page_area }
    } else {
        p.page_area
    }
}

/// Everything one page-area application does: the rotation between the
/// old and new directions, the dimension swap, the translated render
/// area, the grown page envelope, and the returned triple.
pub open spec fn applies_logical_area(
    pre: PageModeContext,
    post: PageModeContext,
    r: (Rotation, u32, u32),
) -> bool {
    &&& r.0 == rotation_for(rotation_delta(pre.previous_direction, pre.direction))
    &&& post.render_area == translate_area(
        pre.direction,
        pre.logical_area,
        spec_swapped_page(pre),
    )
    &&& post.page_area.x == post.render_area.x
    &&& post.page_area.y == post.render_area.y
    &&& post.page_area.w == spec_max(
        sat_add_u32(post.render_area.x as int, post.render_area.w as int),
        spec_swapped_page(pre).w as int,
    )
    &&& post.page_area.h == spec_max(
        sat_add_u32(post.render_area.y as int, post.render_area.h as int),
        spec_swapped_page(pre).h as int,
    )
    &&& r.1 == post.page_area.w
    &&& r.2 == post.page_area.h
    &&& post.enabled == pre.enabled
    &&& post.logical_area == pre.logical_area
    &&& post.direction == pre.direction
    &&& post.previous_direction == pre.previous_direction
}

pub open spec fn spec_max(a: int, b: int) -> int {
    if a >= b {
        a
    } else {
        b
    }
}

/// The four quarter-turn rotations produced by walking a sequence of print
/// directions, summed in degrees.
pub open spec fn rotation_sum(dirs: Seq<PrintDirection>) -> int
    decreases dirs.len(),
{
    if dirs.len() < 2 {
        0
    } else {
        rotation_sum(dirs.drop_last()) + 90 * rotation_delta(
            dirs[dirs.len() - 2],
            dirs[dirs.len() - 1],
        )
    }
}

/// Walking the four directions in orientation order and returning to the
/// start turns the page by exactly one full revolution: the rotation
/// deltas sum to 360 degrees, which is 0 modulo 360.
pub proof fn lemma_page_rotation_group()
    ensures
        rotation_sum(
            seq![
                PrintDirection::TopLeft2Right,
                PrintDirection::BottomLeft2Top,
                PrintDirection::BottomRight2Left,
                PrintDirection::TopRight2Bottom,
                PrintDirection::TopLeft2Right,
            ],
        ) == 360,
{
    let s = seq![
        PrintDirection::TopLeft2Right,
        PrintDirection::BottomLeft2Top,
        PrintDirection::BottomRight2Left,
        PrintDirection::TopRight2Bottom,
        PrintDirection::TopLeft2Right,
    ];
    reveal_with_fuel(rotation_sum, 6);
    assert(s.drop_last().drop_last().drop_last().drop_last() =~= seq![
        PrintDirection::TopLeft2Right,
    ]);
    assert(s.drop_last().drop_last().drop_last() =~= seq![
        PrintDirection::TopLeft2Right,
        PrintDirection::BottomLeft2Top,
    ]);
    assert(s.drop_last().drop_last() =~= seq![
        PrintDirection::TopLeft2Right,
        PrintDirection::BottomLeft2Top,
        PrintDirection::BottomRight2Left,
    ]);
    assert(s.drop_last() =~= seq![
        PrintDirection::TopLeft2Right,
        PrintDirection::BottomLeft2Top,
        PrintDirection::BottomRight2Left,
        PrintDirection::TopRight2Bottom,
    ]);
}

/// Whether walking `dirs` flips the page orientation an odd number of
/// times: the exclusive-or of the per-step "needs swap changed" bits.
pub open spec fn swap_parity(dirs: Seq<PrintDirection>) -> bool
    decreases dirs.len(),
{
    if dirs.len() < 2 {
        false
    } else {
        swap_parity(dirs.drop_last()) != (dimension_swaps(dirs[dirs.len() - 2])
            != dimension_swaps(dirs[dirs.len() - 1]))
    }
}

/// Dimension-swap parity: after any sequence of direction changes, the
/// page dimensions stand swapped exactly when the first and the last
/// direction disagree on orientation. The intermediate steps cancel out.
pub proof fn lemma_dimension_swap_parity(dirs: Seq<PrintDirection>)
    requires
        dirs.len() >= 1,
    ensures
        swap_parity(dirs) == (dimension_swaps(dirs[0]) != dimension_swaps(dirs[dirs.len() - 1])),
    decreases dirs.len(),
{
    if dirs.len() == 1 {
    } else {
        lemma_dimension_swap_parity(dirs.drop_last());
        assert(dirs.drop_last()[0] == dirs[0]);
    }
}

/// Text styling and cursor state.
pub struct TextContext {
    pub character_width: u8,
    pub character_height: u8,
    pub character_set: u8,
    pub code_table: u8,
    pub decoder: Codepage,
    pub font_size: u8,
    pub justify: TextJustify,
    pub font: Font,
    pub bold: bool,
    pub italic: bool,
    pub underline: TextUnderline,
    pub strikethrough: TextStrikethrough,
    pub invert: bool,
    pub width_mult: u8,
    pub height_mult: u8,
    pub upside_down: bool,
    /// Pixels advanced per line feed.
    pub line_spacing: u8,
    pub color: RGBA,
    pub background_color: RGBA,
    pub shadow_color: RGBA,
    pub shadow: bool,
    pub smoothing: bool,
    /// Tab stop widths, in character widths each.
    pub tabs: Vec<u8>,
}

impl TextContext {
    /// Field-wise equality, the tab table compared by contents.
    pub open spec fn is_copy_of(self, other: TextContext) -> bool {
        &&& self.character_width == other.character_width
        &&& self.character_height == other.character_height
        &&& self.character_set == other.character_set
        &&& self.code_table == other.code_table
        &&& self.decoder == other.decoder
        &&& self.font_size == other.font_size
        &&& self.justify == other.justify
        &&& self.font == other.font
        &&& self.bold == other.bold
        &&& self.italic == other.italic
        &&& self.underline == other.underline
        &&& self.strikethrough == other.strikethrough
        &&& self.invert == other.invert
        &&& self.width_mult == other.width_mult
        &&& self.height_mult == other.height_mult
        &&& self.upside_down == other.upside_down
        &&& self.line_spacing == other.line_spacing
        &&& self.color == other.color
        &&& self.background_color == other.background_color
        &&& self.shadow_color == other.shadow_color
        &&& self.shadow == other.shadow
        &&& self.smoothing == other.smoothing
        &&& self.tabs@ == other.tabs@
    }
}

impl Clone for TextContext {
    fn clone(&self) -> (r: Self)
        ensures
            r.is_copy_of(*self),
    {
        TextContext {
            character_width: self.character_width,
            character_height: self.character_height,
            character_set: self.character_set,
            code_table: self.code_table,
            decoder: self.decoder,
            font_size: self.font_size,
            justify: self.justify,
            font: self.font,
            bold: self.bold,
            italic: self.italic,
            underline: self.underline,
            strikethrough: self.strikethrough,
            invert: self.invert,
            width_mult: self.width_mult,
            height_mult: self.height_mult,
            upside_down: self.upside_down,
            line_spacing: self.line_spacing,
            color: self.color,
            background_color: self.background_color,
            shadow_color: self.shadow_color,
            shadow: self.shadow,
            smoothing: self.smoothing,
            tabs: crate::graphics::clone_bytes(&self.tabs),
        }
    }
}

/// Deep equality of two stored-image tables.
pub open spec fn stored_graphics_equiv(
    a: Seq<(ImageRef, Image)>,
    b: Seq<(ImageRef, Image)>,
) -> bool {
    &&& a.len() == b.len()
    &&& forall|i: int|
        0 <= i < a.len() ==> (#[trigger] a[i]).0 == b[i].0 && a[i].1.is_copy_of(b[i].1)
}

/// Deep equality of two image lists.
pub open spec fn images_equiv(a: Seq<Image>, b: Seq<Image>) -> bool {
    &&& a.len() == b.len()
    &&& forall|i: int| 0 <= i < a.len() ==> (#[trigger] a[i]).is_copy_of(b[i])
}

/// How one keyed insert changes the stored-image table: the first
/// entry under the key is replaced, or the pair is appended when the
/// key is new; no other entry moves.
pub open spec fn stored_upsert(
    old_table: Seq<(ImageRef, Image)>,
    new_table: Seq<(ImageRef, Image)>,
    key: ImageRef,
    img: Image,
) -> bool {
    if exists|i: int| 0 <= i < old_table.len() && (#[trigger] old_table[i]).0 == key {
        exists|i: int|
            0 <= i < old_table.len() && (#[trigger] old_table[i]).0 == key && (forall|j: int|
                0 <= j < i ==> old_table[j].0 != key) && new_table == old_table.update(
                i,
                (key, img),
            )
    } else {
        new_table == old_table.push((key, img))
    }
}

/// Graphics placement state: the live render area, paper margins,
/// motion units and the stored-image table.
pub struct GraphicsContext {
    /// Main rendering area.
    pub render_area: RenderArea,
    pub render_colors: RenderColors,
    /// Unprintable paper margins; x and y are the left and right margins.
    pub paper_area: RenderArea,
    pub dots_per_inch: u16,
    /// Pixels per vertical motion unit.
    pub v_motion_unit: u8,
    /// Pixels per horizontal motion unit.
    pub h_motion_unit: u8,
    pub graphics_count: u16,
    /// Images stored under a key for later printing. Keys are unique.
    pub stored_graphics: Vec<(ImageRef, Image)>,
    /// Images buffered for the page being composed; the clear-buffer
    /// instruction empties it.
    pub buffer_graphics: Vec<Image>,
}

impl GraphicsContext {
    pub open spec fn is_copy_of(self, other: GraphicsContext) -> bool {
        &&& self.render_area == other.render_area
        &&& self.render_colors == other.render_colors
        &&& self.paper_area == other.paper_area
        &&& self.dots_per_inch == other.dots_per_inch
        &&& self.v_motion_unit == other.v_motion_unit
        &&& self.h_motion_unit == other.h_motion_unit
        &&& self.graphics_count == other.graphics_count
        &&& stored_graphics_equiv(self.stored_graphics@, other.stored_graphics@)
        &&& images_equiv(self.buffer_graphics@, other.buffer_graphics@)
    }

    /// Whether some stored entry carries `key`.
    pub open spec fn spec_has_stored(self, key: ImageRef) -> bool {
        exists|i: int|
            0 <= i < self.stored_graphics@.len() && (#[trigger] self.stored_graphics@[i]).0
                == key
    }

    /// A copy of the stored image under `key`, if one is there.
    pub fn get_stored(&self, key: ImageRef) -> (r: Option<Image>)
        ensures
            r is Some <==> self.spec_has_stored(key),
            r is Some ==> exists|i: int|
                0 <= i < self.stored_graphics@.len() && (#[trigger] self.stored_graphics@[i]).0
                    == key && r->Some_0.is_copy_of(self.stored_graphics@[i].1),
    {
        let mut i: usize = 0;
        while i < self.stored_graphics.len()
            invariant
                i <= self.stored_graphics@.len(),
                forall|j: int|
                    0 <= j < i ==> (#[trigger] self.stored_graphics@[j]).0 != key,
            decreases self.stored_graphics@.len() - i,
        {
            if self.stored_graphics[i].0 == key {
                return Some(self.stored_graphics[i].1.clone());
            }
            i += 1;
        }
        None
    }

    /// Stores an image under `key`: the first entry already carrying
    /// the key is replaced, else the pair is appended; every other
    /// entry survives unchanged.
    pub fn put_stored(&mut self, key: ImageRef, img: Image)
        ensures
            stored_upsert(
                old(self).stored_graphics@,
                final(self).stored_graphics@,
                key,
                img,
            ),
            final(self).spec_has_stored(key),
            final(self).render_area == old(self).render_area,
            final(self).render_colors == old(self).render_colors,
            final(self).paper_area == old(self).paper_area,
            final(self).dots_per_inch == old(self).dots_per_inch,
            final(self).v_motion_unit == old(self).v_motion_unit,
            final(self).h_motion_unit == old(self).h_motion_unit,
            final(self).graphics_count == old(self).graphics_count,
            final(self).buffer_graphics == old(self).buffer_graphics,
    {
        let mut i: usize = 0;
        while i < self.stored_graphics.len()
            invariant
                i <= self.stored_graphics@.len(),
                self == old(self),
                forall|j: int| 0 <= j < i ==> (#[trigger] old(self).stored_graphics@[j]).0 != key,
            decreases self.stored_graphics@.len() - i,
        {
            if self.stored_graphics[i].0 == key {
                let ghost table0 = self.stored_graphics@;
                self.stored_graphics.set(i, (key, img));
                proof {
                    assert(table0[i as int].0 == key);
                    assert(self.stored_graphics@ == table0.update(i as int, (key, img)));
                    assert((self.stored_graphics@[i as int]).0 == key);
                    assert(stored_upsert(table0, self.stored_graphics@, key, img));
                }
                return ;
            }
            i += 1;
        }
        self.stored_graphics.push((key, img));
        proof {
            let last = self.stored_graphics@.len() - 1;
            assert((self.stored_graphics@[last]).0 == key);
            assert(!old(self).spec_has_stored(key));
        }
    }
}

impl Clone for GraphicsContext {
    fn clone(&self) -> (r: Self)
        ensures
            r.is_copy_of(*self),
    {
        let mut stored: Vec<(ImageRef, Image)> = Vec::new();
        let mut i: usize = 0;
        while i < self.stored_graphics.len()
            invariant
                i <= self.stored_graphics@.len(),
                stored@.len() == i,
                forall|j: int|
                    0 <= j < i ==> (#[trigger] stored@[j]).0 == self.stored_graphics@[j].0
                        && stored@[j].1.is_copy_of(self.stored_graphics@[j].1),
            decreases self.stored_graphics@.len() - i,
        {
            let entry = &self.stored_graphics[i];
            stored.push((entry.0, entry.1.clone()));
            i += 1;
        }
        let mut buffered: Vec<Image> = Vec::new();
        let mut k: usize = 0;
        while k < self.buffer_graphics.len()
            invariant
                k <= self.buffer_graphics@.len(),
                buffered@.len() == k,
                forall|j: int|
                    0 <= j < k ==> (#[trigger] buffered@[j]).is_copy_of(
                        self.buffer_graphics@[j],
                    ),
            decreases self.buffer_graphics@.len() - k,
        {
            buffered.push(self.buffer_graphics[k].clone());
            k += 1;
        }
        GraphicsContext {
            render_area: self.render_area,
            render_colors: self.render_colors,
            paper_area: self.paper_area,
            dots_per_inch: self.dots_per_inch,
            v_motion_unit: self.v_motion_unit,
            h_motion_unit: self.h_motion_unit,
            graphics_count: self.graphics_count,
            stored_graphics: stored,
            buffer_graphics: buffered,
        }
    }
}

/// The whole printer state, with an owned snapshot of the power-on
/// defaults that the initialize command restores.
pub struct Context {
    pub default: Option<Box<Context>>,
    pub text: TextContext,
    pub barcode: BarcodeContext,
    pub code2d: Code2DContext,
    pub graphics: GraphicsContext,
    pub page_mode: PageModeContext,
}

/// Deep equality of the mutable parts of two contexts; the default
/// snapshots are compared as values.
pub open spec fn context_equiv(a: Context, b: Context) -> bool {
    &&& a.default == b.default
    &&& a.text.is_copy_of(b.text)
    &&& a.barcode == b.barcode
    &&& a.code2d == b.code2d
    &&& a.graphics.is_copy_of(b.graphics)
    &&& a.page_mode == b.page_mode
}

/// What the reset operation does: with a default snapshot present, the
/// text, barcode, 2D-code and graphics state return to the snapshot
/// while the snapshot itself and the page-mode state stay; without one,
/// nothing changes.
pub open spec fn resets_to(pre: Context, post: Context) -> bool {
    &&& post.default == pre.default
    &&& post.page_mode == pre.page_mode
    &&& pre.default is None ==> post == pre
    &&& pre.default is Some ==> {
        let d = *pre.default->Some_0;
        &&& post.text.is_copy_of(d.text)
        &&& post.barcode == d.barcode
        &&& post.code2d == d.code2d
        &&& post.graphics.is_copy_of(d.graphics)
    }
}

/// Reset idempotence: resetting a context a second time leaves what the
/// first reset produced, because the first reset keeps the default
/// snapshot itself untouched.
pub proof fn lemma_reset_idempotent(c0: Context, c1: Context, c2: Context)
    requires
        resets_to(c0, c1),
        resets_to(c1, c2),
    ensures
        context_equiv(c1, c2),
{
}

/// The power-on defaults: 203 dots per inch on an 80-millimeter paper
/// strip, font A at one-to-one scale, black on white, a tab stop every
/// eight characters, and page mode off.
pub open spec fn initial_settings(c: Context) -> bool {
    &&& c.text.character_width == 12
    &&& c.text.character_height == 24
    &&& c.text.character_set == 0
    &&& c.text.code_table == 0
    &&& c.text.decoder == (Codepage { code_table: 0, character_set: 0, use_utf8_table: false })
    &&& c.text.font_size == 10
    &&& c.text.justify == TextJustify::Left
    &&& c.text.font == Font::A
    &&& !c.text.bold
    &&& !c.text.italic
    &&& c.text.underline == TextUnderline::Off
    &&& c.text.strikethrough == TextStrikethrough::Off
    &&& !c.text.invert
    &&& c.text.width_mult == 1
    &&& c.text.height_mult == 1
    &&& !c.text.upside_down
    &&& c.text.line_spacing == 24
    &&& c.text.color == (RGBA { r: 0, g: 0, b: 0, a: 255 })
    &&& c.text.background_color == (RGBA { r: 255, g: 255, b: 255, a: 255 })
    &&& c.text.shadow_color == (RGBA { r: 0, g: 0, b: 0, a: 255 })
    &&& !c.text.shadow
    &&& !c.text.smoothing
    &&& c.text.tabs@ == Seq::new(32, |i: int| 8u8)
    &&& c.barcode == (BarcodeContext {
        human_readable: HumanReadableInterface::Off,
        width: 3,
        height: 40,
        font: Font::A,
    })
    &&& c.code2d == initial_code2d()
    &&& c.graphics.render_colors == initial_colors()
    &&& c.graphics.render_area == (RenderArea { x: 0, y: 60, w: 609, h: 0 })
    &&& c.graphics.paper_area == (RenderArea { x: 20, y: 20, w: 649, h: 0 })
    &&& c.graphics.dots_per_inch == 203
    &&& c.graphics.v_motion_unit == 1
    &&& c.graphics.h_motion_unit == 1
    &&& c.graphics.graphics_count == 0
    &&& c.graphics.stored_graphics@.len() == 0
    &&& c.graphics.buffer_graphics@.len() == 0
    &&& c.page_mode == (PageModeContext {
        enabled: false,
        logical_area: RenderArea { x: 0, y: 0, w: 0, h: 0 },
        render_area: RenderArea { x: 0, y: 0, w: 0, h: 0 },
        page_area: RenderArea { x: 0, y: 0, w: 0, h: 0 },
        direction: PrintDirection::TopLeft2Right,
        previous_direction: PrintDirection::TopLeft2Right,
    })
}

pub open spec fn initial_code2d() -> Code2DContext {
    Code2DContext {
        qr_model: QrModel::Model1,
        qr_error_correction: QrErrorCorrection::L,
        qr_size: 3,
        pdf417_columns: 0,
        pdf417_rows: 0,
        pdf417_width: 0,
        pdf417_row_height: 0,
        pdf417_err_correction: 0,
        pdf417_is_truncated: false,
        maxicode_mode: 0,
        gs1_databar_width: 0,
        gs1_databar_max_width: 0,
        composite_width: 0,
        composite_max_width: 0,
        composite_font: Font::A,
        aztec_mode: 0,
        aztec_layers: 0,
        aztec_size: 0,
        aztec_error_correction: 0,
        datamatrix_type: 0,
        datamatrix_columns: 0,
        datamatrix_rows: 0,
        datamatrix_width: 0,
    }
}

/// White paper, black primary ink, red and blue alternates.
pub open spec fn initial_colors() -> RenderColors {
    RenderColors {
        paper_color: RGBA { r: 255, g: 255, b: 255, a: 255 },
        color_1: RGBA { r: 0, g: 0, b: 0, a: 255 },
        color_2: RGBA { r: 158, g: 22, b: 22, a: 255 },
        color_3: RGBA { r: 27, g: 57, b: 169, a: 255 },
    }
}

impl Context {
    /// A context holding the power-on defaults, without a snapshot.
    fn initial() -> (r: Context)
        ensures
            initial_settings(r),
            r.default is None,
    {
        let render_colors = RenderColors {
            paper_color: RGBA { r: 255, g: 255, b: 255, a: 255 },
            color_1: RGBA { r: 0, g: 0, b: 0, a: 255 },
            color_2: RGBA { r: 158, g: 22, b: 22, a: 255 },
            color_3: RGBA { r: 27, g: 57, b: 169, a: 255 },
        };
        let mut tabs: Vec<u8> = Vec::new();
        let mut i: usize = 0;
        while i < 32
            invariant
                i <= 32,
                tabs@ =~= Seq::new(i as nat, |j: int| 8u8),
            decreases 32 - i,
        {
            tabs.push(8);
            i += 1;
            proof {
                assert(tabs@ =~= Seq::new(i as nat, |j: int| 8u8));
            }
        }
        Context {
            default: None,
            text: TextContext {
                character_width: 12,
                character_height: 24,
                character_set: 0,
                code_table: 0,
                decoder: get_codepage(0, 0),
                font_size: 10,
                justify: TextJustify::Left,
                font: Font::A,
                bold: false,
                italic: false,
                underline: TextUnderline::Off,
                strikethrough: TextStrikethrough::Off,
                invert: false,
                width_mult: 1,
                height_mult: 1,
                upside_down: false,
                line_spacing: 24,
                color: render_colors.color_1,
                background_color: render_colors.paper_color,
                shadow: false,
                shadow_color: render_colors.color_1,
                smoothing: false,
                tabs,
            },
            barcode: BarcodeContext {
                human_readable: HumanReadableInterface::Off,
                width: 3,
                height: 40,
                font: Font::A,
            },
            code2d: Code2DContext {
                qr_model: QrModel::Model1,
                qr_error_correction: QrErrorCorrection::L,
                qr_size: 3,
                pdf417_columns: 0,
                pdf417_rows: 0,
                pdf417_width: 0,
                pdf417_row_height: 0,
                pdf417_err_correction: 0,
                pdf417_is_truncated: false,
                maxicode_mode: 0,
                gs1_databar_width: 0,
                gs1_databar_max_width: 0,
                composite_width: 0,
                composite_max_width: 0,
                composite_font: Font::A,
                aztec_mode: 0,
                aztec_layers: 0,
                aztec_size: 0,
                aztec_error_correction: 0,
                datamatrix_type: 0,
                datamatrix_columns: 0,
                datamatrix_rows: 0,
                datamatrix_width: 0,
            },
            graphics: GraphicsContext {
                render_colors,
                render_area: RenderArea { x: 0, y: 60, w: 609, h: 0 },
                paper_area: RenderArea { x: 20, y: 20, w: 649, h: 0 },
                dots_per_inch: 203,
                v_motion_unit: 1,
                h_motion_unit: 1,
                graphics_count: 0,
                stored_graphics: Vec::new(),
                buffer_graphics: Vec::new(),
            },
            page_mode: PageModeContext {
                enabled: false,
                logical_area: RenderArea { x: 0, y: 0, w: 0, h: 0 },
                render_area: RenderArea { x: 0, y: 0, w: 0, h: 0 },
                page_area: RenderArea { x: 0, y: 0, w: 0, h: 0 },
                direction: PrintDirection::TopLeft2Right,
                previous_direction: PrintDirection::TopLeft2Right,
            },
        }
    }

    /// A fresh printer context: the power-on defaults, carrying a
    /// snapshot of themselves for the initialize command to restore.
    pub fn new() -> (r: Context)
        ensures
            initial_settings(r),
            r.default is Some,
            initial_settings(*r.default->Some_0),
            (*r.default->Some_0).default is None,
    {
        let snapshot = Context::initial();
        let mut fresh = Context::initial();
        fresh.default = Some(Box::new(snapshot));
        fresh
    }

    /// Restores text, barcode, 2D-code and graphics state from the
    /// default snapshot, leaving the snapshot and page mode in place.
    pub fn reset(&mut self)
        ensures
            resets_to(*old(self), *final(self)),
    {
        if let Some(default) = &self.default {
            self.text = default.text.clone();
            self.barcode = default.barcode;
            self.code2d = default.code2d;
            self.graphics = default.graphics.clone();
        }
    }

    /// Font size in pixels at the configured pixel density; one point is
    /// one ninety-sixth of an inch.
    pub fn font_size_pixels(&self) -> (r: u32)
        ensures
            r == self.text.font_size * self.graphics.dots_per_inch / 96,
    {
        proof {
            assert(self.text.font_size as int * self.graphics.dots_per_inch as int <= 255
                * 65535) by (nonlinear_arith)
                requires
                    self.text.font_size <= 255,
                    self.graphics.dots_per_inch <= 65535,
            ;
        }
        (self.text.font_size as u32 * self.graphics.dots_per_inch as u32) / 96
    }

    /// Converts a measure in points to pixels at the configured density.
    pub fn points_to_pixels(&self, points: u32) -> (r: u32)
        requires
            points * self.graphics.dots_per_inch <= u32::MAX,
        ensures
            r == points * self.graphics.dots_per_inch / 96,
    {
        (points * self.graphics.dots_per_inch as u32) / 96
    }

    /// Sets one tab stop's width; indexes beyond the table do nothing.
    pub fn set_tab_len(&mut self, tab_count: u8, at: u8)
        ensures
            final(self).text.tabs@ == if (at as int) < old(self).text.tabs@.len() {
                old(self).text.tabs@.update(at as int, tab_count)
            } else {
                old(self).text.tabs@
            },
            tabs_only_changed(*old(self), *final(self)),
    {
        if (at as usize) < self.text.tabs.len() {
            self.text.tabs.set(at as usize, tab_count);
        }
    }

    /// The leftmost x of the active render area: zero on the paper
    /// strip, the page origin in page mode.
    pub fn get_base_x(&self) -> (r: u32)
        ensures
            r == spec_base_x(*self),
    {
        if self.page_mode.enabled {
            self.page_mode.page_area.x
        } else {
            0
        }
    }

    /// The top y of the active render area.
    pub fn get_base_y(&self) -> (r: u32)
        ensures
            r == spec_base_y(*self),
    {
        if self.page_mode.enabled {
            self.page_mode.page_area.y
        } else {
            0
        }
    }

    /// The current x position in the active render area.
    pub fn get_x(&self) -> (r: u32)
        ensures
            r == spec_x(*self),
    {
        if self.page_mode.enabled {
            self.page_mode.render_area.x
        } else {
            self.graphics.render_area.x
        }
    }

    /// The current y position in the active render area.
    pub fn get_y(&self) -> (r: u32)
        ensures
            r == spec_y(*self),
    {
        if self.page_mode.enabled {
            self.page_mode.render_area.y
        } else {
            self.graphics.render_area.y
        }
    }

    /// Returns the cursor to the left edge of the active area.
    pub fn reset_x(&mut self)
        ensures
            position_step(*old(self), *final(self)),
            spec_x(*final(self)) == spec_base_x(*old(self)),
            spec_y(*final(self)) == spec_y(*old(self)),
    {
        if self.page_mode.enabled {
            self.page_mode.render_area.x = self.page_mode.page_area.x;
        } else {
            self.graphics.render_area.x = 0;
        }
    }

    /// Returns the cursor to the top edge of the active area.
    pub fn reset_y(&mut self)
        ensures
            position_step(*old(self), *final(self)),
            spec_y(*final(self)) == spec_base_y(*old(self)),
            spec_x(*final(self)) == spec_x(*old(self)),
    {
        if self.page_mode.enabled {
            self.page_mode.render_area.y = self.page_mode.page_area.y;
        } else {
            self.graphics.render_area.y = 0;
        }
    }

    /// Advances the cursor x, saturating at the numeric limit.
    pub fn offset_x(&mut self, x: u32)
        ensures
            position_step(*old(self), *final(self)),
            spec_x(*final(self)) == sat_add_u32(spec_x(*old(self)), x as int),
            spec_y(*final(self)) == spec_y(*old(self)),
    {
        if self.page_mode.enabled {
            self.page_mode.render_area.x = self.page_mode.render_area.x.saturating_add(x);
        } else {
            self.graphics.render_area.x = self.graphics.render_area.x.saturating_add(x);
        }
    }

    /// Advances the cursor y, saturating at the numeric limit.
    pub fn offset_y(&mut self, y: u32)
        ensures
            position_step(*old(self), *final(self)),
            spec_y(*final(self)) == sat_add_u32(spec_y(*old(self)), y as int),
            spec_x(*final(self)) == spec_x(*old(self)),
    {
        if self.page_mode.enabled {
            self.page_mode.render_area.y = self.page_mode.render_area.y.saturating_add(y);
        } else {
            self.graphics.render_area.y = self.graphics.render_area.y.saturating_add(y);
        }
    }

    /// Moves the cursor x by a signed count of horizontal motion units,
    /// saturating at zero on the left.
    pub fn offset_x_relative(&mut self, x: i16)
        ensures
            position_step(*old(self), *final(self)),
            spec_y(*final(self)) == spec_y(*old(self)),
            x >= 0 ==> spec_x(*final(self)) == sat_add_u32(
                spec_x(*old(self)),
                x as int / effective_unit(old(self).graphics.h_motion_unit),
            ),
            x < 0 ==> spec_x(*final(self)) == sat_sub(
                spec_x(*old(self)),
                (-x) as int / effective_unit(old(self).graphics.h_motion_unit),
            ),
    {
        let unit: u32 = if self.graphics.h_motion_unit == 0 {
            1
        } else {
            self.graphics.h_motion_unit as u32
        };
        if x >= 0 {
            let adj: u32 = x as u32 / unit;
            if self.page_mode.enabled {
                self.page_mode.render_area.x = self.page_mode.render_area.x.saturating_add(adj);
            } else {
                self.graphics.render_area.x = self.graphics.render_area.x.saturating_add(adj);
            }
        } else {
            let mag: u32 = (-(x as i32)) as u32;
            let adj: u32 = mag / unit;
            if self.page_mode.enabled {
                self.page_mode.render_area.x = self.page_mode.render_area.x.saturating_sub(adj);
            } else {
                self.graphics.render_area.x = self.graphics.render_area.x.saturating_sub(adj);
            }
        }
    }

    /// Moves the cursor y by a signed count of vertical motion units,
    /// saturating at zero at the top.
    pub fn offset_y_relative(&mut self, y: i16)
        ensures
            position_step(*old(self), *final(self)),
            spec_x(*final(self)) == spec_x(*old(self)),
            y >= 0 ==> spec_y(*final(self)) == sat_add_u32(
                spec_y(*old(self)),
                y as int / effective_unit(old(self).graphics.v_motion_unit),
            ),
            y < 0 ==> spec_y(*final(self)) == sat_sub(
                spec_y(*old(self)),
                (-y) as int / effective_unit(old(self).graphics.v_motion_unit),
            ),
    {
        let unit: u32 = if self.graphics.v_motion_unit == 0 {
            1
        } else {
            self.graphics.v_motion_unit as u32
        };
        if y >= 0 {
            let adj: u32 = y as u32 / unit;
            if self.page_mode.enabled {
                self.page_mode.render_area.y = self.page_mode.render_area.y.saturating_add(adj);
            } else {
                self.graphics.render_area.y = self.graphics.render_area.y.saturating_add(adj);
            }
        } else {
            let mag: u32 = (-(y as i32)) as u32;
            let adj: u32 = mag / unit;
            if self.page_mode.enabled {
                self.page_mode.render_area.y = self.page_mode.render_area.y.saturating_sub(adj);
            } else {
                self.graphics.render_area.y = self.graphics.render_area.y.saturating_sub(adj);
            }
        }
    }

    /// Feeds paper: advances y by the motion-unit count and returns the
    /// cursor to the left edge.
    pub fn feed(&mut self, motion_units: u32)
        ensures
            position_step(*old(self), *final(self)),
            spec_y(*final(self)) == sat_add_u32(spec_y(*old(self)), motion_units as int),
            spec_x(*final(self)) == spec_base_x(*old(self)),
    {
        self.offset_y(motion_units);
        self.reset_x();
    }

    /// Advances `count` lines of the configured line spacing and returns
    /// the cursor to the left edge.
    pub fn newline(&mut self, count: u32)
        ensures
            position_step(*old(self), *final(self)),
            spec_x(*final(self)) == spec_base_x(*old(self)),
            spec_y(*final(self)) == sat_add_u32(
                spec_y(*old(self)),
                sat_mul_u32(old(self).text.line_spacing as int, count as int),
            ),
    {
        proof {
            assert(self.text.line_spacing as int * count as int <= 255 * 0xFFFF_FFFFint)
                by (nonlinear_arith)
                requires
                    self.text.line_spacing <= 255,
                    count <= 0xFFFF_FFFFu32,
            ;
        }
        let spacing: u64 = self.text.line_spacing as u64 * count as u64;
        let advance: u32 = if spacing > 0xFFFF_FFFF {
            0xFFFF_FFFF
        } else {
            spacing as u32
        };
        self.reset_x();
        self.offset_y(advance);
    }

    /// Advances one line sized to the tallest span on it, or the default
    /// line spacing when every span is shorter, returning the cursor to
    /// the left edge.
    pub fn newline_for_spans(&mut self, spans: &Vec<TextSpan>)
        ensures
            position_step(*old(self), *final(self)),
            spec_x(*final(self)) == spec_base_x(*old(self)),
            spec_y(*final(self)) == sat_add_u32(
                spec_y(*old(self)),
                spans_line_height(spans@, old(self).text.line_spacing as int),
            ),
    {
        let mut line_height: u32 = self.text.line_spacing as u32;
        let mut i: usize = 0;
        while i < spans.len()
            invariant
                i <= spans@.len(),
                line_height == spans_line_height(
                    spans@.subrange(0, i as int),
                    old(self).text.line_spacing as int,
                ),
                self == old(self),
            decreases spans@.len() - i,
        {
            proof {
                assert(spans@.subrange(0, i + 1).drop_last() =~= spans@.subrange(0, i as int));
            }
            if spans[i].character_height > line_height {
                line_height = spans[i].character_height;
            }
            i += 1;
        }
        proof {
            assert(spans@.subrange(0, spans@.len() as int) =~= spans@);
        }
        self.reset_x();
        self.offset_y(line_height);
    }

    /// Selects a font and takes over its character cell size.
    pub fn set_font(&mut self, font: Font)
        ensures
            final(self).text.font == font,
            font == Font::A ==> final(self).text.character_width == 12
                && final(self).text.character_height == 24,
            font != Font::A ==> final(self).text.character_width == 9
                && final(self).text.character_height == 17,
            font_only_changed(*old(self), *final(self)),
    {
        let size = font.to_size();
        self.text.font = font;
        self.text.character_width = size.0;
        self.text.character_height = size.1;
    }

    /// Places the cursor x relative to the active area's origin.
    pub fn set_x(&mut self, x: u32)
        ensures
            position_step(*old(self), *final(self)),
            spec_y(*final(self)) == spec_y(*old(self)),
            old(self).page_mode.enabled ==> spec_x(*final(self)) == sat_add_u32(
                old(self).page_mode.page_area.x as int,
                x as int,
            ),
            !old(self).page_mode.enabled ==> spec_x(*final(self)) == x,
    {
        if self.page_mode.enabled {
            self.page_mode.set_x(x);
        } else {
            self.graphics.render_area.x = x;
        }
    }

    /// Places the cursor y relative to the active area's origin.
    pub fn set_y(&mut self, y: u32)
        ensures
            position_step(*old(self), *final(self)),
            spec_x(*final(self)) == spec_x(*old(self)),
            old(self).page_mode.enabled ==> spec_y(*final(self)) == sat_add_u32(
                old(self).page_mode.page_area.y as int,
                y as int,
            ),
            !old(self).page_mode.enabled ==> spec_y(*final(self)) == y,
    {
        if self.page_mode.enabled {
            self.page_mode.set_y(y);
        } else {
            self.graphics.render_area.y = y;
        }
    }

    /// Places the cursor using a horizontal position in motion units
    /// measured from the page's top-left corner.
    pub fn set_x_absolute(&mut self, x: u32)
        ensures
            position_step(*old(self), *final(self)),
            !old(self).page_mode.enabled ==> spec_x(*final(self)) == x as int / effective_unit(
                old(self).graphics.h_motion_unit,
            ) && spec_y(*final(self)) == spec_y(*old(self)),
    {
        let unit: u32 = if self.graphics.h_motion_unit == 0 {
            1
        } else {
            self.graphics.h_motion_unit as u32
        };
        let adj_x = x / unit;
        if self.page_mode.enabled {
            self.page_mode.set_x_absolute(adj_x);
        } else {
            self.graphics.render_area.x = adj_x;
        }
    }

    /// Places the cursor using a vertical position in motion units
    /// measured from the page's top-left corner.
    pub fn set_y_absolute(&mut self, y: u32)
        ensures
            position_step(*old(self), *final(self)),
            !old(self).page_mode.enabled ==> spec_y(*final(self)) == y as int / effective_unit(
                old(self).graphics.v_motion_unit,
            ) && spec_x(*final(self)) == spec_x(*old(self)),
    {
        let unit: u32 = if self.graphics.v_motion_unit == 0 {
            1
        } else {
            self.graphics.v_motion_unit as u32
        };
        let adj_y = y / unit;
        if self.page_mode.enabled {
            self.page_mode.set_y_absolute(adj_y);
        } else {
            self.graphics.render_area.y = adj_y;
        }
    }

    /// Programs the page-mode logical area, scaling each coordinate from
    /// motion units to pixels.
    pub fn set_page_area(&mut self, area: RenderArea)
        ensures
            final(self).page_mode.logical_area == (RenderArea {
                x: (area.x as int / effective_unit(old(self).graphics.h_motion_unit)) as u32,
                y: (area.y as int / effective_unit(old(self).graphics.v_motion_unit)) as u32,
                w: (area.w as int / effective_unit(old(self).graphics.h_motion_unit)) as u32,
                h: (area.h as int / effective_unit(old(self).graphics.v_motion_unit)) as u32,
            }),
            logical_area_only_changed(*old(self), *final(self)),
    {
        let hu: u32 = if self.graphics.h_motion_unit == 0 {
            1
        } else {
            self.graphics.h_motion_unit as u32
        };
        let vu: u32 = if self.graphics.v_motion_unit == 0 {
            1
        } else {
            self.graphics.v_motion_unit as u32
        };
        self.page_mode.logical_area = RenderArea {
            x: area.x / hu,
            y: area.y / vu,
            w: area.w / hu,
            h: area.h / vu,
        };
    }

    /// Width of the active render area.
    pub fn get_width(&self) -> (r: u32)
        ensures
            r == spec_render_width(*self),
    {
        if self.page_mode.enabled {
            self.page_mode.render_area.w
        } else {
            self.graphics.render_area.w
        }
    }

    /// Pixels left on the current line, from the cursor to the right
    /// edge of the active render area.
    pub fn get_available_width(&self) -> (r: u32)
        ensures
            r == spec_available_width(*self),
    {
        if self.page_mode.enabled {
            self.page_mode.render_area.w.saturating_sub(
                self.page_mode.render_area.x.saturating_sub(self.page_mode.page_area.x),
            )
        } else {
            if self.graphics.render_area.x <= self.graphics.render_area.w {
                self.graphics.render_area.w - self.graphics.render_area.x
            } else {
                0
            }
        }
    }

    /// Height of the active render area.
    pub fn get_height(&self) -> (r: u32)
        ensures
            r == if self.page_mode.enabled {
                self.page_mode.render_area.h
            } else {
                self.graphics.render_area.h
            },
    {
        if self.page_mode.enabled {
            self.page_mode.render_area.h
        } else {
            self.graphics.render_area.h
        }
    }

    /// The x offset that places a block of the given width under the
    /// current justification: flush left, centered, or flush right;
    /// zero when the block is wider than the render area.
    pub fn calculate_justification(&self, width: u32) -> (r: u32)
        ensures
            r == justification_offset(
                self.text.justify,
                spec_render_width(*self),
                width as int,
            ),
    {
        let render_width: u32 = if self.page_mode.enabled {
            self.page_mode.render_area.w
        } else {
            self.graphics.render_area.w
        };
        if width > render_width {
            return 0;
        }
        match self.text.justify {
            TextJustify::Center => (render_width - width) / 2,
            TextJustify::Right => render_width - width,
            TextJustify::Left => 0,
        }
    }

    /// The default height of one text line, in pixels.
    pub fn line_height_pixels(&self) -> (r: u32)
        ensures
            r == self.text.line_spacing,
    {
        self.text.line_spacing as u32
    }

    /// Re-derives the decoder selection from the code table and
    /// character set; table 255 selects UTF-8 passthrough.
    pub fn update_decoder(&mut self)
        ensures
            final(self).text.decoder == (Codepage {
                code_table: old(self).text.code_table,
                character_set: old(self).text.character_set,
                use_utf8_table: old(self).text.code_table == 255,
            }),
            decoder_only_changed(*old(self), *final(self)),
    {
        self.text.decoder = get_codepage(self.text.code_table, self.text.character_set);
        self.text.decoder.use_utf8_table = self.text.code_table == 255;
    }
}

/// A motion unit of zero behaves as one pixel per unit.
pub open spec fn effective_unit(unit: u8) -> int {
    if unit == 0 {
        1
    } else {
        unit as int
    }
}

/// `a * b` clamped to `u32::MAX`.
pub open spec fn sat_mul_u32(a: int, b: int) -> int {
    if a * b > u32::MAX {
        u32::MAX as int
    } else {
        a * b
    }
}

/// The tallest character cell among `spans`, but at least `floor`.
pub open spec fn spans_line_height(spans: Seq<TextSpan>, floor: int) -> int
    decreases spans.len(),
{
    if spans.len() == 0 {
        floor
    } else {
        let rest = spans_line_height(spans.drop_last(), floor);
        if spans.last().character_height > rest {
            spans.last().character_height as int
        } else {
            rest
        }
    }
}

pub open spec fn spec_base_x(c: Context) -> int {
    if c.page_mode.enabled {
        c.page_mode.page_area.x as int
    } else {
        0
    }
}

pub open spec fn spec_base_y(c: Context) -> int {
    if c.page_mode.enabled {
        c.page_mode.page_area.y as int
    } else {
        0
    }
}

pub open spec fn spec_x(c: Context) -> int {
    if c.page_mode.enabled {
        c.page_mode.render_area.x as int
    } else {
        c.graphics.render_area.x as int
    }
}

pub open spec fn spec_y(c: Context) -> int {
    if c.page_mode.enabled {
        c.page_mode.render_area.y as int
    } else {
        c.graphics.render_area.y as int
    }
}

pub open spec fn spec_render_width(c: Context) -> int {
    if c.page_mode.enabled {
        c.page_mode.render_area.w as int
    } else {
        c.graphics.render_area.w as int
    }
}

/// Pixels between the cursor and the right edge of the active area.
pub open spec fn spec_available_width(c: Context) -> int {
    if c.page_mode.enabled {
        sat_sub(
            c.page_mode.render_area.w as int,
            sat_sub(c.page_mode.render_area.x as int, c.page_mode.page_area.x as int),
        )
    } else {
        sat_sub(c.graphics.render_area.w as int, c.graphics.render_area.x as int)
    }
}

/// The x offset produced by a justification setting for a block of
/// width `w` inside a render area of width `rw`.
pub open spec fn justification_offset(justify: TextJustify, rw: int, w: int) -> int {
    if w > rw {
        0
    } else {
        match justify {
            TextJustify::Left => 0,
            TextJustify::Center => (rw - w) / 2,
            TextJustify::Right => rw - w,
        }
    }
}

/// The two contexts agree on everything but the cursor position of the
/// active render area.
pub open spec fn position_step(pre: Context, post: Context) -> bool {
    &&& post.default == pre.default
    &&& post.text == pre.text
    &&& post.barcode == pre.barcode
    &&& post.code2d == pre.code2d
    &&& post.graphics.render_colors == pre.graphics.render_colors
    &&& post.graphics.paper_area == pre.graphics.paper_area
    &&& post.graphics.dots_per_inch == pre.graphics.dots_per_inch
    &&& post.graphics.v_motion_unit == pre.graphics.v_motion_unit
    &&& post.graphics.h_motion_unit == pre.graphics.h_motion_unit
    &&& post.graphics.graphics_count == pre.graphics.graphics_count
    &&& post.graphics.stored_graphics == pre.graphics.stored_graphics
    &&& post.graphics.buffer_graphics == pre.graphics.buffer_graphics
    &&& post.graphics.render_area.w == pre.graphics.render_area.w
    &&& post.graphics.render_area.h == pre.graphics.render_area.h
    &&& post.page_mode.enabled == pre.page_mode.enabled
    &&& post.page_mode.logical_area == pre.page_mode.logical_area
    &&& post.page_mode.page_area == pre.page_mode.page_area
    &&& post.page_mode.direction == pre.page_mode.direction
    &&& post.page_mode.previous_direction == pre.page_mode.previous_direction
    &&& post.page_mode.render_area.w == pre.page_mode.render_area.w
    &&& post.page_mode.render_area.h == pre.page_mode.render_area.h
    &&& pre.page_mode.enabled ==> post.graphics.render_area == pre.graphics.render_area
    &&& !pre.page_mode.enabled ==> post.page_mode.render_area == pre.page_mode.render_area
}

/// The two contexts agree on everything but the tab table.
pub open spec fn tabs_only_changed(pre: Context, post: Context) -> bool {
    &&& post.default == pre.default
    &&& post.barcode == pre.barcode
    &&& post.code2d == pre.code2d
    &&& post.graphics == pre.graphics
    &&& post.page_mode == pre.page_mode
    &&& post.text == (TextContext { tabs: post.text.tabs, ..pre.text })
}

/// The two contexts agree on everything but the font selection and the
/// character cell size it brings.
pub open spec fn font_only_changed(pre: Context, post: Context) -> bool {
    &&& post.default == pre.default
    &&& post.barcode == pre.barcode
    &&& post.code2d == pre.code2d
    &&& post.graphics == pre.graphics
    &&& post.page_mode == pre.page_mode
    &&& post.text == (TextContext {
        font: post.text.font,
        character_width: post.text.character_width,
        character_height: post.text.character_height,
        ..pre.text
    })
}

/// The two contexts agree on everything but the decoder selection.
pub open spec fn decoder_only_changed(pre: Context, post: Context) -> bool {
    &&& post.default == pre.default
    &&& post.barcode == pre.barcode
    &&& post.code2d == pre.code2d
    &&& post.graphics == pre.graphics
    &&& post.page_mode == pre.page_mode
    &&& post.text == (TextContext { decoder: post.text.decoder, ..pre.text })
}

/// The two contexts agree on everything but the page-mode logical area.
pub open spec fn logical_area_only_changed(pre: Context, post: Context) -> bool {
    &&& post.default == pre.default
    &&& post.text == pre.text
    &&& post.barcode == pre.barcode
    &&& post.code2d == pre.code2d
    &&& post.graphics == pre.graphics
    &&& post.page_mode == (PageModeContext {
        logical_area: post.page_mode.logical_area,
        ..pre.page_mode
    })
}

} // verus!
