//! The interpreter: how each parsed command changes the printer state,
//! which styled text and graphics it produces, and which out-of-band
//! device instructions it sends; plus how a device instruction in turn
//! moves the context. The output side that draws pixels sits outside
//! this crate and only consumes what these functions return.
use vstd::prelude::*;

use crate::barcode::{graphics_outcome, utf8_chars};
use crate::command::{Command, DeviceCommand, Handler, SimpleOp};
use crate::context::{
    resets_to, spec_base_x, spec_x, spec_y, Codepage, Context, Font, HumanReadableInterface,
    PageModeContext, PrintDirection, RenderArea, Rotation, TextContext, TextJustify,
    TextUnderline,
};
use crate::graphics::{
    col_raster_src, span_styled_from, unpack_bits, GraphicsCommand, Image, ImageFlow, ImageRef,
    ImageRefStorage, PixelType, TextSpan,
};
use crate::util::byte_or_zero;

verus! {

/// Which parts of the pipeline print their trace.
#[derive(Clone, Copy, PartialEq, Eq, Structural, Debug)]
pub struct DebugProfile {
    pub text: bool,
    pub image: bool,
    pub page: bool,
    pub info: bool,
}

impl Default for DebugProfile {
    /// Everything quiet.
    fn default() -> (r: DebugProfile)
        ensures
            r == (DebugProfile { text: false, image: false, page: false, info: false }),
    {
        DebugProfile { text: false, image: false, page: false, info: false }
    }
}

#[derive(Clone, Copy, PartialEq, Eq, Structural, Debug)]
pub enum RenderErrorKind {
    ChildRenderError,
    GraphicsError,
    UnknownCommand,
}

/// One recoverable problem met while rendering.
pub struct RenderError {
    pub kind: RenderErrorKind,
    pub description: String,
}

impl RenderError {
    /// The error as one line of text.
    pub fn describe(&self) -> (r: String)
        ensures
            r@ == self.description@,
    {
        crate::graphics::clone_string(&self.description)
    }
}

/// Everything a finished render hands back: one output per print job
/// and the errors collected along the way.
pub struct RenderOutput<Output> {
    pub output: Vec<Output>,
    pub errors: Vec<RenderError>,
}

/// Relies on the documented `u8` to `char` cast: each byte becomes the
/// Unicode scalar of the same value, the single-byte Western table.
#[verifier::external_body]
fn latin1_string(data: &Vec<u8>) -> (r: String)
    ensures
        r@.len() == data@.len(),
        forall|i: int| 0 <= i < data@.len() ==> r@[i] == (data@[i] as char),
{
    data.iter().map(|b| *b as char).collect()
}

/// The characters a payload shows as: UTF-8 when the context selected
/// the passthrough table and the bytes decode, else one character per
/// byte from the single-byte table.
pub open spec fn decoded_chars(data: Seq<u8>, decoder: Codepage) -> Seq<char> {
    if decoder.use_utf8_table && utf8_chars(data) is Some {
        utf8_chars(data)->Some_0
    } else {
        Seq::new(data.len(), |i: int| data[i] as char)
    }
}

/// Decodes a text payload under the context's decoder selection.
pub fn decode_text(data: &Vec<u8>, decoder: &Codepage) -> (r: String)
    ensures
        r@ == decoded_chars(data@, *decoder),
{
    if decoder.use_utf8_table {
        match crate::barcode::utf8_to_string(data) {
            Some(t) => {
                return t;
            },
            None => {
                let r = latin1_string(data);
                proof {
                    assert(r@ =~= decoded_chars(data@, *decoder));
                }
                return r;
            },
        }
    }
    let r = latin1_string(data);
    proof {
        assert(r@ =~= decoded_chars(data@, *decoder));
    }
    r
}

/// The styled text a command contributes: the decoded payload for the
/// text command, a tab character for the tab control, nothing else.
pub fn get_text(cmd: &Command, ctx: &Context) -> (r: Option<TextSpan>)
    ensures
        cmd.handler is TextContent ==> r is Some && r->Some_0.text@ == decoded_chars(
            cmd.data@,
            ctx.text.decoder,
        ) && span_styled_from(r->Some_0, *ctx, ctx.text.font),
        cmd.handler == Handler::Simple(SimpleOp::HorizontalTab) ==> r is Some
            && r->Some_0.text@ == "\t"@ && span_styled_from(r->Some_0, *ctx, ctx.text.font),
        !(cmd.handler is TextContent || cmd.handler == Handler::Simple(
            SimpleOp::HorizontalTab,
        )) ==> r is None,
{
    match &cmd.handler {
        Handler::TextContent => {
            let text = decode_text(&cmd.data, &ctx.text.decoder);
            Some(TextSpan::new(text, ctx))
        },
        Handler::Simple(SimpleOp::HorizontalTab) => Some(
            TextSpan::new(String::from_str("\t"), ctx),
        ),
        _ => None,
    }
}

/// The first payload byte, or zero when the payload is empty.
fn first_byte(data: &Vec<u8>) -> (r: u8)
    ensures
        r == byte_or_zero(data@, 0),
{
    if data.len() > 0 {
        data[0]
    } else {
        0
    }
}

/// The underline weight a style byte selects.
pub open spec fn underline_of(b: u8) -> TextUnderline {
    if b == 1 || b == 49 {
        TextUnderline::On
    } else if b == 2 || b == 50 {
        TextUnderline::Double
    } else {
        TextUnderline::Off
    }
}

/// The human-readable placement a parameter byte selects.
pub open spec fn hri_of(b: u8) -> HumanReadableInterface {
    if b == 1 || b == 49 {
        HumanReadableInterface::Above
    } else if b == 2 || b == 50 {
        HumanReadableInterface::Below
    } else if b == 3 || b == 51 {
        HumanReadableInterface::Both
    } else {
        HumanReadableInterface::Off
    }
}

/// The justification a parameter byte selects.
pub open spec fn justify_of(b: u8) -> TextJustify {
    if b == 1 || b == 49 {
        TextJustify::Center
    } else if b == 2 || b == 50 {
        TextJustify::Right
    } else {
        TextJustify::Left
    }
}

/// The page-mode print direction a parameter byte selects.
pub open spec fn direction_of(b: u8) -> PrintDirection {
    if b == 1 || b == 49 {
        PrintDirection::BottomLeft2Top
    } else if b == 2 || b == 50 {
        PrintDirection::BottomRight2Left
    } else if b == 3 || b == 51 {
        PrintDirection::TopRight2Bottom
    } else {
        PrintDirection::TopLeft2Right
    }
}

/// The decoder selection that follows a code-table and character-set
/// pair, with table 255 the UTF-8 passthrough.
pub open spec fn decoder_for(code_table: u8, character_set: u8) -> Codepage {
    Codepage { code_table, character_set, use_utf8_table: code_table == 255 }
}

/// What a fixed-form styling or parameter command does to the context,
/// given its first payload byte.
pub open spec fn simple_op_effect(op: SimpleOp, data: Seq<u8>, pre: Context, post: Context) -> bool {
    let b = byte_or_zero(data, 0);
    match op {
        SimpleOp::Initialize => resets_to(pre, post),
        SimpleOp::CarriageReturn => crate::context::position_step(pre, post) && spec_x(post)
            == spec_base_x(pre) && spec_y(post) == spec_y(pre),
        SimpleOp::SetEmphasis => post == (Context {
            text: TextContext { bold: b != 0, ..pre.text },
            ..pre
        }),
        SimpleOp::SetDoubleStrike => post == (Context {
            text: TextContext { bold: b != 0, ..pre.text },
            ..pre
        }),
        SimpleOp::SetItalic => post == (Context {
            text: TextContext { italic: b != 0, ..pre.text },
            ..pre
        }),
        SimpleOp::SetUpsideDown => post == (Context {
            text: TextContext { upside_down: b & 1 == 1, ..pre.text },
            ..pre
        }),
        SimpleOp::SetInternationalCharset => post == (Context {
            text: TextContext {
                character_set: b,
                decoder: decoder_for(pre.text.code_table, b),
                ..pre.text
            },
            ..pre
        }),
        SimpleOp::SetCodeTable => post == (Context {
            text: TextContext {
                code_table: b,
                decoder: decoder_for(b, pre.text.character_set),
                ..pre.text
            },
            ..pre
        }),
        SimpleOp::SetFontOp => post == (Context {
            text: TextContext {
                font: Font::spec_from_raw(b),
                character_width: if Font::spec_from_raw(b) == Font::A {
                    12
                } else {
                    9
                },
                character_height: if Font::spec_from_raw(b) == Font::A {
                    24
                } else {
                    17
                },
                ..pre.text
            },
            ..pre
        }),
        SimpleOp::SetUnderline => post == (Context {
            text: TextContext { underline: underline_of(b), ..pre.text },
            ..pre
        }),
        SimpleOp::SetLineSpacing => post == (Context {
            text: TextContext { line_spacing: b, ..pre.text },
            ..pre
        }),
        SimpleOp::DefaultLineSpacing => post == (Context {
            text: TextContext { line_spacing: 24, ..pre.text },
            ..pre
        }),
        SimpleOp::SetBarcodeHeight => post == (Context {
            barcode: crate::context::BarcodeContext { height: b, ..pre.barcode },
            ..pre
        }),
        SimpleOp::SetBarcodeWidth => post == (Context {
            barcode: crate::context::BarcodeContext { width: b, ..pre.barcode },
            ..pre
        }),
        SimpleOp::SetBarcodeHri => post == (Context {
            barcode: crate::context::BarcodeContext {
                human_readable: hri_of(b),
                ..pre.barcode
            },
            ..pre
        }),
        SimpleOp::SetBarcodeFont => post == (Context {
            barcode: crate::context::BarcodeContext {
                font: Font::spec_from_raw(b),
                ..pre.barcode
            },
            ..pre
        }),
        SimpleOp::PageDirection => post == (Context {
            page_mode: PageModeContext {
                direction: direction_of(b),
                previous_direction: pre.page_mode.direction,
                ..pre.page_mode
            },
            ..pre
        }),
        SimpleOp::PageArea => post == (Context {
            page_mode: PageModeContext { logical_area: page_area_of(data, pre), ..pre.page_mode },
            ..pre
        }),
        _ => post == pre,
    }
}

/// Applies one fixed-form operation's state change.
#[verifier::rlimit(100)]
#[verifier::spinoff_prover]
fn apply_simple(op: SimpleOp, data: &Vec<u8>, ctx: &mut Context)
    ensures
        simple_op_effect(op, data@, *old(ctx), *final(ctx)),
{
    let b = first_byte(data);
    match op {
        SimpleOp::Initialize => {
            ctx.reset();
        },
        SimpleOp::CarriageReturn => {
            ctx.reset_x();
        },
        SimpleOp::SetEmphasis => {
            ctx.text.bold = b != 0;
        },
        SimpleOp::SetDoubleStrike => {
            ctx.text.bold = b != 0;
        },
        SimpleOp::SetItalic => {
            ctx.text.italic = b != 0;
        },
        SimpleOp::SetUpsideDown => {
            ctx.text.upside_down = b & 1 == 1;
        },
        SimpleOp::SetInternationalCharset => {
            ctx.text.character_set = b;
            ctx.update_decoder();
        },
        SimpleOp::SetCodeTable => {
            ctx.text.code_table = b;
            ctx.update_decoder();
        },
        SimpleOp::SetFontOp => {
            ctx.set_font(Font::from_raw(b));
        },
        SimpleOp::SetUnderline => {
            ctx.text.underline = match b {
                1 | 49 => TextUnderline::On,
                2 | 50 => TextUnderline::Double,
                _ => TextUnderline::Off,
            };
        },
        SimpleOp::SetLineSpacing => {
            ctx.text.line_spacing = b;
        },
        SimpleOp::DefaultLineSpacing => {
            ctx.text.line_spacing = 24;
        },
        SimpleOp::SetBarcodeHeight => {
            ctx.barcode.height = b;
        },
        SimpleOp::SetBarcodeWidth => {
            ctx.barcode.width = b;
        },
        SimpleOp::SetBarcodeHri => {
            ctx.barcode.human_readable = match b {
                1 | 49 => HumanReadableInterface::Above,
                2 | 50 => HumanReadableInterface::Below,
                3 | 51 => HumanReadableInterface::Both,
                _ => HumanReadableInterface::Off,
            };
        },
        SimpleOp::SetBarcodeFont => {
            ctx.barcode.font = Font::from_raw(b);
        },
        SimpleOp::PageDirection => {
            ctx.page_mode.previous_direction = ctx.page_mode.direction;
            ctx.page_mode.direction = match b {
                1 | 49 => PrintDirection::BottomLeft2Top,
                2 | 50 => PrintDirection::BottomRight2Left,
                3 | 51 => PrintDirection::TopRight2Bottom,
                _ => PrintDirection::TopLeft2Right,
            };
        },
        SimpleOp::PageArea => {
            let x = crate::util::parse_u16(data, 0);
            let y = crate::util::parse_u16(data, 2);
            let w = crate::util::parse_u16(data, 4);
            let h = crate::util::parse_u16(data, 6);
            ctx.set_page_area(
                RenderArea { x: x as u32, y: y as u32, w: w as u32, h: h as u32 },
            );
        },
        _ => {},
    }
}

/// Applies a command's state changes to the printer context: the reset
/// on initialize, the style and parameter updates of the fixed-form
/// commands, the stored-image definition of the large-graphics define
/// function. Commands without state changes leave the context alone.
pub fn apply_context(cmd: &Command, ctx: &mut Context)
    ensures
        forall|op: SimpleOp|
            cmd.handler == Handler::Simple(op) ==> simple_op_effect(
                op,
                cmd.data@,
                *old(ctx),
                *final(ctx),
            ),
        cmd.handler is TextContent || cmd.handler is Barcode || cmd.handler is BitImage
            || cmd.handler is Raster || cmd.handler is Unknown ==> *final(ctx) == *old(ctx),
        (cmd.handler matches Handler::Large(h) && h.function == 83 && cmd.data@.len() >= 9)
            ==> stored_definition(*old(ctx), *final(ctx), cmd.data@),
        (cmd.handler matches Handler::Large(h) && h.function == 83 && cmd.data@.len() < 9)
            ==> *final(ctx) == *old(ctx),
        (cmd.handler matches Handler::Large(h) && h.function != 83) ==> *final(ctx) == *old(ctx),
{
    match &cmd.handler {
        Handler::Simple(op) => {
            apply_simple(*op, &cmd.data, ctx);
        },
        Handler::Large(h) => {
            if h.function == 83 {
                match Image::from_raster_data_with_ref(&cmd.data, ImageRefStorage::Ram) {
                    Some((key, img)) => {
                        let ghost defined = img;
                        ctx.graphics.put_stored(key, img);
                        proof {
                            assert(crate::context::stored_upsert(
                                old(ctx).graphics.stored_graphics@,
                                ctx.graphics.stored_graphics@,
                                key,
                                defined,
                            ));
                        }
                    },
                    None => {},
                }
            }
        },
        _ => {},
    }
}

/// The logical page area an eight-byte parameter block programs, after
/// motion-unit scaling.
pub open spec fn page_area_of(data: Seq<u8>, c: Context) -> RenderArea {
    let hu = crate::context::effective_unit(c.graphics.h_motion_unit);
    let vu = crate::context::effective_unit(c.graphics.v_motion_unit);
    RenderArea {
        x: ((byte_or_zero(data, 0) + 256 * byte_or_zero(data, 1)) / hu) as u32,
        y: ((byte_or_zero(data, 2) + 256 * byte_or_zero(data, 3)) / vu) as u32,
        w: ((byte_or_zero(data, 4) + 256 * byte_or_zero(data, 5)) / hu) as u32,
        h: ((byte_or_zero(data, 6) + 256 * byte_or_zero(data, 7)) / vu) as u32,
    }
}

/// What the large-graphics define function did to the context: the
/// parsed keyed image replaced the first stored entry under its key or
/// was appended, every other stored entry survived, and nothing else
/// in the context moved.
pub open spec fn stored_definition(pre: Context, post: Context, data: Seq<u8>) -> bool {
    let key = ImageRef { kc1: data[1], kc2: data[2], storage: ImageRefStorage::Ram };
    &&& post.default == pre.default
    &&& post.text == pre.text
    &&& post.barcode == pre.barcode
    &&& post.code2d == pre.code2d
    &&& post.page_mode == pre.page_mode
    &&& post.graphics.render_area == pre.graphics.render_area
    &&& post.graphics.render_colors == pre.graphics.render_colors
    &&& post.graphics.paper_area == pre.graphics.paper_area
    &&& post.graphics.dots_per_inch == pre.graphics.dots_per_inch
    &&& post.graphics.v_motion_unit == pre.graphics.v_motion_unit
    &&& post.graphics.h_motion_unit == pre.graphics.h_motion_unit
    &&& post.graphics.graphics_count == pre.graphics.graphics_count
    &&& post.graphics.buffer_graphics == pre.graphics.buffer_graphics
    &&& post.graphics.spec_has_stored(key)
    &&& exists|img: Image|
        #![trigger crate::context::stored_upsert(
            pre.graphics.stored_graphics@,
            post.graphics.stored_graphics@,
            key,
            img,
        )]
        {
            &&& crate::graphics::keyed_parse_ok(
                data,
                ImageRefStorage::Ram,
                9,
                ImageFlow::Block,
                key,
                img,
            )
            &&& crate::context::stored_upsert(
                pre.graphics.stored_graphics@,
                post.graphics.stored_graphics@,
                key,
                img,
            )
        }
}

/// The device instructions a fixed-form command sends, given its first
/// payload byte and whether page mode is on.
pub open spec fn device_commands_of(op: SimpleOp, b: u8, page_mode_on: bool) -> Option<
    Seq<DeviceCommand>,
> {
    match op {
        SimpleOp::BeginPrintOp => Some(seq![DeviceCommand::BeginPrint]),
        SimpleOp::EndPrintOp => Some(seq![DeviceCommand::EndPrint]),
        SimpleOp::LineFeed => Some(seq![DeviceCommand::FeedLine(1u32)]),
        SimpleOp::FormFeed => if page_mode_on {
            Some(seq![DeviceCommand::PrintPageMode])
        } else {
            Some(seq![DeviceCommand::FeedLine(1u32)])
        },
        SimpleOp::PrintAndFeed => Some(seq![DeviceCommand::Feed(b as u32)]),
        SimpleOp::PrintAndFeedLines => Some(seq![DeviceCommand::FeedLine(b as u32)]),
        SimpleOp::PrintAndReverseFeedLines => Some(seq![DeviceCommand::FeedLine(b as u32)]),
        SimpleOp::FeedAndCut => if b == 1 || b == 49 || b == 66 {
            Some(seq![DeviceCommand::PartialCut])
        } else {
            Some(seq![DeviceCommand::FullCut])
        },
        SimpleOp::SetJustification => Some(seq![DeviceCommand::Justify(justify_of(b))]),
        SimpleOp::SetCharacterSize => Some(
            seq![
                DeviceCommand::SetTextWidth((((b >> 4) & 7) + 1) as u8),
                DeviceCommand::SetTextHeight(((b & 7) + 1) as u8),
            ],
        ),
        SimpleOp::EnterPageMode => Some(seq![DeviceCommand::BeginPageMode]),
        SimpleOp::ExitPageMode => Some(seq![DeviceCommand::EndPageMode]),
        SimpleOp::PageDirection => Some(seq![DeviceCommand::ChangePageModeDirection]),
        SimpleOp::PageArea => Some(seq![DeviceCommand::ChangePageArea]),
        _ => None,
    }
}

/// The out-of-band device instructions a command sends.
pub fn get_device_commands(cmd: &Command, ctx: &Context) -> (r: Option<Vec<DeviceCommand>>)
    ensures
        forall|op: SimpleOp| #![auto]
            cmd.handler == Handler::Simple(op) ==> match device_commands_of(
                op,
                byte_or_zero(cmd.data@, 0),
                ctx.page_mode.enabled,
            ) {
                Some(s) => r is Some && r->Some_0@ == s,
                None => r is None,
            },
        !(cmd.handler is Simple) ==> r is None,
{
    match &cmd.handler {
        Handler::Simple(op) => {
            let b = first_byte(&cmd.data);
            match op {
                SimpleOp::BeginPrintOp => {
                    let mut v: Vec<DeviceCommand> = Vec::new();
                    v.push(DeviceCommand::BeginPrint);
                    proof {
                        assert(v@ =~= seq![DeviceCommand::BeginPrint]);
                    }
                    Some(v)
                },
                SimpleOp::EndPrintOp => {
                    let mut v: Vec<DeviceCommand> = Vec::new();
                    v.push(DeviceCommand::EndPrint);
                    proof {
                        assert(v@ =~= seq![DeviceCommand::EndPrint]);
                    }
                    Some(v)
                },
                SimpleOp::LineFeed => {
                    let mut v: Vec<DeviceCommand> = Vec::new();
                    v.push(DeviceCommand::FeedLine(1));
                    proof {
                        assert(v@ =~= seq![DeviceCommand::FeedLine(1u32)]);
                    }
                    Some(v)
                },
                SimpleOp::FormFeed => {
                    let mut v: Vec<DeviceCommand> = Vec::new();
                    if ctx.page_mode.enabled {
                        v.push(DeviceCommand::PrintPageMode);
                        proof {
                            assert(v@ =~= seq![DeviceCommand::PrintPageMode]);
                        }
                    } else {
                        v.push(DeviceCommand::FeedLine(1));
                        proof {
                            assert(v@ =~= seq![DeviceCommand::FeedLine(1u32)]);
                        }
                    }
                    Some(v)
                },
                SimpleOp::PrintAndFeed => {
                    let mut v: Vec<DeviceCommand> = Vec::new();
                    v.push(DeviceCommand::Feed(b as u32));
                    proof {
                        assert(v@ =~= seq![DeviceCommand::Feed(b as u32)]);
                    }
                    Some(v)
                },
                SimpleOp::PrintAndFeedLines => {
                    let mut v: Vec<DeviceCommand> = Vec::new();
                    v.push(DeviceCommand::FeedLine(b as u32));
                    proof {
                        assert(v@ =~= seq![DeviceCommand::FeedLine(b as u32)]);
                    }
                    Some(v)
                },
                SimpleOp::PrintAndReverseFeedLines => {
                    let mut v: Vec<DeviceCommand> = Vec::new();
                    v.push(DeviceCommand::FeedLine(b as u32));
                    proof {
                        assert(v@ =~= seq![DeviceCommand::FeedLine(b as u32)]);
                    }
                    Some(v)
                },
                SimpleOp::FeedAndCut => {
                    let mut v: Vec<DeviceCommand> = Vec::new();
                    if b == 1 || b == 49 || b == 66 {
                        v.push(DeviceCommand::PartialCut);
                        proof {
                            assert(v@ =~= seq![DeviceCommand::PartialCut]);
                        }
                    } else {
                        v.push(DeviceCommand::FullCut);
                        proof {
                            assert(v@ =~= seq![DeviceCommand::FullCut]);
                        }
                    }
                    Some(v)
                },
                SimpleOp::SetJustification => {
                    let j = match b {
                        1 | 49 => TextJustify::Center,
                        2 | 50 => TextJustify::Right,
                        _ => TextJustify::Left,
                    };
                    let mut v: Vec<DeviceCommand> = Vec::new();
                    v.push(DeviceCommand::Justify(j));
                    proof {
                        assert(v@ =~= seq![DeviceCommand::Justify(justify_of(b))]);
                    }
                    Some(v)
                },
                SimpleOp::SetCharacterSize => {
                    let mut v: Vec<DeviceCommand> = Vec::new();
                    proof {
                        assert(((b >> 4) & 7) <= 7 && (b & 7) <= 7) by (bit_vector);
                    }
                    v.push(DeviceCommand::SetTextWidth(((b >> 4) & 7) + 1));
                    v.push(DeviceCommand::SetTextHeight((b & 7) + 1));
                    proof {
                        assert(v@ =~= seq![
                            DeviceCommand::SetTextWidth((((b >> 4) & 7) + 1) as u8),
                            DeviceCommand::SetTextHeight(((b & 7) + 1) as u8),
                        ]);
                    }
                    Some(v)
                },
                SimpleOp::EnterPageMode => {
                    let mut v: Vec<DeviceCommand> = Vec::new();
                    v.push(DeviceCommand::BeginPageMode);
                    proof {
                        assert(v@ =~= seq![DeviceCommand::BeginPageMode]);
                    }
                    Some(v)
                },
                SimpleOp::ExitPageMode => {
                    let mut v: Vec<DeviceCommand> = Vec::new();
                    v.push(DeviceCommand::EndPageMode);
                    proof {
                        assert(v@ =~= seq![DeviceCommand::EndPageMode]);
                    }
                    Some(v)
                },
                SimpleOp::PageDirection => {
                    let mut v: Vec<DeviceCommand> = Vec::new();
                    v.push(DeviceCommand::ChangePageModeDirection);
                    proof {
                        assert(v@ =~= seq![DeviceCommand::ChangePageModeDirection]);
                    }
                    Some(v)
                },
                SimpleOp::PageArea => {
                    let mut v: Vec<DeviceCommand> = Vec::new();
                    v.push(DeviceCommand::ChangePageArea);
                    proof {
                        assert(v@ =~= seq![DeviceCommand::ChangePageArea]);
                    }
                    Some(v)
                },
                _ => None,
            }
        },
        _ => None,
    }
}

/// The pixel duplication a raster scaling byte selects, horizontal then
/// vertical.
pub open spec fn raster_stretch(scaling: u8) -> (bool, bool) {
    if scaling == 1 || scaling == 49 {
        (true, false)
    } else if scaling == 2 || scaling == 50 {
        (false, true)
    } else if scaling == 3 || scaling == 52 {
        (true, true)
    } else {
        (false, false)
    }
}

/// The graphics a command produces against the current context: the
/// encoded barcode, the decoded column or raster image, or a copy of a
/// stored image; nothing for every other command.
pub fn get_graphics_command(cmd: &Command, ctx: &Context) -> (r: Option<GraphicsCommand>)
    ensures
        cmd.handler matches Handler::Barcode(h) ==> graphics_outcome(h, cmd.data@, *ctx, r),
        cmd.handler matches Handler::BitImage(h) ==> (h.width <= 0x7FFFFFFF && h.height
            <= 0x7FFFFFFF ==> r is Some && bit_image_outcome(
            h.width,
            h.height,
            cmd.data@,
            r->Some_0,
        )),
        cmd.handler matches Handler::Large(h) ==> (h.function == 85 ==> {
            let key = ImageRef {
                kc1: byte_or_zero(cmd.data@, 0),
                kc2: byte_or_zero(cmd.data@, 1),
                storage: ImageRefStorage::Ram,
            };
            &&& (cmd.data@.len() >= 2 && ctx.graphics.spec_has_stored(key)) <==> r is Some
            &&& r is Some ==> r->Some_0 is Image && r->Some_0->Image_0.flow == ImageFlow::Block
        }),
        cmd.handler matches Handler::Raster(h) ==> (!(raster_stretch(h.scaling).0
            || raster_stretch(h.scaling).1) ==> r is Some && raster_image_outcome(
            h.width,
            h.height,
            cmd.data@,
            r->Some_0,
        )) && ((raster_stretch(h.scaling).0 || raster_stretch(h.scaling).1) ==> r is Some
            && raster_scaled_outcome(
            h.width,
            h.height,
            cmd.data@,
            raster_stretch(h.scaling).0,
            raster_stretch(h.scaling).1,
            r->Some_0,
        )),
        !(cmd.handler is Barcode || cmd.handler is BitImage || cmd.handler is Raster || (
        cmd.handler matches Handler::Large(h) && h.function == 85)) ==> r is None,
{
    match &cmd.handler {
        Handler::Barcode(h) => h.get_graphics(&cmd.data, ctx),
        Handler::BitImage(h) => {
            if h.width > 0x7FFF_FFFF || h.height > 0x7FFF_FFFF {
                return None;
            }
            let (w, hh, px) = crate::graphics::column_to_raster(
                &cmd.data,
                (1, 1),
                h.width,
                h.height,
            );
            Some(
                GraphicsCommand::Image(
                    Image {
                        pixels: px,
                        x: 0,
                        y: 0,
                        w,
                        h: hh,
                        pixel_type: PixelType::MonochromeByte,
                        stretch: (1, 1),
                        flow: ImageFlow::Inline,
                        upside_down: false,
                    },
                ),
            )
        },
        Handler::Raster(h) => {
            let (sx, sy) = match h.scaling {
                1 | 49 => (true, false),
                2 | 50 => (false, true),
                3 | 52 => (true, true),
                _ => (false, false),
            };
            let gray = crate::graphics::bitpacked_to_grayscale(&cmd.data, h.width);
            if !(sx || sy) {
                return Some(
                    GraphicsCommand::Image(
                        Image {
                            pixels: gray,
                            x: 0,
                            y: 0,
                            w: h.width,
                            h: h.height,
                            pixel_type: PixelType::MonochromeByte,
                            stretch: (1, 1),
                            flow: ImageFlow::Block,
                            upside_down: false,
                        },
                    ),
                );
            }
            proof {
                assert((h.width as int) * (h.height as int) < 0x100000000000000000000000000000000)
                    by (nonlinear_arith)
                    requires
                        h.width <= 0xFFFFFFFFu32,
                        h.height <= 0xFFFFFFFFu32,
                ;
            }
            let grid: u128 = (h.width as u128) * (h.height as u128);
            if h.width <= 0x7FFF_FFFF && h.height <= 0x7FFF_FFFF && (gray.len() as u128) >= grid {
                let scaled = crate::graphics::scale_pixels(&gray, h.width, h.height, sx, sy);
                Some(
                    GraphicsCommand::Image(
                        Image {
                            pixels: scaled.2,
                            x: 0,
                            y: 0,
                            w: scaled.0,
                            h: scaled.1,
                            pixel_type: PixelType::MonochromeByte,
                            stretch: (if sx {
                                2
                            } else {
                                1
                            }, if sy {
                                2
                            } else {
                                1
                            }),
                            flow: ImageFlow::Block,
                            upside_down: false,
                        },
                    ),
                )
            } else {
                Some(
                    GraphicsCommand::Image(
                        Image {
                            pixels: gray,
                            x: 0,
                            y: 0,
                            w: h.width,
                            h: h.height,
                            pixel_type: PixelType::MonochromeByte,
                            stretch: (1, 1),
                            flow: ImageFlow::Block,
                            upside_down: false,
                        },
                    ),
                )
            }
        },
        Handler::Large(h) => {
            if h.function == 85 {
                if cmd.data.len() >= 2 {
                    let key = ImageRef {
                        kc1: cmd.data[0],
                        kc2: cmd.data[1],
                        storage: ImageRefStorage::Ram,
                    };
                    match ctx.graphics.get_stored(key) {
                        Some(img) => {
                            let mut img = img;
                            img.flow = ImageFlow::Block;
                            Some(GraphicsCommand::Image(img))
                        },
                        None => None,
                    }
                } else {
                    None
                }
            } else {
                None
            }
        },
        _ => None,
    }
}

/// What the column bit-image command emits: the unpacked, rotated and
/// mirrored grayscale raster when the payload holds whole columns, the
/// bare unpacked pixels when it does not.
pub open spec fn bit_image_outcome(w: u32, h: u32, data: Seq<u8>, g: GraphicsCommand) -> bool {
    let u = unpack_bits(data, h as int, 0);
    &&& g is Image
    &&& g->Image_0.pixel_type == PixelType::MonochromeByte
    &&& g->Image_0.flow == ImageFlow::Inline
    &&& !g->Image_0.upside_down
    &&& u.len() == w * h ==> {
        &&& g->Image_0.w == w
        &&& g->Image_0.h == h
        &&& g->Image_0.pixels@.len() == w * h
        &&& forall|d: int|
            0 <= d < g->Image_0.pixels@.len() ==> g->Image_0.pixels@[d] == u[col_raster_src(
                d,
                w as int,
                h as int,
            )]
    }
    &&& u.len() != w * h ==> g->Image_0.w == w && g->Image_0.h == h && g->Image_0.pixels@ == u
}

/// What the raster bit-image command emits when its scaling byte asks
/// for pixel doubling: when the unpacked rows hold a full grid and the
/// dimensions are small enough to double, the image is the
/// nearest-neighbor enlargement; otherwise the unscaled rows come back
/// as they are.
pub open spec fn raster_scaled_outcome(
    w: u32,
    h: u32,
    data: Seq<u8>,
    sx: bool,
    sy: bool,
    g: GraphicsCommand,
) -> bool {
    let u = unpack_bits(data, w as int, 0);
    let fits = w <= 0x7FFFFFFF && h <= 0x7FFFFFFF && u.len() >= w * h;
    let nw: int = if sx {
        2 * w
    } else {
        w as int
    };
    let nh: int = if sy {
        2 * h
    } else {
        h as int
    };
    &&& g is Image
    &&& g->Image_0.pixel_type == PixelType::MonochromeByte
    &&& g->Image_0.flow == ImageFlow::Block
    &&& !g->Image_0.upside_down
    &&& fits ==> {
        &&& g->Image_0.w == nw
        &&& g->Image_0.h == nh
        &&& g->Image_0.pixels@.len() == nw * nh
        &&& (forall|d: int|
            0 <= d < g->Image_0.pixels@.len() ==> g->Image_0.pixels@[d] == u[
                crate::graphics::scale_src(
                    d,
                    w as int,
                    nw,
                    if sx {
                        2int
                    } else {
                        1int
                    },
                    if sy {
                        2int
                    } else {
                        1int
                    },
                )])
        &&& g->Image_0.stretch == ((if sx {
            2u8
        } else {
            1u8
        }), (if sy {
            2u8
        } else {
            1u8
        }))
    }
    &&& !fits ==> g->Image_0.w == w && g->Image_0.h == h && g->Image_0.pixels@ == u
        && g->Image_0.stretch == (1u8, 1u8)
}

/// What the raster bit-image command emits without scaling: the rows
/// unpacked to one grayscale byte per pixel.
pub open spec fn raster_image_outcome(w: u32, h: u32, data: Seq<u8>, g: GraphicsCommand) -> bool {
    &&& g is Image
    &&& g->Image_0.pixel_type == PixelType::MonochromeByte
    &&& g->Image_0.flow == ImageFlow::Block
    &&& g->Image_0.w == w
    &&& g->Image_0.h == h
    &&& g->Image_0.pixels@ == unpack_bits(data, w as int, 0)
}

/// The two contexts agree on everything outside the page-mode state.
pub open spec fn only_page_mode_changed(pre: Context, post: Context) -> bool {
    post == (Context { page_mode: post.page_mode, ..pre })
}

/// Applies one device instruction to the context, and hands back the
/// rotation and page dimensions when a page-area change recomputed
/// them. Every cursor move saturates rather than wraps.
pub fn apply_device_command(ctx: &mut Context, dc: DeviceCommand) -> (r: Option<
    (Rotation, u32, u32),
>)
    ensures
        dc matches DeviceCommand::SetTextWidth(w) ==> *final(ctx) == (Context {
            text: TextContext { width_mult: w, ..old(ctx).text },
            ..*old(ctx)
        }) && r is None,
        dc matches DeviceCommand::SetTextHeight(h) ==> *final(ctx) == (Context {
            text: TextContext { height_mult: h, ..old(ctx).text },
            ..*old(ctx)
        }) && r is None,
        dc matches DeviceCommand::Justify(j) ==> *final(ctx) == (Context {
            text: TextContext { justify: j, ..old(ctx).text },
            ..*old(ctx)
        }) && r is None,
        dc == DeviceCommand::BeginPrint ==> crate::context::position_step(
            *old(ctx),
            *final(ctx),
        ) && spec_x(*final(ctx)) == spec_base_x(*old(ctx)) && spec_y(*final(ctx))
            == crate::util::sat_add_u32(
            spec_y(*old(ctx)),
            crate::context::sat_mul_u32(old(ctx).text.line_spacing as int, 2),
        ) && r is None,
        dc matches DeviceCommand::FeedLine(n) ==> crate::context::position_step(
            *old(ctx),
            *final(ctx),
        ) && spec_x(*final(ctx)) == spec_base_x(*old(ctx)) && spec_y(*final(ctx))
            == crate::util::sat_add_u32(
            spec_y(*old(ctx)),
            crate::context::sat_mul_u32(old(ctx).text.line_spacing as int, n as int),
        ) && r is None,
        dc matches DeviceCommand::Feed(n) ==> crate::context::position_step(
            *old(ctx),
            *final(ctx),
        ) && spec_x(*final(ctx)) == spec_base_x(*old(ctx)) && spec_y(*final(ctx))
            == crate::util::sat_add_u32(spec_y(*old(ctx)), n as int) && r is None,
        dc == DeviceCommand::FullCut || dc == DeviceCommand::PartialCut
            ==> crate::context::position_step(*old(ctx), *final(ctx)) && spec_x(*final(ctx))
            == spec_base_x(*old(ctx)) && spec_y(*final(ctx)) == crate::util::sat_add_u32(
            spec_y(*old(ctx)),
            crate::context::sat_mul_u32(old(ctx).text.line_spacing as int, 2),
        ) && r is None,
        dc == DeviceCommand::BeginPageMode ==> *final(ctx) == (Context {
            page_mode: PageModeContext { enabled: true, ..old(ctx).page_mode },
            ..*old(ctx)
        }) && r is None,
        dc == DeviceCommand::EndPageMode ==> *final(ctx) == (Context {
            page_mode: PageModeContext { enabled: false, ..old(ctx).page_mode },
            ..*old(ctx)
        }) && r is None,
        dc == DeviceCommand::PrintPageMode ==> *final(ctx) == (Context {
            graphics: crate::context::GraphicsContext {
                render_area: RenderArea {
                    x: 0,
                    y: crate::util::sat_add_u32(
                        old(ctx).graphics.render_area.y as int,
                        old(ctx).page_mode.page_area.h as int,
                    ) as u32,
                    ..old(ctx).graphics.render_area
                },
                ..old(ctx).graphics
            },
            ..*old(ctx)
        }) && r is None,
        dc == DeviceCommand::ChangePageModeDirection ==> r is Some
            && crate::context::applies_logical_area(
            old(ctx).page_mode,
            final(ctx).page_mode,
            r->Some_0,
        ) && only_page_mode_changed(*old(ctx), *final(ctx)),
        dc == DeviceCommand::ChangePageArea ==> r is Some
            && crate::context::applies_logical_area(
            (PageModeContext {
                previous_direction: old(ctx).page_mode.direction,
                ..old(ctx).page_mode
            }),
            final(ctx).page_mode,
            r->Some_0,
        ) && only_page_mode_changed(*old(ctx), *final(ctx)),
        dc matches DeviceCommand::ChangeTabs(count, at) ==> final(ctx).text.tabs@ == (if (
        at as int) < old(ctx).text.tabs@.len() {
            old(ctx).text.tabs@.update(at as int, count)
        } else {
            old(ctx).text.tabs@
        }) && r is None,
        dc == DeviceCommand::EndPrint ==> *final(ctx) == *old(ctx) && r is None,
        dc == DeviceCommand::ClearBufferGraphics ==> *final(ctx) == (Context {
            graphics: crate::context::GraphicsContext {
                buffer_graphics: final(ctx).graphics.buffer_graphics,
                ..old(ctx).graphics
            },
            ..*old(ctx)
        }) && final(ctx).graphics.buffer_graphics@ == Seq::<Image>::empty() && r is None,
{
    match dc {
        DeviceCommand::SetTextWidth(w) => {
            ctx.text.width_mult = w;
            None
        },
        DeviceCommand::SetTextHeight(h) => {
            ctx.text.height_mult = h;
            None
        },
        DeviceCommand::Justify(j) => {
            ctx.text.justify = j;
            None
        },
        DeviceCommand::BeginPrint => {
            ctx.newline(2);
            None
        },
        DeviceCommand::EndPrint => None,
        DeviceCommand::FeedLine(n) => {
            ctx.newline(n);
            None
        },
        DeviceCommand::Feed(n) => {
            ctx.feed(n);
            None
        },
        DeviceCommand::FullCut | DeviceCommand::PartialCut => {
            ctx.newline(2);
            None
        },
        DeviceCommand::BeginPageMode => {
            ctx.page_mode.enabled = true;
            None
        },
        DeviceCommand::EndPageMode => {
            ctx.page_mode.enabled = false;
            None
        },
        DeviceCommand::PrintPageMode => {
            ctx.graphics.render_area.y = ctx.graphics.render_area.y.saturating_add(
                ctx.page_mode.page_area.h,
            );
            ctx.graphics.render_area.x = 0;
            None
        },
        DeviceCommand::ChangePageArea => {
            ctx.page_mode.previous_direction = ctx.page_mode.direction;
            Some(ctx.page_mode.apply_logical_area())
        },
        DeviceCommand::ChangePageModeDirection => Some(ctx.page_mode.apply_logical_area()),
        DeviceCommand::ChangeTabs(count, at) => {
            ctx.set_tab_len(count, at);
            None
        },
        DeviceCommand::ClearBufferGraphics => {
            ctx.graphics.buffer_graphics = Vec::new();
            proof {
                assert(ctx.graphics.buffer_graphics@ =~= Seq::<Image>::empty());
            }
            None
        },
    }
}

} // verus!
