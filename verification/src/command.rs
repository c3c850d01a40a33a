//! The command model: one parsed command instance with its payload and
//! handler state, the catalog's classification enums, and the
//! out-of-band instructions commands send to the output side.
use vstd::prelude::*;

use crate::barcode::BarcodeHandler;
use crate::context::TextJustify;

verus! {

#[derive(Clone, Copy, PartialEq, Eq, Structural, Debug)]
pub enum CommandType {
    Control,
    Text,
    TextStyle,
    Graphics,
    Context,
    ContextControl,
    Subcommand,
    Unknown,
}

/// How a command's payload ends.
#[derive(Clone, Copy, PartialEq, Eq, Structural, Debug)]
pub enum DataType {
    /// Exactly one payload byte.
    Single,
    /// Exactly two payload bytes.
    Double,
    /// Exactly three payload bytes.
    Triple,
    /// Bytes until one could begin a known command prefix.
    Text,
    /// The handler decides byte by byte.
    Custom,
    /// A child selector follows the prefix, then handler-driven data.
    Subcommand,
    /// No payload at all.
    Empty,
}

/// Out-of-band instructions handed to the output side.
#[derive(Clone, Copy, PartialEq, Eq, Structural, Debug)]
pub enum DeviceCommand {
    BeginPrint,
    EndPrint,
    FeedLine(u32),
    Feed(u32),
    FullCut,
    PartialCut,
    BeginPageMode,
    EndPageMode,
    PrintPageMode,
    ChangePageArea,
    ChangePageModeDirection,
    Justify(TextJustify),
    SetTextWidth(u8),
    SetTextHeight(u8),
    ChangeTabs(u8, u8),
    ClearBufferGraphics,
}

/// State of a column bit-image command: three header bytes select the
/// density mode and the column count, then the bit-packed columns.
#[derive(Clone, Copy, PartialEq, Eq, Structural, Debug)]
pub struct BitImageHandler {
    pub width: u32,
    pub height: u32,
    pub capacity: u32,
    pub accept_data: bool,
}

impl BitImageHandler {
    pub fn fresh() -> (r: BitImageHandler)
        ensures
            r == (BitImageHandler { width: 0, height: 0, capacity: 0, accept_data: false }),
    {
        BitImageHandler { width: 0, height: 0, capacity: 0, accept_data: false }
    }

    /// Feeds one byte: the first three bytes are the mode and the
    /// little-endian column count (the payload is cleared once they are
    /// read); the twenty-four-dot modes 32 and 33 take three bytes per
    /// column, every other mode one. Then bytes fill the payload to
    /// capacity; a byte beyond it is refused.
    pub fn push(&mut self, data: &mut Vec<u8>, byte: u8) -> (accepted: bool)
        ensures
            !old(self).accept_data && old(data)@.len() < 2 ==> accepted && *final(self) == *old(self) && final(data)@ == old(data)@ + seq![byte],
            !old(self).accept_data && old(data)@.len() >= 2 ==> {
                let m = old(data)@[0];
                let width = old(data)@[1] + 256 * (byte as int);
                &&& accepted
                &&& final(data)@ == Seq::<u8>::empty()
                &&& final(self).width == width
                &&& (m == 32 || m == 33) ==> final(self).capacity == 3 * width && final(self).height == 24
                &&& !(m == 32 || m == 33) ==> final(self).capacity == width && final(self).height
                    == 8
                &&& final(self).accept_data
            },
            old(self).accept_data ==> *final(self) == *old(self) && if old(data)@.len() < old(self).capacity {
                accepted && final(data)@ == old(data)@ + seq![byte]
            } else {
                !accepted && final(data)@ == old(data)@
            },
    {
        if self.accept_data {
            if data.len() >= self.capacity as usize {
                return false;
            }
            data.push(byte);
            return true;
        }
        if data.len() < 2 {
            data.push(byte);
            return true;
        }
        let m = data[0];
        let p1 = data[1] as u32;
        let p2 = byte as u32;
        self.width = p1 + p2 * 256;
        if m == 32 || m == 33 {
            self.capacity = self.width * 3;
            self.height = 24;
        } else {
            self.capacity = self.width;
            self.height = 8;
        }
        self.accept_data = true;
        data.clear();
        true
    }
}

/// State of a raster bit-image command: five header bytes select the
/// scaling mode and the little-endian byte-width and height, then the
/// bit-packed rows.
#[derive(Clone)]
pub struct RasterBitImageHandler {
    /// Width in pixels: eight times the byte-width from the header.
    pub width: u32,
    pub height: u32,
    pub capacity: u32,
    pub scaling: u8,
    pub accept_data: bool,
    /// The five header bytes, kept for wire-format round trips.
    pub params: Vec<u8>,
}

impl RasterBitImageHandler {
    pub fn fresh() -> (r: RasterBitImageHandler)
        ensures
            r.width == 0,
            r.height == 0,
            r.capacity == 0,
            r.scaling == 0,
            !r.accept_data,
            r.params@ == Seq::<u8>::empty(),
    {
        RasterBitImageHandler {
            width: 0,
            height: 0,
            capacity: 0,
            scaling: 0,
            accept_data: false,
            params: Vec::new(),
        }
    }

    /// Feeds one byte: the first five bytes are scaling, byte-width and
    /// height (the payload is cleared once they are read); then bytes
    /// fill the payload to width-bytes times height; a byte beyond it
    /// is refused.
    pub fn push(&mut self, data: &mut Vec<u8>, byte: u8) -> (accepted: bool)
        ensures
            !old(self).accept_data && old(data)@.len() < 4 ==> accepted && *final(self) == *old(self) && final(data)@ == old(data)@ + seq![byte],
            !old(self).accept_data && old(data)@.len() >= 4 ==> {
                let wb = old(data)@[1] + 256 * old(data)@[2];
                let h = old(data)@[3] + 256 * (byte as int);
                &&& accepted
                &&& final(data)@ == Seq::<u8>::empty()
                &&& final(self).scaling == old(data)@[0]
                &&& final(self).width == 8 * wb
                &&& final(self).height == h
                &&& final(self).capacity == wb * h
                &&& final(self).accept_data
                &&& final(self).params@ == seq![
                    old(data)@[0],
                    old(data)@[1],
                    old(data)@[2],
                    old(data)@[3],
                    byte,
                ]
            },
            old(self).accept_data ==> *final(self) == *old(self) && if old(data)@.len() < old(self).capacity {
                accepted && final(data)@ == old(data)@ + seq![byte]
            } else {
                !accepted && final(data)@ == old(data)@
            },
    {
        if self.accept_data {
            if data.len() >= self.capacity as usize {
                return false;
            }
            data.push(byte);
            return true;
        }
        if data.len() < 4 {
            data.push(byte);
            return true;
        }
        let scaling = data[0];
        let xl = data[1] as u32;
        let xh = data[2] as u32;
        let yl = data[3] as u32;
        let yh = byte as u32;
        self.scaling = scaling;
        let wb = xl + xh * 256;
        let h = yl + yh * 256;
        proof {
            assert(wb as int * h as int <= 65535 * 65535) by (nonlinear_arith)
                requires
                    wb <= 65535,
                    h <= 65535,
            ;
        }
        self.width = wb * 8;
        self.height = h;
        self.capacity = wb * h;
        let mut params: Vec<u8> = Vec::new();
        params.push(scaling);
        params.push(xl as u8);
        params.push(xh as u8);
        params.push(yl as u8);
        params.push(byte);
        self.params = params;
        data.clear();
        self.accept_data = true;
        true
    }

    /// The wire bytes this command stands for: the prefix, then the
    /// header bytes followed by the payload.
    pub fn get_command_bytes(&self, prefix: &Vec<u8>, data: &Vec<u8>) -> (r: (Vec<u8>, Vec<u8>))
        ensures
            r.0@ == prefix@,
            r.1@ == self.params@ + data@,
    {
        let mut out = crate::graphics::clone_bytes(&self.params);
        let mut i: usize = 0;
        while i < data.len()
            invariant
                i <= data@.len(),
                out@ == self.params@ + data@.subrange(0, i as int),
            decreases data@.len() - i,
        {
            out.push(data[i]);
            i += 1;
            proof {
                assert(out@ =~= self.params@ + data@.subrange(0, i as int));
            }
        }
        proof {
            assert(data@.subrange(0, data@.len() as int) =~= data@);
        }
        (crate::graphics::clone_bytes(prefix), out)
    }
}

/// State of a large-graphics command: four header bytes give the
/// payload length, a mode byte and a function selector, then the
/// function's own parameter block.
#[derive(Clone, Copy, PartialEq, Eq, Structural, Debug)]
pub struct LargeGraphicsHandler {
    pub mode: u8,
    pub function: u8,
    pub capacity: u32,
    pub accept_data: bool,
}

impl LargeGraphicsHandler {
    pub fn fresh() -> (r: LargeGraphicsHandler)
        ensures
            r == (LargeGraphicsHandler { mode: 0, function: 0, capacity: 0, accept_data: false }),
    {
        LargeGraphicsHandler { mode: 0, function: 0, capacity: 0, accept_data: false }
    }

    /// Feeds one byte: the first four bytes are the little-endian
    /// payload length (which counts the mode and function bytes), the
    /// mode and the function selector; the payload is cleared once they
    /// are read. Then bytes fill the payload to the declared length
    /// less the two bytes already seen.
    pub fn push(&mut self, data: &mut Vec<u8>, byte: u8) -> (accepted: bool)
        ensures
            !old(self).accept_data && old(data)@.len() < 3 ==> accepted && *final(self) == *old(self) && final(data)@ == old(data)@ + seq![byte],
            !old(self).accept_data && old(data)@.len() >= 3 ==> {
                let declared = old(data)@[0] + 256 * old(data)@[1];
                &&& accepted
                &&& final(data)@ == Seq::<u8>::empty()
                &&& final(self).mode == old(data)@[2]
                &&& final(self).function == byte
                &&& final(self).capacity == if declared >= 2 {
                    declared - 2
                } else {
                    0int
                }
                &&& final(self).accept_data
            },
            old(self).accept_data ==> *final(self) == *old(self) && if old(data)@.len() < old(self).capacity {
                accepted && final(data)@ == old(data)@ + seq![byte]
            } else {
                !accepted && final(data)@ == old(data)@
            },
    {
        if self.accept_data {
            if data.len() >= self.capacity as usize {
                return false;
            }
            data.push(byte);
            return true;
        }
        if data.len() < 3 {
            data.push(byte);
            return true;
        }
        let pl = data[0] as u32;
        let ph = data[1] as u32;
        self.mode = data[2];
        self.function = byte;
        let declared = pl + ph * 256;
        self.capacity = if declared >= 2 {
            declared - 2
        } else {
            0
        };
        data.clear();
        self.accept_data = true;
        true
    }
}

/// What a fixed-form command does when it is interpreted; the handler
/// for every command whose payload shape alone drives accumulation.
#[derive(Clone, Copy, PartialEq, Eq, Structural, Debug)]
pub enum SimpleOp {
    Initialize,
    LineFeed,
    FormFeed,
    CarriageReturn,
    HorizontalTab,
    FeedAndCut,
    PrintAndFeed,
    PrintAndFeedLines,
    PrintAndReverseFeedLines,
    SetEmphasis,
    SetDoubleStrike,
    SetItalic,
    SetUpsideDown,
    SetInternationalCharset,
    SetCodeTable,
    SetFontOp,
    SetUnderline,
    SetJustification,
    SetLineSpacing,
    DefaultLineSpacing,
    SetCharacterSize,
    SetBarcodeHeight,
    SetBarcodeWidth,
    SetBarcodeHri,
    SetBarcodeFont,
    EnterPageMode,
    ExitPageMode,
    PageDirection,
    PageArea,
    BeginPrintOp,
    EndPrintOp,
}

/// The per-command accumulator and interpreter state.
#[derive(Clone)]
pub enum Handler {
    Barcode(BarcodeHandler),
    BitImage(BitImageHandler),
    Raster(RasterBitImageHandler),
    Large(LargeGraphicsHandler),
    TextContent,
    Simple(SimpleOp),
    Unknown,
}

/// One parsed command: the descriptor data it was created from, the
/// prefix bytes actually seen, the accumulated payload, every raw byte
/// it consumed, and its handler state.
pub struct Command {
    pub name: String,
    pub prefix: Vec<u8>,
    pub kind: CommandType,
    pub data_type: DataType,
    pub data: Vec<u8>,
    /// Every input byte this command consumed, prefix included, in
    /// arrival order.
    pub raw: Vec<u8>,
    pub handler: Handler,
}


// ---------------------------------------------------------------------
// The accumulator model: what feeding bytes to a command means
// ---------------------------------------------------------------------
/// A handler's state as a mathematical value: the handler fields with
/// sequences for the byte buffers.
pub enum HandlerModel {
    Barcode {
        kind: crate::barcode::BarcodeType,
        kind_id: u8,
        encoding: crate::barcode::EncodingFunction,
        capacity: u8,
        has_capacity: bool,
        accept_data: bool,
        raw_params: Seq<u8>,
    },
    BitImage { width: int, height: int, capacity: int, accept_data: bool },
    Raster {
        width: int,
        height: int,
        capacity: int,
        scaling: u8,
        accept_data: bool,
        params: Seq<u8>,
    },
    Large { mode: u8, function: u8, capacity: int, accept_data: bool },
    TextContent,
    Simple(SimpleOp),
    Unknown,
}

pub open spec fn handler_model(h: Handler) -> HandlerModel {
    match h {
        Handler::Barcode(b) => HandlerModel::Barcode {
            kind: b.kind,
            kind_id: b.kind_id,
            encoding: b.encoding,
            capacity: b.capacity,
            has_capacity: b.has_capacity,
            accept_data: b.accept_data,
            raw_params: b.raw_params@,
        },
        Handler::BitImage(b) => HandlerModel::BitImage {
            width: b.width as int,
            height: b.height as int,
            capacity: b.capacity as int,
            accept_data: b.accept_data,
        },
        Handler::Raster(r) => HandlerModel::Raster {
            width: r.width as int,
            height: r.height as int,
            capacity: r.capacity as int,
            scaling: r.scaling,
            accept_data: r.accept_data,
            params: r.params@,
        },
        Handler::Large(l) => HandlerModel::Large {
            mode: l.mode,
            function: l.function,
            capacity: l.capacity as int,
            accept_data: l.accept_data,
        },
        Handler::TextContent => HandlerModel::TextContent,
        Handler::Simple(op) => HandlerModel::Simple(op),
        Handler::Unknown => HandlerModel::Unknown,
    }
}

/// A command's accumulator state: handler state plus payload bytes.
pub struct CmdState {
    pub handler: HandlerModel,
    pub data: Seq<u8>,
}

pub open spec fn cmd_state(c: Command) -> CmdState {
    CmdState { handler: handler_model(c.handler), data: c.data@ }
}

/// One byte offered to the accumulator: the state it leaves behind and
/// whether the byte was consumed. This is the whole accumulation
/// discipline of every handler, as one function.
pub open spec fn spec_push(st: CmdState, data_type: DataType, byte: u8) -> (CmdState, bool) {
    match st.handler {
        HandlerModel::Barcode {
            kind,
            kind_id,
            encoding,
            capacity,
            has_capacity,
            accept_data,
            raw_params,
        } => {
            if !accept_data {
                (
                    CmdState {
                        handler: HandlerModel::Barcode {
                            kind: crate::barcode::kind_of_selector(byte),
                            kind_id: byte,
                            encoding: crate::barcode::encoding_of_selector(byte),
                            capacity,
                            has_capacity,
                            accept_data: true,
                            raw_params: raw_params + seq![byte],
                        },
                        data: st.data,
                    },
                    true,
                )
            } else if encoding == crate::barcode::EncodingFunction::NulTerminated {
                if st.data.len() > 0 && st.data.last() == 0 {
                    (CmdState { handler: st.handler, data: st.data.drop_last() }, false)
                } else {
                    (CmdState { handler: st.handler, data: st.data + seq![byte] }, true)
                }
            } else if encoding == crate::barcode::EncodingFunction::ExplicitSize {
                if !has_capacity {
                    (
                        CmdState {
                            handler: HandlerModel::Barcode {
                                kind,
                                kind_id,
                                encoding,
                                capacity: byte,
                                has_capacity: true,
                                accept_data,
                                raw_params: raw_params + seq![byte],
                            },
                            data: st.data,
                        },
                        true,
                    )
                } else if st.data.len() < capacity {
                    (CmdState { handler: st.handler, data: st.data + seq![byte] }, true)
                } else {
                    (st, false)
                }
            } else {
                (st, false)
            }
        },
        HandlerModel::BitImage { width, height, capacity, accept_data } => {
            if accept_data {
                if st.data.len() < capacity {
                    (CmdState { handler: st.handler, data: st.data + seq![byte] }, true)
                } else {
                    (st, false)
                }
            } else if st.data.len() < 2 {
                (CmdState { handler: st.handler, data: st.data + seq![byte] }, true)
            } else {
                let m = st.data[0];
                let w = st.data[1] + 256 * (byte as int);
                (
                    CmdState {
                        handler: HandlerModel::BitImage {
                            width: w,
                            height: if m == 32 || m == 33 {
                                24
                            } else {
                                8
                            },
                            capacity: if m == 32 || m == 33 {
                                3 * w
                            } else {
                                w
                            },
                            accept_data: true,
                        },
                        data: Seq::empty(),
                    },
                    true,
                )
            }
        },
        HandlerModel::Raster { width, height, capacity, scaling, accept_data, params } => {
            if accept_data {
                if st.data.len() < capacity {
                    (CmdState { handler: st.handler, data: st.data + seq![byte] }, true)
                } else {
                    (st, false)
                }
            } else if st.data.len() < 4 {
                (CmdState { handler: st.handler, data: st.data + seq![byte] }, true)
            } else {
                let wb = st.data[1] + 256 * st.data[2];
                let h = st.data[3] + 256 * (byte as int);
                (
                    CmdState {
                        handler: HandlerModel::Raster {
                            width: 8 * wb,
                            height: h,
                            capacity: wb * h,
                            scaling: st.data[0],
                            accept_data: true,
                            params: seq![st.data[0], st.data[1], st.data[2], st.data[3], byte],
                        },
                        data: Seq::empty(),
                    },
                    true,
                )
            }
        },
        HandlerModel::Large { mode, function, capacity, accept_data } => {
            if accept_data {
                if st.data.len() < capacity {
                    (CmdState { handler: st.handler, data: st.data + seq![byte] }, true)
                } else {
                    (st, false)
                }
            } else if st.data.len() < 3 {
                (CmdState { handler: st.handler, data: st.data + seq![byte] }, true)
            } else {
                let declared = st.data[0] + 256 * st.data[1];
                (
                    CmdState {
                        handler: HandlerModel::Large {
                            mode: st.data[2],
                            function: byte,
                            capacity: if declared >= 2 {
                                declared - 2
                            } else {
                                0
                            },
                            accept_data: true,
                        },
                        data: Seq::empty(),
                    },
                    true,
                )
            }
        },
        HandlerModel::Simple(_) => {
            let cap = match data_type {
                DataType::Single => 1int,
                DataType::Double => 2,
                DataType::Triple => 3,
                DataType::Custom => 8,
                _ => 0,
            };
            if st.data.len() < cap {
                (CmdState { handler: st.handler, data: st.data + seq![byte] }, true)
            } else {
                (st, false)
            }
        },
        _ => (st, false),
    }
}

/// The accumulator state after feeding a whole byte sequence, every
/// byte consumed.
pub open spec fn run_state(st: CmdState, data_type: DataType, bytes: Seq<u8>) -> CmdState
    decreases bytes.len(),
{
    if bytes.len() == 0 {
        st
    } else {
        spec_push(run_state(st, data_type, bytes.drop_last()), data_type, bytes.last()).0
    }
}


/// Whether the accumulator consumed every byte of the sequence: each
/// step's byte was accepted by the state the previous bytes left.
pub open spec fn steps_accepted(init: CmdState, data_type: DataType, bytes: Seq<u8>) -> bool
    decreases bytes.len(),
{
    if bytes.len() == 0 {
        true
    } else {
        steps_accepted(init, data_type, bytes.drop_last()) && spec_push(
            run_state(init, data_type, bytes.drop_last()),
            data_type,
            bytes.last(),
        ).1
    }
}

/// The raster accumulator conserves its bytes: before the header is
/// complete the payload holds exactly the consumed bytes; after it the
/// five header bytes moved into the parameter record and the payload
/// holds the rest.
pub open spec fn raster_raw_ok(st: CmdState, tail: Seq<u8>) -> bool {
    &&& st.handler is Raster
    &&& (st.handler matches HandlerModel::Raster { params, accept_data, .. } ==> if accept_data {
        params + st.data == tail
    } else {
        params == Seq::<u8>::empty() && st.data == tail && tail.len() <= 4
    })
}

pub proof fn lemma_raster_raw(init: CmdState, data_type: DataType, tail: Seq<u8>)
    requires
        init.handler == (HandlerModel::Raster {
            width: 0,
            height: 0,
            capacity: 0,
            scaling: 0,
            accept_data: false,
            params: Seq::empty(),
        }),
        init.data == Seq::<u8>::empty(),
        steps_accepted(init, data_type, tail),
    ensures
        raster_raw_ok(run_state(init, data_type, tail), tail),
    decreases tail.len(),
{
    if tail.len() > 0 {
        lemma_raster_raw(init, data_type, tail.drop_last());
        let st = run_state(init, data_type, tail.drop_last());
        let b = tail.last();
        assert(steps_accepted(init, data_type, tail.drop_last()));
        assert(spec_push(st, data_type, b).1);
        assert(run_state(init, data_type, tail) == spec_push(st, data_type, b).0);
        assert(tail.drop_last() + seq![b] =~= tail);
        match st.handler {
            HandlerModel::Raster { params, capacity, accept_data, .. } => {
                if accept_data {
                    assert(st.data.len() < capacity);
                    assert(params + st.data == tail.drop_last());
                    assert(params + (st.data + seq![b]) =~= tail);
                } else if st.data.len() < 4 {
                    assert(st.data + seq![b] =~= tail);
                } else {
                    assert(st.data.len() == 4);
                    assert(st.data == tail.drop_last());
                    assert(seq![st.data[0], st.data[1], st.data[2], st.data[3], b] =~= tail);
                    assert(seq![st.data[0], st.data[1], st.data[2], st.data[3], b]
                        + Seq::<u8>::empty() =~= tail);
                }
            },
            _ => {},
        }
        let post = run_state(init, data_type, tail);
        assert(post == spec_push(st, data_type, b).0);
        assert(post.handler is Raster);
    } else {
        assert(tail =~= Seq::<u8>::empty());
    }
}

/// The barcode accumulator conserves its bytes: the selector (and the
/// size byte under the explicit-size convention) sits in the parameter
/// record and the payload holds everything after it.
pub open spec fn barcode_raw_ok(st: CmdState, tail: Seq<u8>) -> bool {
    &&& st.handler is Barcode
    &&& (st.handler matches HandlerModel::Barcode {
        encoding,
        raw_params,
        has_capacity,
        accept_data,
        ..
    } ==> if !accept_data {
        raw_params == Seq::<u8>::empty() && st.data == Seq::<u8>::empty() && tail
            == Seq::<u8>::empty()
    } else {
        match encoding {
            crate::barcode::EncodingFunction::NulTerminated => raw_params.len() == 1
                && raw_params + st.data == tail && (forall|i: int|
                0 <= i < st.data.len() - 1 ==> st.data[i] != 0),
            crate::barcode::EncodingFunction::ExplicitSize => if has_capacity {
                raw_params.len() == 2 && raw_params + st.data == tail
            } else {
                raw_params.len() == 1 && st.data == Seq::<u8>::empty() && tail == raw_params
            },
            crate::barcode::EncodingFunction::Unknown => raw_params.len() == 1 && st.data
                == Seq::<u8>::empty() && tail == raw_params,
        }
    })
}

pub proof fn lemma_barcode_raw(init: CmdState, data_type: DataType, tail: Seq<u8>)
    requires
        init.handler == (HandlerModel::Barcode {
            kind: crate::barcode::BarcodeType::Unknown,
            kind_id: 0,
            encoding: crate::barcode::EncodingFunction::Unknown,
            capacity: 0,
            has_capacity: false,
            accept_data: false,
            raw_params: Seq::empty(),
        }),
        init.data == Seq::<u8>::empty(),
        steps_accepted(init, data_type, tail),
    ensures
        barcode_raw_ok(run_state(init, data_type, tail), tail),
    decreases tail.len(),
{
    if tail.len() > 0 {
        lemma_barcode_raw(init, data_type, tail.drop_last());
        let st = run_state(init, data_type, tail.drop_last());
        let b = tail.last();
        assert(steps_accepted(init, data_type, tail.drop_last()));
        assert(spec_push(st, data_type, b).1);
        assert(run_state(init, data_type, tail) == spec_push(st, data_type, b).0);
        assert(tail.drop_last() + seq![b] =~= tail);
        match st.handler {
            HandlerModel::Barcode {
                encoding,
                raw_params,
                capacity,
                has_capacity,
                accept_data,
                ..
            } => {
                if !accept_data {
                    assert(raw_params == Seq::<u8>::empty() && tail.drop_last()
                        == Seq::<u8>::empty());
                    assert(raw_params + seq![b] =~= tail);
                } else if encoding == crate::barcode::EncodingFunction::NulTerminated {
                    assert(!(st.data.len() > 0 && st.data.last() == 0));
                    assert(raw_params + st.data == tail.drop_last());
                    assert(raw_params + (st.data + seq![b]) =~= tail);
                    let grown = st.data + seq![b];
                    assert forall|i: int| 0 <= i < grown.len() - 1 implies grown[i] != 0 by {
                        if i < st.data.len() - 1 {
                            assert(st.data[i] != 0);
                        } else {
                            assert(grown[i] == st.data.last());
                        }
                    }
                } else if encoding == crate::barcode::EncodingFunction::ExplicitSize {
                    if !has_capacity {
                        assert(tail.drop_last() == raw_params);
                        assert(raw_params + seq![b] =~= tail);
                    } else {
                        assert(st.data.len() < capacity);
                        assert(raw_params + st.data == tail.drop_last());
                        assert(raw_params + (st.data + seq![b]) =~= tail);
                    }
                }
            },
            _ => {},
        }
    } else {
        assert(tail =~= Seq::<u8>::empty());
    }
}


/// Feeding a byte never changes which handler a command carries.
pub proof fn lemma_push_variant(st: CmdState, data_type: DataType, b: u8)
    ensures
        (spec_push(st, data_type, b).0.handler is Raster) == (st.handler is Raster),
        (spec_push(st, data_type, b).0.handler is Barcode) == (st.handler is Barcode),
{
}

/// Neither does feeding a whole sequence.
pub proof fn lemma_run_variant(init: CmdState, data_type: DataType, bytes: Seq<u8>)
    ensures
        (run_state(init, data_type, bytes).handler is Raster) == (init.handler is Raster),
        (run_state(init, data_type, bytes).handler is Barcode) == (init.handler is Barcode),
    decreases bytes.len(),
{
    if bytes.len() > 0 {
        lemma_run_variant(init, data_type, bytes.drop_last());
        lemma_push_variant(run_state(init, data_type, bytes.drop_last()), data_type, bytes.last());
    }
}

/// Best-effort completion at end of stream: a NUL-terminated barcode
/// payload drops its pending terminator.
pub open spec fn finalize_state(st: CmdState) -> CmdState {
    let pending = st.handler matches HandlerModel::Barcode { encoding, .. } && encoding
        == crate::barcode::EncodingFunction::NulTerminated && st.data.len() > 0
        && st.data.last() == 0;
    if pending {
        CmdState { handler: st.handler, data: st.data.drop_last() }
    } else {
        st
    }
}

/// Payload bytes a fixed-form data type accepts.
pub open spec fn fixed_arity(t: DataType) -> int {
    match t {
        DataType::Single => 1,
        DataType::Double => 2,
        DataType::Triple => 3,
        _ => 0,
    }
}

impl Command {
    /// Offers one byte to the command's accumulator. A true result
    /// means the byte was consumed (and joins the raw record); false
    /// means the command is complete and the byte stays in the stream.
    pub fn push(&mut self, byte: u8) -> (accepted: bool)
        ensures
            accepted == spec_push(cmd_state(*old(self)), old(self).data_type, byte).1,
            cmd_state(*final(self)) == spec_push(
                cmd_state(*old(self)),
                old(self).data_type,
                byte,
            ).0,
            accepted ==> final(self).raw@ == old(self).raw@ + seq![byte],
            !accepted ==> final(self).raw@ == old(self).raw@,
            final(self).prefix@ == old(self).prefix@,
            final(self).kind == old(self).kind,
            final(self).data_type == old(self).data_type,
            final(self).name@ == old(self).name@,
            old(self).handler is Simple && (old(self).data_type == DataType::Single || old(self).data_type == DataType::Double || old(self).data_type == DataType::Triple) ==> if old(self).data@.len() < fixed_arity(old(self).data_type) {
                accepted && final(self).data@ == old(self).data@ + seq![byte]
            } else {
                !accepted && final(self).data@ == old(self).data@
            },
            old(self).handler is Simple && old(self).data_type == DataType::Custom ==> if old(self).data@.len() < 8 {
                accepted && final(self).data@ == old(self).data@ + seq![byte]
            } else {
                !accepted && final(self).data@ == old(self).data@
            },
            old(self).handler is Simple || old(self).handler is TextContent || old(self).handler
                is Unknown ==> final(self).handler == old(self).handler,
            (old(self).handler is Simple && (old(self).data_type == DataType::Empty || old(self).data_type == DataType::Text)) || old(self).handler is TextContent || old(self).handler is Unknown ==> !accepted && final(self).data@ == old(self).data@,
    {
        let accepted = match &mut self.handler {
            Handler::Barcode(h) => h.push(&mut self.data, byte),
            Handler::BitImage(h) => h.push(&mut self.data, byte),
            Handler::Raster(h) => h.push(&mut self.data, byte),
            Handler::Large(h) => h.push(&mut self.data, byte),
            Handler::TextContent => {
                // Text accumulation is bounded by the catalog, which
                // only the parser can see; it appends directly.
                false
            },
            Handler::Simple(_) => {
                match self.data_type {
                    DataType::Single => {
                        if self.data.len() < 1 {
                            self.data.push(byte);
                            true
                        } else {
                            false
                        }
                    },
                    DataType::Double => {
                        if self.data.len() < 2 {
                            self.data.push(byte);
                            true
                        } else {
                            false
                        }
                    },
                    DataType::Triple => {
                        if self.data.len() < 3 {
                            self.data.push(byte);
                            true
                        } else {
                            false
                        }
                    },
                    DataType::Custom => {
                        // Fixed eight-byte parameter blocks (the page
                        // area command) are the one custom simple form.
                        if self.data.len() < 8 {
                            self.data.push(byte);
                            true
                        } else {
                            false
                        }
                    },
                    _ => false,
                }
            },
            Handler::Unknown => false,
        };
        if accepted {
            self.raw.push(byte);
        }
        proof {
            let post = spec_push(cmd_state(*old(self)), old(self).data_type, byte).0;
            assert(cmd_state(*self).data =~= post.data);
            assert(cmd_state(*self).handler == post.handler);
        }
        accepted
    }
}

impl Command {
    /// Best-effort completion at end of stream: a NUL-terminated
    /// barcode whose payload still ends in its terminator drops it, as
    /// a further byte would have; nothing else changes.
    pub fn finalize(&mut self)
        ensures
            final(self).raw@ == old(self).raw@,
            final(self).prefix@ == old(self).prefix@,
            final(self).kind == old(self).kind,
            final(self).data_type == old(self).data_type,
            final(self).handler == old(self).handler,
            cmd_state(*final(self)) == finalize_state(cmd_state(*old(self))),
    {
        let pop = match &self.handler {
            Handler::Barcode(h) => h.encoding == crate::barcode::EncodingFunction::NulTerminated
                && self.data.len() > 0 && self.data[self.data.len() - 1] == 0,
            _ => false,
        };
        if pop {
            self.data.pop();
        }
    }
}

} // verus!
