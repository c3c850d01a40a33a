//! The command catalog: every recognized wire command with its prefix
//! bytes, classification, payload convention and handler, plus the
//! constructors for command instances and the synthetic stream markers.
use vstd::prelude::*;

use crate::barcode::BarcodeHandler;
use crate::command::{
    BitImageHandler, Command, CommandType, DataType, Handler, LargeGraphicsHandler,
    RasterBitImageHandler, SimpleOp,
};

verus! {

/// Which handler a command instance gets.
#[derive(Clone, Copy, PartialEq, Eq, Structural, Debug)]
pub enum HandlerKind {
    Barcode,
    BitImage,
    Raster,
    Large,
    Simple(SimpleOp),
}

/// One catalog entry: an immutable description of a wire command.
pub struct CommandDef {
    pub name: &'static str,
    pub prefix: Vec<u8>,
    pub kind: CommandType,
    pub data_type: DataType,
    pub handler_kind: HandlerKind,
}

/// Every prefix in a usable catalog holds one to three bytes.
pub open spec fn catalog_wf(defs: Seq<CommandDef>) -> bool {
    forall|i: int| 0 <= i < defs.len() ==> 1 <= (#[trigger] defs[i]).prefix@.len() <= 3
}

/// The state a fresh handler of each kind starts in.
pub open spec fn fresh_model(kind: HandlerKind) -> crate::command::HandlerModel {
    match kind {
        HandlerKind::Barcode => crate::command::HandlerModel::Barcode {
            kind: crate::barcode::BarcodeType::Unknown,
            kind_id: 0,
            encoding: crate::barcode::EncodingFunction::Unknown,
            capacity: 0,
            has_capacity: false,
            accept_data: false,
            raw_params: Seq::empty(),
        },
        HandlerKind::BitImage => crate::command::HandlerModel::BitImage {
            width: 0,
            height: 0,
            capacity: 0,
            accept_data: false,
        },
        HandlerKind::Raster => crate::command::HandlerModel::Raster {
            width: 0,
            height: 0,
            capacity: 0,
            scaling: 0,
            accept_data: false,
            params: Seq::empty(),
        },
        HandlerKind::Large => crate::command::HandlerModel::Large {
            mode: 0,
            function: 0,
            capacity: 0,
            accept_data: false,
        },
        HandlerKind::Simple(op) => crate::command::HandlerModel::Simple(op),
    }
}

/// A fresh handler of the given kind.
pub fn make_handler(kind: HandlerKind) -> (r: Handler)
    ensures
        kind == HandlerKind::Barcode ==> r is Barcode,
        kind == HandlerKind::BitImage ==> r is BitImage,
        kind == HandlerKind::Raster ==> r is Raster,
        kind == HandlerKind::Large ==> r is Large,
        forall|op: SimpleOp| kind == HandlerKind::Simple(op) ==> r == Handler::Simple(op),
        crate::command::handler_model(r) == fresh_model(kind),
{
    match kind {
        HandlerKind::Barcode => Handler::Barcode(BarcodeHandler::fresh()),
        HandlerKind::BitImage => Handler::BitImage(BitImageHandler::fresh()),
        HandlerKind::Raster => Handler::Raster(RasterBitImageHandler::fresh()),
        HandlerKind::Large => Handler::Large(LargeGraphicsHandler::fresh()),
        HandlerKind::Simple(op) => Handler::Simple(op),
    }
}

/// A fresh command instance for a catalog entry whose prefix bytes have
/// just been consumed: the prefix is also the raw record so far.
pub fn command(def: &CommandDef) -> (r: Command)
    ensures
        r.name@ == def.name@,
        r.prefix@ == def.prefix@,
        r.kind == def.kind,
        r.data_type == def.data_type,
        r.data@ == Seq::<u8>::empty(),
        r.raw@ == def.prefix@,
        def.handler_kind == HandlerKind::Barcode ==> r.handler is Barcode,
        forall|op: SimpleOp|
            def.handler_kind == HandlerKind::Simple(op) ==> r.handler == Handler::Simple(op),
        crate::command::handler_model(r.handler) == fresh_model(def.handler_kind),
{
    Command {
        name: String::from_str(def.name),
        prefix: crate::graphics::clone_bytes(&def.prefix),
        kind: def.kind,
        data_type: def.data_type,
        data: Vec::new(),
        raw: crate::graphics::clone_bytes(&def.prefix),
        handler: make_handler(def.handler_kind),
    }
}

/// The command that absorbs bytes not belonging to any recognized
/// command: plain text content.
pub fn text_command() -> (r: Command)
    ensures
        r.prefix@ == Seq::<u8>::empty(),
        r.data@ == Seq::<u8>::empty(),
        r.raw@ == Seq::<u8>::empty(),
        r.kind == CommandType::Text,
        r.data_type == DataType::Text,
        r.handler is TextContent,
{
    Command {
        name: String::from_str("Text"),
        prefix: Vec::new(),
        kind: CommandType::Text,
        data_type: DataType::Text,
        data: Vec::new(),
        raw: Vec::new(),
        handler: Handler::TextContent,
    }
}

/// The synthetic marker emitted before any stream byte.
pub fn begin_print_command() -> (r: Command)
    ensures
        r.raw@ == Seq::<u8>::empty(),
        r.handler == Handler::Simple(SimpleOp::BeginPrintOp),
        r.kind == CommandType::Control,
{
    Command {
        name: String::from_str("Begin Print"),
        prefix: Vec::new(),
        kind: CommandType::Control,
        data_type: DataType::Empty,
        data: Vec::new(),
        raw: Vec::new(),
        handler: Handler::Simple(SimpleOp::BeginPrintOp),
    }
}

/// The synthetic marker emitted after the last stream byte.
pub fn end_print_command() -> (r: Command)
    ensures
        r.raw@ == Seq::<u8>::empty(),
        r.handler == Handler::Simple(SimpleOp::EndPrintOp),
        r.kind == CommandType::Control,
{
    Command {
        name: String::from_str("End Print"),
        prefix: Vec::new(),
        kind: CommandType::Control,
        data_type: DataType::Empty,
        data: Vec::new(),
        raw: Vec::new(),
        handler: Handler::Simple(SimpleOp::EndPrintOp),
    }
}

fn def2(name: &'static str, a: u8, b: u8, kind: CommandType, data_type: DataType, handler_kind: HandlerKind) -> (r: CommandDef)
    ensures
        r.prefix@ == seq![a, b],
        r.name == name,
        r.kind == kind,
        r.data_type == data_type,
        r.handler_kind == handler_kind,
{
    let mut prefix: Vec<u8> = Vec::new();
    prefix.push(a);
    prefix.push(b);
    proof {
        assert(prefix@ =~= seq![a, b]);
    }
    CommandDef { name, prefix, kind, data_type, handler_kind }
}

fn def1(name: &'static str, a: u8, kind: CommandType, data_type: DataType, handler_kind: HandlerKind) -> (r: CommandDef)
    ensures
        r.prefix@ == seq![a],
        r.name == name,
        r.kind == kind,
        r.data_type == data_type,
        r.handler_kind == handler_kind,
{
    let mut prefix: Vec<u8> = Vec::new();
    prefix.push(a);
    proof {
        assert(prefix@ =~= seq![a]);
    }
    CommandDef { name, prefix, kind, data_type, handler_kind }
}

fn def3(name: &'static str, a: u8, b: u8, c: u8, kind: CommandType, data_type: DataType, handler_kind: HandlerKind) -> (r: CommandDef)
    ensures
        r.prefix@ == seq![a, b, c],
        r.name == name,
        r.kind == kind,
        r.data_type == data_type,
        r.handler_kind == handler_kind,
{
    let mut prefix: Vec<u8> = Vec::new();
    prefix.push(a);
    prefix.push(b);
    prefix.push(c);
    proof {
        assert(prefix@ =~= seq![a, b, c]);
    }
    CommandDef { name, prefix, kind, data_type, handler_kind }
}

/// One catalog entry's binding: its prefix bytes, classification,
/// payload convention and handler kind.
pub open spec fn entry_is(
    d: CommandDef,
    prefix: Seq<u8>,
    kind: CommandType,
    data_type: DataType,
    handler_kind: HandlerKind,
) -> bool {
    d.prefix@ == prefix && d.kind == kind && d.data_type == data_type && d.handler_kind
        == handler_kind
}

/// The standard command set: the recognized wire commands, each bound
/// to its prefix bytes, payload convention and handler.
pub fn standard_catalog() -> (r: Vec<CommandDef>)
    ensures
        catalog_wf(r@),
        r@.len() == 34,
        entry_is(r@[0], seq![0x1Du8, 0x6Bu8], CommandType::Graphics, DataType::Custom, HandlerKind::Barcode),
        entry_is(r@[1], seq![0x1Bu8, 0x2Au8], CommandType::Graphics, DataType::Custom, HandlerKind::BitImage),
        entry_is(r@[2], seq![0x1Du8, 0x76u8, 0x30u8], CommandType::Graphics, DataType::Custom, HandlerKind::Raster),
        entry_is(r@[3], seq![0x1Du8, 0x28u8, 0x4Cu8], CommandType::Graphics, DataType::Custom, HandlerKind::Large),
        entry_is(r@[4], seq![0x1Du8, 0x38u8, 0x4Cu8], CommandType::Graphics, DataType::Custom, HandlerKind::Large),
        entry_is(r@[5], seq![0x1Bu8, 0x40u8], CommandType::ContextControl, DataType::Empty, HandlerKind::Simple(SimpleOp::Initialize)),
        entry_is(r@[6], seq![0x0Au8], CommandType::Control, DataType::Empty, HandlerKind::Simple(SimpleOp::LineFeed)),
        entry_is(r@[7], seq![0x0Cu8], CommandType::Control, DataType::Empty, HandlerKind::Simple(SimpleOp::FormFeed)),
        entry_is(r@[8], seq![0x0Du8], CommandType::Control, DataType::Empty, HandlerKind::Simple(SimpleOp::CarriageReturn)),
        entry_is(r@[9], seq![0x09u8], CommandType::Text, DataType::Empty, HandlerKind::Simple(SimpleOp::HorizontalTab)),
        entry_is(r@[10], seq![0x1Bu8, 0x45u8], CommandType::TextStyle, DataType::Single, HandlerKind::Simple(SimpleOp::SetEmphasis)),
        entry_is(r@[11], seq![0x1Bu8, 0x47u8], CommandType::TextStyle, DataType::Single, HandlerKind::Simple(SimpleOp::SetDoubleStrike)),
        entry_is(r@[12], seq![0x1Bu8, 0x34u8], CommandType::TextStyle, DataType::Single, HandlerKind::Simple(SimpleOp::SetItalic)),
        entry_is(r@[13], seq![0x1Bu8, 0x7Bu8], CommandType::TextStyle, DataType::Single, HandlerKind::Simple(SimpleOp::SetUpsideDown)),
        entry_is(r@[14], seq![0x1Bu8, 0x52u8], CommandType::TextStyle, DataType::Single, HandlerKind::Simple(SimpleOp::SetInternationalCharset)),
        entry_is(r@[15], seq![0x1Bu8, 0x74u8], CommandType::TextStyle, DataType::Single, HandlerKind::Simple(SimpleOp::SetCodeTable)),
        entry_is(r@[16], seq![0x1Bu8, 0x4Du8], CommandType::TextStyle, DataType::Single, HandlerKind::Simple(SimpleOp::SetFontOp)),
        entry_is(r@[17], seq![0x1Bu8, 0x2Du8], CommandType::TextStyle, DataType::Single, HandlerKind::Simple(SimpleOp::SetUnderline)),
        entry_is(r@[18], seq![0x1Bu8, 0x61u8], CommandType::TextStyle, DataType::Single, HandlerKind::Simple(SimpleOp::SetJustification)),
        entry_is(r@[19], seq![0x1Bu8, 0x33u8], CommandType::Context, DataType::Single, HandlerKind::Simple(SimpleOp::SetLineSpacing)),
        entry_is(r@[20], seq![0x1Bu8, 0x32u8], CommandType::Context, DataType::Empty, HandlerKind::Simple(SimpleOp::DefaultLineSpacing)),
        entry_is(r@[21], seq![0x1Du8, 0x21u8], CommandType::TextStyle, DataType::Single, HandlerKind::Simple(SimpleOp::SetCharacterSize)),
        entry_is(r@[22], seq![0x1Du8, 0x56u8], CommandType::Control, DataType::Single, HandlerKind::Simple(SimpleOp::FeedAndCut)),
        entry_is(r@[23], seq![0x1Bu8, 0x4Au8], CommandType::Control, DataType::Single, HandlerKind::Simple(SimpleOp::PrintAndFeed)),
        entry_is(r@[24], seq![0x1Bu8, 0x64u8], CommandType::Control, DataType::Single, HandlerKind::Simple(SimpleOp::PrintAndFeedLines)),
        entry_is(r@[25], seq![0x1Bu8, 0x65u8], CommandType::Control, DataType::Single, HandlerKind::Simple(SimpleOp::PrintAndReverseFeedLines)),
        entry_is(r@[26], seq![0x1Du8, 0x68u8], CommandType::Context, DataType::Single, HandlerKind::Simple(SimpleOp::SetBarcodeHeight)),
        entry_is(r@[27], seq![0x1Du8, 0x77u8], CommandType::Context, DataType::Single, HandlerKind::Simple(SimpleOp::SetBarcodeWidth)),
        entry_is(r@[28], seq![0x1Du8, 0x48u8], CommandType::Context, DataType::Single, HandlerKind::Simple(SimpleOp::SetBarcodeHri)),
        entry_is(r@[29], seq![0x1Du8, 0x66u8], CommandType::Context, DataType::Single, HandlerKind::Simple(SimpleOp::SetBarcodeFont)),
        entry_is(r@[30], seq![0x1Bu8, 0x4Cu8], CommandType::Control, DataType::Empty, HandlerKind::Simple(SimpleOp::EnterPageMode)),
        entry_is(r@[31], seq![0x1Bu8, 0x53u8], CommandType::Control, DataType::Empty, HandlerKind::Simple(SimpleOp::ExitPageMode)),
        entry_is(r@[32], seq![0x1Bu8, 0x54u8], CommandType::ContextControl, DataType::Single, HandlerKind::Simple(SimpleOp::PageDirection)),
        entry_is(r@[33], seq![0x1Bu8, 0x57u8], CommandType::ContextControl, DataType::Custom, HandlerKind::Simple(SimpleOp::PageArea)),
{
    let mut defs: Vec<CommandDef> = Vec::new();
    defs.push(def2("Barcode", 0x1D, 0x6B, CommandType::Graphics, DataType::Custom, HandlerKind::Barcode));
    defs.push(def2("Bit Image", 0x1B, 0x2A, CommandType::Graphics, DataType::Custom, HandlerKind::BitImage));
    defs.push(def3("Raster Bit Image", 0x1D, 0x76, 0x30, CommandType::Graphics, DataType::Custom, HandlerKind::Raster));
    defs.push(def3("Large Graphics", 0x1D, 0x28, 0x4C, CommandType::Graphics, DataType::Custom, HandlerKind::Large));
    defs.push(def3("Large Graphics Extended", 0x1D, 0x38, 0x4C, CommandType::Graphics, DataType::Custom, HandlerKind::Large));
    defs.push(def2("Initialize", 0x1B, 0x40, CommandType::ContextControl, DataType::Empty, HandlerKind::Simple(SimpleOp::Initialize)));
    defs.push(def1("Linefeed", 0x0A, CommandType::Control, DataType::Empty, HandlerKind::Simple(SimpleOp::LineFeed)));
    defs.push(def1("Formfeed", 0x0C, CommandType::Control, DataType::Empty, HandlerKind::Simple(SimpleOp::FormFeed)));
    defs.push(def1("Carriage Return", 0x0D, CommandType::Control, DataType::Empty, HandlerKind::Simple(SimpleOp::CarriageReturn)));
    defs.push(def1("Horizontal Tab", 0x09, CommandType::Text, DataType::Empty, HandlerKind::Simple(SimpleOp::HorizontalTab)));
    defs.push(def2("Enable Emphasis", 0x1B, 0x45, CommandType::TextStyle, DataType::Single, HandlerKind::Simple(SimpleOp::SetEmphasis)));
    defs.push(def2("Enable Double Strike", 0x1B, 0x47, CommandType::TextStyle, DataType::Single, HandlerKind::Simple(SimpleOp::SetDoubleStrike)));
    defs.push(def2("Enable Italic", 0x1B, 0x34, CommandType::TextStyle, DataType::Single, HandlerKind::Simple(SimpleOp::SetItalic)));
    defs.push(def2("Enable Upside Down Mode", 0x1B, 0x7B, CommandType::TextStyle, DataType::Single, HandlerKind::Simple(SimpleOp::SetUpsideDown)));
    defs.push(def2("Set International Character Set", 0x1B, 0x52, CommandType::TextStyle, DataType::Single, HandlerKind::Simple(SimpleOp::SetInternationalCharset)));
    defs.push(def2("Set Code Table", 0x1B, 0x74, CommandType::TextStyle, DataType::Single, HandlerKind::Simple(SimpleOp::SetCodeTable)));
    defs.push(def2("Set Font", 0x1B, 0x4D, CommandType::TextStyle, DataType::Single, HandlerKind::Simple(SimpleOp::SetFontOp)));
    defs.push(def2("Set Underline", 0x1B, 0x2D, CommandType::TextStyle, DataType::Single, HandlerKind::Simple(SimpleOp::SetUnderline)));
    defs.push(def2("Set Justification", 0x1B, 0x61, CommandType::TextStyle, DataType::Single, HandlerKind::Simple(SimpleOp::SetJustification)));
    defs.push(def2("Set Line Spacing", 0x1B, 0x33, CommandType::Context, DataType::Single, HandlerKind::Simple(SimpleOp::SetLineSpacing)));
    defs.push(def2("Default Line Spacing", 0x1B, 0x32, CommandType::Context, DataType::Empty, HandlerKind::Simple(SimpleOp::DefaultLineSpacing)));
    defs.push(def2("Set Character Size", 0x1D, 0x21, CommandType::TextStyle, DataType::Single, HandlerKind::Simple(SimpleOp::SetCharacterSize)));
    defs.push(def2("Feed and Cut", 0x1D, 0x56, CommandType::Control, DataType::Single, HandlerKind::Simple(SimpleOp::FeedAndCut)));
    defs.push(def2("Print and Feed", 0x1B, 0x4A, CommandType::Control, DataType::Single, HandlerKind::Simple(SimpleOp::PrintAndFeed)));
    defs.push(def2("Print and Feed Lines", 0x1B, 0x64, CommandType::Control, DataType::Single, HandlerKind::Simple(SimpleOp::PrintAndFeedLines)));
    defs.push(def2("Print and Reverse Feed Lines", 0x1B, 0x65, CommandType::Control, DataType::Single, HandlerKind::Simple(SimpleOp::PrintAndReverseFeedLines)));
    defs.push(def2("Set Barcode Height", 0x1D, 0x68, CommandType::Context, DataType::Single, HandlerKind::Simple(SimpleOp::SetBarcodeHeight)));
    defs.push(def2("Set Barcode Width", 0x1D, 0x77, CommandType::Context, DataType::Single, HandlerKind::Simple(SimpleOp::SetBarcodeWidth)));
    defs.push(def2("Set Barcode HRI", 0x1D, 0x48, CommandType::Context, DataType::Single, HandlerKind::Simple(SimpleOp::SetBarcodeHri)));
    defs.push(def2("Set Barcode Font", 0x1D, 0x66, CommandType::Context, DataType::Single, HandlerKind::Simple(SimpleOp::SetBarcodeFont)));
    defs.push(def2("Set Page Mode", 0x1B, 0x4C, CommandType::Control, DataType::Empty, HandlerKind::Simple(SimpleOp::EnterPageMode)));
    defs.push(def2("Select Standard Mode", 0x1B, 0x53, CommandType::Control, DataType::Empty, HandlerKind::Simple(SimpleOp::ExitPageMode)));
    defs.push(def2("Page Mode Print Direction", 0x1B, 0x54, CommandType::ContextControl, DataType::Single, HandlerKind::Simple(SimpleOp::PageDirection)));
    defs.push(def2("Page Mode Print Area", 0x1B, 0x57, CommandType::ContextControl, DataType::Custom, HandlerKind::Simple(SimpleOp::PageArea)));
    defs
}

} // verus!
