//! The barcode command handler: payload accumulation in both wire
//! encodings, data-length validation per symbology, the Code128 code-set
//! handling, and encoding through the barcoders crate.
use vstd::prelude::*;

use crate::context::Context;
use crate::graphics::{Barcode, GraphicsCommand, TextSpan};

verus! {

#[derive(Clone, Copy, PartialEq, Eq, Structural, Debug)]
pub enum BarcodeType {
    UpcA,
    UpcE,
    Ean13,
    Ean8,
    Code39,
    Itf,
    Nw7Codabar,
    Code93,
    Code128,
    Gs1128,
    Gs1DatabarOmni,
    Gs1DatabarTruncated,
    Gs1DatabarLimited,
    Gs1DatabarExpanded,
    Code128Auto,
    Unknown,
}

#[derive(Clone, Copy, PartialEq, Eq, Structural, Debug)]
pub enum EncodingFunction {
    NulTerminated,
    ExplicitSize,
    Unknown,
}

/// Why an encoder refused a payload; the counterpart of the barcoders
/// crate's error cases.
#[derive(Clone, Copy, PartialEq, Eq, Structural, Debug)]
pub enum EncodeRefusal {
    Character,
    Length,
    Generate,
    Checksum,
}

/// The symbology selected by the type-selector byte of the barcode
/// command.
pub open spec fn kind_of_selector(byte: u8) -> BarcodeType {
    if byte == 0 || byte == 65 {
        BarcodeType::UpcA
    } else if byte == 1 || byte == 66 {
        BarcodeType::UpcE
    } else if byte == 2 || byte == 67 {
        BarcodeType::Ean13
    } else if byte == 3 || byte == 68 {
        BarcodeType::Ean8
    } else if byte == 4 || byte == 69 {
        BarcodeType::Code39
    } else if byte == 5 || byte == 70 {
        BarcodeType::Itf
    } else if byte == 6 || byte == 71 {
        BarcodeType::Nw7Codabar
    } else if byte == 72 {
        BarcodeType::Code93
    } else if byte == 73 {
        BarcodeType::Code128
    } else if byte == 80 {
        BarcodeType::Gs1128
    } else if byte == 81 {
        BarcodeType::Gs1DatabarOmni
    } else if byte == 82 {
        BarcodeType::Gs1DatabarTruncated
    } else if byte == 83 {
        BarcodeType::Gs1DatabarLimited
    } else if byte == 84 {
        BarcodeType::Gs1DatabarExpanded
    } else if byte == 85 {
        BarcodeType::Code128Auto
    } else {
        BarcodeType::Unknown
    }
}

/// The payload convention selected by the type-selector byte: selectors
/// up to six read until a NUL, selectors 65 through 79 carry an explicit
/// size byte.
pub open spec fn encoding_of_selector(byte: u8) -> EncodingFunction {
    if byte <= 6 {
        EncodingFunction::NulTerminated
    } else if 65 <= byte <= 79 {
        EncodingFunction::ExplicitSize
    } else {
        EncodingFunction::Unknown
    }
}

/// Whether a payload of `len` bytes is acceptable for a symbology:
/// fixed-length families take only their digit counts, the others a
/// lower bound, and nothing takes more than 255 bytes.
pub open spec fn valid_data_length(kind: BarcodeType, len: int) -> bool {
    if len > 255 {
        false
    } else {
        match kind {
            BarcodeType::UpcA => len == 11 || len == 12,
            BarcodeType::UpcE => len == 6 || len == 7 || len == 8 || len == 11 || len == 12,
            BarcodeType::Ean13 => len == 12 || len == 13,
            BarcodeType::Ean8 => len == 7 || len == 8,
            BarcodeType::Code39 => len > 0,
            BarcodeType::Nw7Codabar | BarcodeType::Itf => len > 2,
            BarcodeType::Gs1DatabarLimited | BarcodeType::Gs1DatabarTruncated
                | BarcodeType::Gs1DatabarOmni => len == 13,
            BarcodeType::Code128 | BarcodeType::Gs1128 | BarcodeType::Gs1DatabarExpanded => len
                > 1,
            BarcodeType::Code128Auto => len > 0,
            _ => len > 0,
        }
    }
}

/// State of one barcode command while its payload arrives.
#[derive(Clone)]
pub struct BarcodeHandler {
    pub kind: BarcodeType,
    pub kind_id: u8,
    pub encoding: EncodingFunction,
    pub capacity: u8,
    pub has_capacity: bool,
    pub accept_data: bool,
    /// Parameter bytes seen before the payload: the type selector and,
    /// for the explicit-size convention, the size byte.
    pub raw_params: Vec<u8>,
}

impl BarcodeHandler {
    /// A handler that still waits for its type-selector byte.
    pub fn fresh() -> (r: BarcodeHandler)
        ensures
            r.kind == BarcodeType::Unknown,
            r.kind_id == 0,
            r.encoding == EncodingFunction::Unknown,
            r.capacity == 0,
            !r.has_capacity,
            !r.accept_data,
            r.raw_params@ == Seq::<u8>::empty(),
    {
        BarcodeHandler {
            kind: BarcodeType::Unknown,
            kind_id: 0,
            encoding: EncodingFunction::Unknown,
            capacity: 0,
            has_capacity: false,
            accept_data: false,
            raw_params: Vec::new(),
        }
    }

    /// Feeds one byte. The first byte selects symbology and payload
    /// convention. Under the NUL convention every byte joins the payload
    /// until one arrives while the payload already ends in NUL: the NUL
    /// is dropped and the byte refused. Under the explicit-size
    /// convention the first byte fixes the size and exactly that many
    /// bytes join the payload. A refused byte (result false) completes
    /// the command and stays in the stream.
    pub fn push(&mut self, data: &mut Vec<u8>, byte: u8) -> (accepted: bool)
        ensures
            !old(self).accept_data ==> {
                &&& accepted
                &&& final(data)@ == old(data)@
                &&& final(self).kind_id == byte
                &&& final(self).kind == kind_of_selector(byte)
                &&& final(self).encoding == encoding_of_selector(byte)
                &&& final(self).accept_data
                &&& final(self).raw_params@ == old(self).raw_params@ + seq![byte]
                &&& final(self).capacity == old(self).capacity
                &&& final(self).has_capacity == old(self).has_capacity
            },
            old(self).accept_data && old(self).encoding == EncodingFunction::NulTerminated ==> {
                &&& *final(self) == *old(self)
                &&& if old(data)@.len() > 0 && old(data)@.last() == 0 {
                    !accepted && final(data)@ == old(data)@.drop_last()
                } else {
                    accepted && final(data)@ == old(data)@ + seq![byte]
                }
            },
            old(self).accept_data && old(self).encoding == EncodingFunction::ExplicitSize ==> {
                &&& if !old(self).has_capacity {
                    &&& accepted
                    &&& final(data)@ == old(data)@
                    &&& *final(self) == (BarcodeHandler {
                        capacity: byte,
                        has_capacity: true,
                        raw_params: final(self).raw_params,
                        ..*old(self)
                    })
                    &&& final(self).raw_params@ == old(self).raw_params@ + seq![byte]
                } else if old(data)@.len() < old(self).capacity {
                    &&& accepted
                    &&& final(data)@ == old(data)@ + seq![byte]
                    &&& *final(self) == *old(self)
                } else {
                    &&& !accepted
                    &&& final(data)@ == old(data)@
                    &&& *final(self) == *old(self)
                }
            },
            old(self).accept_data && old(self).encoding == EncodingFunction::Unknown ==> {
                &&& !accepted
                &&& final(data)@ == old(data)@
                &&& *final(self) == *old(self)
            },
    {
        if !self.accept_data {
            self.raw_params.push(byte);
            self.kind_id = byte;
            self.kind = match byte {
                0 | 65 => BarcodeType::UpcA,
                1 | 66 => BarcodeType::UpcE,
                2 | 67 => BarcodeType::Ean13,
                3 | 68 => BarcodeType::Ean8,
                4 | 69 => BarcodeType::Code39,
                5 | 70 => BarcodeType::Itf,
                6 | 71 => BarcodeType::Nw7Codabar,
                72 => BarcodeType::Code93,
                73 => BarcodeType::Code128,
                80 => BarcodeType::Gs1128,
                81 => BarcodeType::Gs1DatabarOmni,
                82 => BarcodeType::Gs1DatabarTruncated,
                83 => BarcodeType::Gs1DatabarLimited,
                84 => BarcodeType::Gs1DatabarExpanded,
                85 => BarcodeType::Code128Auto,
                _ => BarcodeType::Unknown,
            };
            if byte <= 6 {
                self.encoding = EncodingFunction::NulTerminated;
            } else if byte >= 65 && byte <= 79 {
                self.encoding = EncodingFunction::ExplicitSize;
            } else {
                self.encoding = EncodingFunction::Unknown;
            }
            self.accept_data = true;
            return true;
        }

        match self.encoding {
            EncodingFunction::NulTerminated => {
                let ends_in_nul = data.len() > 0 && data[data.len() - 1] == 0;
                if ends_in_nul {
                    data.pop();
                    return false;
                }
                data.push(byte);
                true
            },
            EncodingFunction::ExplicitSize => {
                if !self.has_capacity {
                    self.raw_params.push(byte);
                    self.capacity = byte;
                    self.has_capacity = true;
                    true
                } else if data.len() < self.capacity as usize {
                    data.push(byte);
                    true
                } else {
                    false
                }
            },
            EncodingFunction::Unknown => false,
        }
    }

    /// Whether the accumulated payload length suits the selected
    /// symbology.
    pub fn validate_data_length(&self, length: usize) -> (r: bool)
        ensures
            r == valid_data_length(self.kind, length as int),
    {
        if length > 255 {
            return false;
        }
        match self.kind {
            BarcodeType::UpcA => length == 11 || length == 12,
            BarcodeType::UpcE => length == 6 || length == 7 || length == 8 || length == 11
                || length == 12,
            BarcodeType::Ean13 => length == 12 || length == 13,
            BarcodeType::Ean8 => length == 7 || length == 8,
            BarcodeType::Code39 => length > 0,
            BarcodeType::Nw7Codabar | BarcodeType::Itf => length > 2,
            BarcodeType::Gs1DatabarLimited | BarcodeType::Gs1DatabarTruncated
                | BarcodeType::Gs1DatabarOmni => length == 13,
            BarcodeType::Code128 | BarcodeType::Gs1128 | BarcodeType::Gs1DatabarExpanded =>
                length > 1,
            BarcodeType::Code128Auto => length > 0,
            _ => length > 0,
        }
    }

    /// The symbology's display name.
    pub fn kind_to_string(&self) -> (r: &'static str)
        ensures
            r@ == kind_name(self.kind),
    {
        match self.kind {
            BarcodeType::UpcA => "UPC A",
            BarcodeType::UpcE => "UPC E",
            BarcodeType::Ean13 => "EAN 13",
            BarcodeType::Ean8 => "EAN 8",
            BarcodeType::Code39 => "CODE 39",
            BarcodeType::Itf => "ITF",
            BarcodeType::Nw7Codabar => "Nw7Codabar",
            BarcodeType::Code93 => "Code93",
            BarcodeType::Code128 => "Code128",
            BarcodeType::Gs1128 => "GS1 128",
            BarcodeType::Gs1DatabarOmni => "GS1 Omni",
            BarcodeType::Gs1DatabarTruncated => "GS1 Truncated",
            BarcodeType::Gs1DatabarLimited => "GS1 Limited",
            BarcodeType::Gs1DatabarExpanded => "GS1 Expanded",
            BarcodeType::Code128Auto => "Code 128 Auto",
            BarcodeType::Unknown => "Unknown",
        }
    }

    /// The wire bytes this command stands for: the prefix and parameter
    /// bytes, and the payload with its NUL terminator restored when the
    /// NUL convention was in use.
    pub fn get_command_bytes(&self, prefix: &Vec<u8>, data: &Vec<u8>) -> (r: (Vec<u8>, Vec<u8>))
        ensures
            r.0@ == prefix@ + self.raw_params@,
            self.encoding == EncodingFunction::NulTerminated ==> r.1@ == data@ + seq![0u8],
            self.encoding != EncodingFunction::NulTerminated ==> r.1@ == data@,
    {
        let mut params = crate::graphics::clone_bytes(prefix);
        let mut i: usize = 0;
        while i < self.raw_params.len()
            invariant
                i <= self.raw_params@.len(),
                params@ == prefix@ + self.raw_params@.subrange(0, i as int),
            decreases self.raw_params@.len() - i,
        {
            params.push(self.raw_params[i]);
            i += 1;
            proof {
                assert(params@ =~= prefix@ + self.raw_params@.subrange(0, i as int));
            }
        }
        proof {
            assert(self.raw_params@.subrange(0, self.raw_params@.len() as int)
                =~= self.raw_params@);
        }
        let mut out = crate::graphics::clone_bytes(data);
        if self.encoding == EncodingFunction::NulTerminated {
            out.push(0);
            proof {
                assert(out@ =~= data@ + seq![0u8]);
            }
        }
        (params, out)
    }
}

pub open spec fn kind_name(kind: BarcodeType) -> Seq<char> {
    match kind {
        BarcodeType::UpcA => "UPC A"@,
        BarcodeType::UpcE => "UPC E"@,
        BarcodeType::Ean13 => "EAN 13"@,
        BarcodeType::Ean8 => "EAN 8"@,
        BarcodeType::Code39 => "CODE 39"@,
        BarcodeType::Itf => "ITF"@,
        BarcodeType::Nw7Codabar => "Nw7Codabar"@,
        BarcodeType::Code93 => "Code93"@,
        BarcodeType::Code128 => "Code128"@,
        BarcodeType::Gs1128 => "GS1 128"@,
        BarcodeType::Gs1DatabarOmni => "GS1 Omni"@,
        BarcodeType::Gs1DatabarTruncated => "GS1 Truncated"@,
        BarcodeType::Gs1DatabarLimited => "GS1 Limited"@,
        BarcodeType::Gs1DatabarExpanded => "GS1 Expanded"@,
        BarcodeType::Code128Auto => "Code 128 Auto"@,
        BarcodeType::Unknown => "Unknown"@,
    }
}

// ---------------------------------------------------------------------
// Trusted boundary: the barcoders crate's encoders
// ---------------------------------------------------------------------
/// Characters decoded from UTF-8 bytes, when the bytes are valid UTF-8.
pub uninterp spec fn utf8_chars(bytes: Seq<u8>) -> Option<Seq<char>>;

/// The UPC-A bar pattern for a payload, when the payload is acceptable.
pub uninterp spec fn upc_a_points(bytes: Seq<u8>) -> Option<Seq<u8>>;

/// The EAN-13 bar pattern for a payload, when acceptable.
pub uninterp spec fn ean13_points(bytes: Seq<u8>) -> Option<Seq<u8>>;

/// The EAN-8 bar pattern for a payload, when acceptable.
pub uninterp spec fn ean8_points(bytes: Seq<u8>) -> Option<Seq<u8>>;

/// The Code39 bar pattern for a payload, when acceptable.
pub uninterp spec fn code39_points(bytes: Seq<u8>) -> Option<Seq<u8>>;

/// The Code93 bar pattern for a payload, when acceptable.
pub uninterp spec fn code93_points(bytes: Seq<u8>) -> Option<Seq<u8>>;

/// The Code128 bar pattern for a payload already carrying the encoder's
/// character-set switch marks, when acceptable.
pub uninterp spec fn code128_points(bytes: Seq<u8>) -> Option<Seq<u8>>;

/// The Codabar bar pattern for a payload, when acceptable.
pub uninterp spec fn codabar_points(bytes: Seq<u8>) -> Option<Seq<u8>>;

/// The interleaved 2-of-5 bar pattern for a payload, when acceptable.
pub uninterp spec fn itf_points(bytes: Seq<u8>) -> Option<Seq<u8>>;

/// Relies on core::str::from_utf8 and str::to_string: the checked UTF-8
/// decoding of the payload, a function of the bytes alone.
#[verifier::external_body]
pub(crate) fn utf8_to_string(data: &Vec<u8>) -> (r: Option<String>)
    ensures
        r is Some <==> utf8_chars(data@) is Some,
        r is Some ==> r->Some_0@ == utf8_chars(data@)->Some_0,
{
    core::str::from_utf8(data).ok().map(|s| s.to_string())
}

/// Relies on barcoders' EAN13 (UPC-A alias): `new` validates the digit
/// string and `encode` produces the bar pattern, both functions of the
/// payload alone; invalid UTF-8 behaves as an empty payload.
#[verifier::external_body]
fn encode_upc_a(data: &Vec<u8>) -> (r: Result<Vec<u8>, EncodeRefusal>)
    ensures
        r is Ok <==> upc_a_points(data@) is Some,
        r is Ok ==> r->Ok_0@ == upc_a_points(data@)->Some_0,
{
    match barcoders::sym::ean13::UPCA::new(core::str::from_utf8(data).unwrap_or("")) {
        Ok(b) => Ok(b.encode()),
        Err(barcoders::error::Error::Character) => Err(EncodeRefusal::Character),
        Err(barcoders::error::Error::Length) => Err(EncodeRefusal::Length),
        Err(barcoders::error::Error::Generate) => Err(EncodeRefusal::Generate),
        Err(barcoders::error::Error::Checksum) => Err(EncodeRefusal::Checksum),
    }
}

/// Relies on barcoders' EAN13: `new` validates twelve or thirteen
/// digits (checking the check digit when given) and `encode` produces
/// the bar pattern, both functions of the payload alone.
#[verifier::external_body]
fn encode_ean13(data: &Vec<u8>) -> (r: Result<Vec<u8>, EncodeRefusal>)
    ensures
        r is Ok <==> ean13_points(data@) is Some,
        r is Ok ==> r->Ok_0@ == ean13_points(data@)->Some_0,
{
    match barcoders::sym::ean13::EAN13::new(core::str::from_utf8(data).unwrap_or("")) {
        Ok(b) => Ok(b.encode()),
        Err(barcoders::error::Error::Character) => Err(EncodeRefusal::Character),
        Err(barcoders::error::Error::Length) => Err(EncodeRefusal::Length),
        Err(barcoders::error::Error::Generate) => Err(EncodeRefusal::Generate),
        Err(barcoders::error::Error::Checksum) => Err(EncodeRefusal::Checksum),
    }
}

/// Relies on barcoders' EAN8: `new` validates seven or eight digits and
/// `encode` produces the bar pattern, both functions of the payload
/// alone.
#[verifier::external_body]
fn encode_ean8(data: &Vec<u8>) -> (r: Result<Vec<u8>, EncodeRefusal>)
    ensures
        r is Ok <==> ean8_points(data@) is Some,
        r is Ok ==> r->Ok_0@ == ean8_points(data@)->Some_0,
{
    match barcoders::sym::ean8::EAN8::new(core::str::from_utf8(data).unwrap_or("")) {
        Ok(b) => Ok(b.encode()),
        Err(barcoders::error::Error::Character) => Err(EncodeRefusal::Character),
        Err(barcoders::error::Error::Length) => Err(EncodeRefusal::Length),
        Err(barcoders::error::Error::Generate) => Err(EncodeRefusal::Generate),
        Err(barcoders::error::Error::Checksum) => Err(EncodeRefusal::Checksum),
    }
}

/// Relies on barcoders' Code39: `new` validates the character set and
/// `encode` produces the bar pattern, both functions of the payload
/// alone.
#[verifier::external_body]
fn encode_code39(data: &Vec<u8>) -> (r: Result<Vec<u8>, EncodeRefusal>)
    ensures
        r is Ok <==> code39_points(data@) is Some,
        r is Ok ==> r->Ok_0@ == code39_points(data@)->Some_0,
{
    match barcoders::sym::code39::Code39::new(core::str::from_utf8(data).unwrap_or("")) {
        Ok(b) => Ok(b.encode()),
        Err(barcoders::error::Error::Character) => Err(EncodeRefusal::Character),
        Err(barcoders::error::Error::Length) => Err(EncodeRefusal::Length),
        Err(barcoders::error::Error::Generate) => Err(EncodeRefusal::Generate),
        Err(barcoders::error::Error::Checksum) => Err(EncodeRefusal::Checksum),
    }
}

/// Relies on barcoders' Code93: `new` validates the character set and
/// `encode` produces the bar pattern, both functions of the payload
/// alone.
#[verifier::external_body]
fn encode_code93(data: &Vec<u8>) -> (r: Result<Vec<u8>, EncodeRefusal>)
    ensures
        r is Ok <==> code93_points(data@) is Some,
        r is Ok ==> r->Ok_0@ == code93_points(data@)->Some_0,
{
    match barcoders::sym::code93::Code93::new(core::str::from_utf8(data).unwrap_or("")) {
        Ok(b) => Ok(b.encode()),
        Err(barcoders::error::Error::Character) => Err(EncodeRefusal::Character),
        Err(barcoders::error::Error::Length) => Err(EncodeRefusal::Length),
        Err(barcoders::error::Error::Generate) => Err(EncodeRefusal::Generate),
        Err(barcoders::error::Error::Checksum) => Err(EncodeRefusal::Checksum),
    }
}

/// Relies on barcoders' Code128: `new` validates the payload, whose
/// leading mark must select a character set, and `encode` produces the
/// bar pattern, both functions of the payload alone. The checksum
/// accumulates unit index times position in thirty-two bits, so the
/// precondition keeps payloads short enough that it cannot overflow.
#[verifier::external_body]
fn encode_code128(data: &Vec<u8>) -> (r: Result<Vec<u8>, EncodeRefusal>)
    requires
        data@.len() <= 255,
    ensures
        r is Ok <==> code128_points(data@) is Some,
        r is Ok ==> r->Ok_0@ == code128_points(data@)->Some_0,
{
    match barcoders::sym::code128::Code128::new(core::str::from_utf8(data).unwrap_or("")) {
        Ok(b) => Ok(b.encode()),
        Err(barcoders::error::Error::Character) => Err(EncodeRefusal::Character),
        Err(barcoders::error::Error::Length) => Err(EncodeRefusal::Length),
        Err(barcoders::error::Error::Generate) => Err(EncodeRefusal::Generate),
        Err(barcoders::error::Error::Checksum) => Err(EncodeRefusal::Checksum),
    }
}

/// Relies on barcoders' Codabar: `new` validates the character set and
/// `encode` produces the bar pattern, both functions of the payload
/// alone.
#[verifier::external_body]
fn encode_codabar(data: &Vec<u8>) -> (r: Result<Vec<u8>, EncodeRefusal>)
    ensures
        r is Ok <==> codabar_points(data@) is Some,
        r is Ok ==> r->Ok_0@ == codabar_points(data@)->Some_0,
{
    match barcoders::sym::codabar::Codabar::new(core::str::from_utf8(data).unwrap_or("")) {
        Ok(b) => Ok(b.encode()),
        Err(barcoders::error::Error::Character) => Err(EncodeRefusal::Character),
        Err(barcoders::error::Error::Length) => Err(EncodeRefusal::Length),
        Err(barcoders::error::Error::Generate) => Err(EncodeRefusal::Generate),
        Err(barcoders::error::Error::Checksum) => Err(EncodeRefusal::Checksum),
    }
}

/// Whether every byte is an ASCII digit; only such payloads reach the
/// interleaved 2-of-5 checksum computation.
pub open spec fn all_ascii_digits(s: Seq<u8>) -> bool {
    forall|i: int| 0 <= i < s.len() ==> 48 <= #[trigger] s[i] <= 57
}

/// The interleaved 2-of-5 check-digit weighting: digit values at even
/// positions count three times, at odd positions once.
pub open spec fn itf_weighted_sum(s: Seq<u8>, i: int) -> int
    decreases s.len() - i,
{
    if i < 0 || i >= s.len() {
        0
    } else {
        (if i % 2 == 0 {
            3 * (s[i] - 48)
        } else {
            (s[i] - 48) as int
        }) + itf_weighted_sum(s, i + 1)
    }
}

/// When the interleaved 2-of-5 encoder is safe to call: an even digit
/// count computes no check digit, a non-digit byte is refused before
/// the checksum, and otherwise the checksum's eight-bit weighted sum
/// must not overflow.
pub open spec fn itf_checksum_safe(s: Seq<u8>) -> bool {
    s.len() % 2 == 0 || !all_ascii_digits(s) || itf_weighted_sum(s, 0) <= 255
}

/// Decides `itf_checksum_safe` for a payload.
pub fn itf_safe_check(data: &Vec<u8>) -> (r: bool)
    ensures
        r == itf_checksum_safe(data@),
{
    if data.len() % 2 == 0 {
        return true;
    }
    let mut i: usize = 0;
    while i < data.len()
        invariant
            i <= data@.len(),
            forall|j: int| 0 <= j < i ==> 48 <= #[trigger] data@[j] <= 57,
        decreases data@.len() - i,
    {
        if data[i] < 48 || data[i] > 57 {
            return true;
        }
        i += 1;
    }
    let mut sum: u32 = 0;
    let mut k: usize = data.len();
    loop
        invariant
            k <= data@.len(),
            all_ascii_digits(data@),
            sum == itf_weighted_sum(data@, k as int),
            sum <= 282,
        ensures
            sum == itf_weighted_sum(data@, k as int),
            k == 0 || sum > 255,
        decreases k,
    {
        if k == 0 {
            break;
        }
        if sum > 255 {
            break;
        }
        k -= 1;
        let d: u32 = (data[k] - 48) as u32;
        if k % 2 == 0 {
            sum = sum + 3 * d;
        } else {
            sum = sum + d;
        }
    }
    if k == 0 {
        sum <= 255
    } else {
        proof {
            lemma_itf_sum_prefix(data@, 0, k as int);
        }
        false
    }
}

/// The weighted digit sum only shrinks as its start index advances:
/// every term is nonnegative.
proof fn lemma_itf_sum_prefix(s: Seq<u8>, j: int, i: int)
    requires
        all_ascii_digits(s),
        0 <= j <= i,
    ensures
        itf_weighted_sum(s, j) >= itf_weighted_sum(s, i),
    decreases i - j,
{
    if j < i {
        lemma_itf_sum_prefix(s, j + 1, i);
        if j < s.len() {
            assert(s[j] >= 48);
        }
    }
}

/// Relies on barcoders' TF::interleaved: it validates the digit string,
/// appends a check digit to odd-length data, and `encode` produces the
/// bar pattern, all functions of the payload alone. The check-digit
/// computation accumulates in eight bits, so payloads whose weighted
/// digit sum would overflow it are kept out by the precondition.
#[verifier::external_body]
fn encode_itf(data: &Vec<u8>) -> (r: Result<Vec<u8>, EncodeRefusal>)
    requires
        itf_checksum_safe(data@),
    ensures
        r is Ok <==> itf_points(data@) is Some,
        r is Ok ==> r->Ok_0@ == itf_points(data@)->Some_0,
{
    match barcoders::sym::tf::TF::interleaved(core::str::from_utf8(data).unwrap_or("")) {
        Ok(b) => Ok(b.encode()),
        Err(barcoders::error::Error::Character) => Err(EncodeRefusal::Character),
        Err(barcoders::error::Error::Length) => Err(EncodeRefusal::Length),
        Err(barcoders::error::Error::Generate) => Err(EncodeRefusal::Generate),
        Err(barcoders::error::Error::Checksum) => Err(EncodeRefusal::Checksum),
    }
}

/// The encoder's explanation of a refusal.
pub fn refusal_text(e: EncodeRefusal) -> (r: &'static str)
    ensures
        r@ == refusal_name(e),
{
    match e {
        EncodeRefusal::Character => "Barcode data is invalid",
        EncodeRefusal::Length => "Barcode data length is invalid",
        EncodeRefusal::Generate => "Could not generate barcode data",
        EncodeRefusal::Checksum => "Invalid checksum",
    }
}

pub open spec fn refusal_name(e: EncodeRefusal) -> Seq<char> {
    match e {
        EncodeRefusal::Character => "Barcode data is invalid"@,
        EncodeRefusal::Length => "Barcode data length is invalid"@,
        EncodeRefusal::Generate => "Could not generate barcode data"@,
        EncodeRefusal::Checksum => "Invalid checksum"@,
    }
}

/// The payload's characters when it is valid UTF-8, else nothing.
pub open spec fn text_chars(bytes: Seq<u8>) -> Seq<char> {
    if utf8_chars(bytes) is Some {
        utf8_chars(bytes)->Some_0
    } else {
        Seq::empty()
    }
}

/// The payload decoded as UTF-8, or empty when it is not valid UTF-8.
pub fn text_or_empty(data: &Vec<u8>) -> (r: String)
    ensures
        r@ == text_chars(data@),
{
    match utf8_to_string(data) {
        Some(t) => t,
        None => String::new(),
    }
}

// ---------------------------------------------------------------------
// Code-set marks and payload transforms
// ---------------------------------------------------------------------
/// Whether a byte is one of the code-set letters that may follow an
/// opening brace in a Code128 payload.
pub open spec fn switch_mark(b: u8) -> bool {
    b == 65 || b == 66 || b == 67
}

/// The encoder's character-set switch mark for a code-set letter, as
/// UTF-8 bytes.
pub open spec fn switch_bytes(b: u8) -> Seq<u8> {
    if b == 65 {
        seq![0xC3u8, 0x80u8]
    } else if b == 66 {
        seq![0xC6u8, 0x81u8]
    } else {
        seq![0xC4u8, 0x86u8]
    }
}

/// A Code128 payload with each brace-letter switch replaced by the
/// encoder's own switch mark.
pub open spec fn code128_adjust(s: Seq<u8>) -> Seq<u8>
    decreases s.len(),
{
    if s.len() == 0 {
        Seq::empty()
    } else if s.len() >= 2 && s[0] == 0x7B && switch_mark(s[1]) {
        switch_bytes(s[1]) + code128_adjust(s.skip(2))
    } else {
        seq![s[0]] + code128_adjust(s.skip(1))
    }
}

/// A Code128 payload with the brace-letter switches removed: what the
/// human-readable text shows.
pub open spec fn code128_strip(s: Seq<u8>) -> Seq<u8>
    decreases s.len(),
{
    if s.len() == 0 {
        Seq::empty()
    } else if s.len() >= 2 && s[0] == 0x7B && switch_mark(s[1]) {
        code128_strip(s.skip(2))
    } else {
        seq![s[0]] + code128_strip(s.skip(1))
    }
}

/// Replacing the brace-letter switches never lengthens the payload:
/// each two-byte switch becomes a two-byte mark, everything else stays.
pub proof fn lemma_adjust_keeps_length(s: Seq<u8>)
    ensures
        code128_adjust(s).len() <= s.len(),
    decreases s.len(),
{
    if s.len() == 0 {
    } else if s.len() >= 2 && s[0] == 0x7B && switch_mark(s[1]) {
        lemma_adjust_keeps_length(s.skip(2));
    } else {
        lemma_adjust_keeps_length(s.skip(1));
    }
}

/// Replaces each brace-letter code-set switch by the encoder's mark.
pub fn code128_adjust_bytes(data: &Vec<u8>) -> (r: Vec<u8>)
    ensures
        r@ == code128_adjust(data@),
{
    let mut out: Vec<u8> = Vec::new();
    let mut i: usize = 0;
    proof {
        assert(data@.skip(0) =~= data@);
        assert(Seq::<u8>::empty() + code128_adjust(data@) =~= code128_adjust(data@));
    }
    while i < data.len()
        invariant
            i <= data@.len(),
            code128_adjust(data@) == out@ + code128_adjust(data@.skip(i as int)),
        decreases data@.len() - i,
    {
        let ghost rest = data@.skip(i as int);
        let ghost pre = out@;
        if i + 1 < data.len() && data[i] == 0x7B && (data[i + 1] == 65 || data[i + 1] == 66
            || data[i + 1] == 67) {
            if data[i + 1] == 65 {
                out.push(0xC3);
                out.push(0x80);
            } else if data[i + 1] == 66 {
                out.push(0xC6);
                out.push(0x81);
            } else {
                out.push(0xC4);
                out.push(0x86);
            }
            proof {
                assert(rest.len() >= 2 && rest[0] == 0x7B && switch_mark(rest[1]));
                assert(rest.skip(2) =~= data@.skip(i + 2));
                assert(out@ =~= pre + switch_bytes(rest[1]));
            }
            i += 2;
        } else {
            out.push(data[i]);
            proof {
                assert(!(rest.len() >= 2 && rest[0] == 0x7B && switch_mark(rest[1])));
                assert(rest.skip(1) =~= data@.skip(i + 1));
                assert(out@ =~= pre + seq![rest[0]]);
            }
            i += 1;
        }
        proof {
            assert(out@ + code128_adjust(data@.skip(i as int)) =~= pre + code128_adjust(rest));
        }
    }
    proof {
        assert(data@.skip(i as int) =~= Seq::<u8>::empty());
        assert(out@ =~= code128_adjust(data@));
    }
    out
}

/// Removes the brace-letter code-set switches for the human-readable
/// text.
pub fn code128_strip_bytes(data: &Vec<u8>) -> (r: Vec<u8>)
    ensures
        r@ == code128_strip(data@),
{
    let mut out: Vec<u8> = Vec::new();
    let mut i: usize = 0;
    proof {
        assert(data@.skip(0) =~= data@);
        assert(Seq::<u8>::empty() + code128_strip(data@) =~= code128_strip(data@));
    }
    while i < data.len()
        invariant
            i <= data@.len(),
            code128_strip(data@) == out@ + code128_strip(data@.skip(i as int)),
        decreases data@.len() - i,
    {
        let ghost rest = data@.skip(i as int);
        let ghost pre = out@;
        if i + 1 < data.len() && data[i] == 0x7B && (data[i + 1] == 65 || data[i + 1] == 66
            || data[i + 1] == 67) {
            proof {
                assert(rest.len() >= 2 && rest[0] == 0x7B && switch_mark(rest[1]));
                assert(rest.skip(2) =~= data@.skip(i + 2));
            }
            i += 2;
        } else {
            out.push(data[i]);
            proof {
                assert(!(rest.len() >= 2 && rest[0] == 0x7B && switch_mark(rest[1])));
                assert(rest.skip(1) =~= data@.skip(i + 1));
                assert(out@ =~= pre + seq![rest[0]]);
            }
            i += 1;
        }
        proof {
            assert(out@ + code128_strip(data@.skip(i as int)) =~= pre + code128_strip(rest));
        }
    }
    proof {
        assert(data@.skip(i as int) =~= Seq::<u8>::empty());
        assert(out@ =~= code128_strip(data@));
    }
    out
}

/// A payload with every asterisk removed; Code39 data may be written
/// with or without its asterisk guards.
pub open spec fn without_asterisks(s: Seq<u8>) -> Seq<u8>
    decreases s.len(),
{
    if s.len() == 0 {
        Seq::empty()
    } else if s.last() == 42 {
        without_asterisks(s.drop_last())
    } else {
        without_asterisks(s.drop_last()).push(s.last())
    }
}

/// Removes every asterisk from a payload.
pub fn strip_asterisks(data: &Vec<u8>) -> (r: Vec<u8>)
    ensures
        r@ == without_asterisks(data@),
{
    let mut out: Vec<u8> = Vec::new();
    let mut i: usize = 0;
    while i < data.len()
        invariant
            i <= data@.len(),
            out@ == without_asterisks(data@.subrange(0, i as int)),
        decreases data@.len() - i,
    {
        proof {
            assert(data@.subrange(0, i + 1).drop_last() =~= data@.subrange(0, i as int));
        }
        if data[i] != 42 {
            out.push(data[i]);
        }
        i += 1;
    }
    proof {
        assert(data@.subrange(0, data@.len() as int) =~= data@);
    }
    out
}

/// The first `n` bytes of a payload.
pub fn head_bytes(data: &Vec<u8>, n: usize) -> (r: Vec<u8>)
    requires
        n <= data@.len(),
    ensures
        r@ == data@.subrange(0, n as int),
{
    let mut out: Vec<u8> = Vec::new();
    let mut i: usize = 0;
    while i < n
        invariant
            i <= n <= data@.len(),
            out@ == data@.subrange(0, i as int),
        decreases n - i,
    {
        out.push(data[i]);
        i += 1;
        proof {
            assert(out@ =~= data@.subrange(0, i as int));
        }
    }
    out
}

/// The payload shown as text, or a placeholder when it is not UTF-8.
pub open spec fn lossy_chars(data: Seq<u8>) -> Seq<char> {
    if utf8_chars(data) is Some {
        utf8_chars(data)->Some_0
    } else {
        "[Error parsing data as utf8]"@
    }
}

/// An error message carrying the symbology name, the reason, and the
/// payload shown as text.
pub open spec fn decorated_text(kind: BarcodeType, err: Seq<char>, data: Seq<u8>) -> Seq<char> {
    kind_name(kind) + " "@ + err + " --> "@ + lossy_chars(data)
}

/// An encoder refusal surfaced as a graphics error: the message is the
/// symbology name, one of the encoder's refusal texts, and the payload
/// shown as text.
pub open spec fn error_outcome(g: GraphicsCommand, kind: BarcodeType, data: Seq<u8>) -> bool {
    &&& g is Error
    &&& exists|e: EncodeRefusal| g->Error_0@ == decorated_text(kind, refusal_name(e), data)
}

/// Everything the barcode handler promises of its graphics result, as
/// one predicate over the handler, the payload, the context and the
/// outcome.
pub open spec fn graphics_outcome(
    h: BarcodeHandler,
    data: Seq<u8>,
    c: Context,
    r: Option<GraphicsCommand>,
) -> bool {
    &&& r is Some
    &&& !valid_data_length(h.kind, data.len() as int) ==> r->Some_0 is Error
        && r->Some_0->Error_0@ == decorated_text(h.kind, "Invalid data length"@, data)
    &&& valid_data_length(h.kind, data.len() as int) ==> match h.kind {
        BarcodeType::Code128 => {
            &&& code128_points(code128_adjust(data)) is Some ==> barcode_graphic(
                r->Some_0,
                code128_points(code128_adjust(data))->Some_0,
                text_chars(code128_strip(data)),
                c,
            )
            &&& code128_points(code128_adjust(data)) is None ==> error_outcome(
                r->Some_0,
                h.kind,
                data,
            )
        },
        BarcodeType::Code39 => {
            &&& code39_points(without_asterisks(data)) is Some ==> barcode_graphic(
                r->Some_0,
                code39_points(without_asterisks(data))->Some_0,
                text_chars(data),
                c,
            )
            &&& code39_points(without_asterisks(data)) is None ==> error_outcome(
                r->Some_0,
                h.kind,
                data,
            )
        },
        BarcodeType::Ean13 => {
            &&& ean13_points(data.subrange(0, 12)) is Some ==> barcode_graphic(
                r->Some_0,
                ean13_points(data.subrange(0, 12))->Some_0,
                text_chars(data),
                c,
            )
            &&& ean13_points(data.subrange(0, 12)) is None ==> error_outcome(
                r->Some_0,
                h.kind,
                data,
            )
        },
        BarcodeType::UpcA => {
            &&& upc_a_points(data) is Some ==> barcode_graphic(
                r->Some_0,
                upc_a_points(data)->Some_0,
                text_chars(data),
                c,
            )
            &&& upc_a_points(data) is None ==> error_outcome(r->Some_0, h.kind, data)
        },
        BarcodeType::Ean8 => {
            &&& ean8_points(data) is Some ==> barcode_graphic(
                r->Some_0,
                ean8_points(data)->Some_0,
                text_chars(data),
                c,
            )
            &&& ean8_points(data) is None ==> error_outcome(r->Some_0, h.kind, data)
        },
        BarcodeType::Itf => {
            &&& itf_checksum_safe(data) && itf_points(data) is Some ==> barcode_graphic(
                r->Some_0,
                itf_points(data)->Some_0,
                text_chars(data),
                c,
            )
            &&& itf_checksum_safe(data) && itf_points(data) is None ==> error_outcome(
                r->Some_0,
                h.kind,
                data,
            )
            &&& !itf_checksum_safe(data) ==> error_outcome(r->Some_0, h.kind, data)
        },
        BarcodeType::Nw7Codabar => {
            &&& codabar_points(data) is Some ==> barcode_graphic(
                r->Some_0,
                codabar_points(data)->Some_0,
                text_chars(data),
                c,
            )
            &&& codabar_points(data) is None ==> error_outcome(r->Some_0, h.kind, data)
        },
        BarcodeType::Code93 => {
            &&& code93_points(data) is Some ==> barcode_graphic(
                r->Some_0,
                code93_points(data)->Some_0,
                text_chars(data),
                c,
            )
            &&& code93_points(data) is None ==> error_outcome(r->Some_0, h.kind, data)
        },
        _ => r->Some_0 is Error && r->Some_0->Error_0@ == decorated_text(
            h.kind,
            "Unknown barcode type"@,
            data,
        ),
    }
}

/// A graphics command that a barcode's text span and points satisfy.
pub open spec fn barcode_graphic(
    g: GraphicsCommand,
    points: Seq<u8>,
    text: Seq<char>,
    c: Context,
) -> bool {
    &&& g is Barcode
    &&& g->Barcode_0.points@ == points
    &&& g->Barcode_0.point_width == c.barcode.width
    &&& g->Barcode_0.point_height == c.barcode.height
    &&& g->Barcode_0.hri == c.barcode.human_readable
    &&& g->Barcode_0.text.text@ == text
    &&& crate::graphics::span_styled_from(g->Barcode_0.text, c, c.barcode.font)
}

impl BarcodeHandler {
    /// A graphics error decorated with the symbology name and the
    /// payload.
    pub fn decorate_error(&self, error: &str, data: &Vec<u8>) -> (r: GraphicsCommand)
        ensures
            r is Error,
            r->Error_0@ == decorated_text(self.kind, error@, data@),
    {
        let mut s = String::new();
        s.append(self.kind_to_string());
        s.append(" ");
        s.append(error);
        s.append(" --> ");
        match utf8_to_string(data) {
            Some(t) => {
                s.append(t.as_str());
            },
            None => {
                s.append("[Error parsing data as utf8]");
            },
        }
        GraphicsCommand::Error(s)
    }

    /// Encodes the accumulated payload under the selected symbology
    /// against the current context. A wrong payload length or a refusal
    /// by the encoder yields a decorated error; a symbology without an
    /// encoder here yields the unknown-type error — UPC-E is one: its
    /// selectors parse and its lengths validate, but no encoder for it
    /// is available, so it reports instead of drawing. Otherwise the
    /// bar pattern, the point sizes and the human-readable placement
    /// come back as one barcode.
    pub fn get_graphics(&self, data: &Vec<u8>, context: &Context) -> (r: Option<GraphicsCommand>)
        ensures
            graphics_outcome(*self, data@, *context, r),
    {
        if !self.validate_data_length(data.len()) {
            return Some(self.decorate_error("Invalid data length", data));
        }

        let point_width = context.barcode.width;
        let point_height = context.barcode.height;
        let hri = context.barcode.human_readable;

        match self.kind {
            BarcodeType::Code128 => {
                let adjusted = code128_adjust_bytes(data);
                let hri_data = code128_strip_bytes(data);
                proof {
                    lemma_adjust_keeps_length(data@);
                }
                match encode_code128(&adjusted) {
                    Ok(points) => Some(
                        GraphicsCommand::Barcode(
                            Barcode {
                                points,
                                text: TextSpan::new_for_barcode(
                                    text_or_empty(&hri_data),
                                    context,
                                ),
                                point_width,
                                point_height,
                                hri,
                            },
                        ),
                    ),
                    Err(e) => Some(self.decorate_error(refusal_text(e), data)),
                }
            },
            BarcodeType::Code39 => {
                let bare = strip_asterisks(data);
                match encode_code39(&bare) {
                    Ok(points) => Some(
                        GraphicsCommand::Barcode(
                            Barcode {
                                points,
                                text: TextSpan::new_for_barcode(text_or_empty(data), context),
                                point_width,
                                point_height,
                                hri,
                            },
                        ),
                    ),
                    Err(e) => Some(self.decorate_error(refusal_text(e), data)),
                }
            },
            BarcodeType::Ean13 => {
                let twelve = head_bytes(data, 12);
                match encode_ean13(&twelve) {
                    Ok(points) => Some(
                        GraphicsCommand::Barcode(
                            Barcode {
                                points,
                                text: TextSpan::new_for_barcode(text_or_empty(data), context),
                                point_width,
                                point_height,
                                hri,
                            },
                        ),
                    ),
                    Err(e) => Some(self.decorate_error(refusal_text(e), data)),
                }
            },
            BarcodeType::UpcA => {
                match encode_upc_a(data) {
                    Ok(points) => Some(
                        GraphicsCommand::Barcode(
                            Barcode {
                                points,
                                text: TextSpan::new_for_barcode(text_or_empty(data), context),
                                point_width,
                                point_height,
                                hri,
                            },
                        ),
                    ),
                    Err(e) => Some(self.decorate_error(refusal_text(e), data)),
                }
            },
            BarcodeType::Ean8 => {
                match encode_ean8(data) {
                    Ok(points) => Some(
                        GraphicsCommand::Barcode(
                            Barcode {
                                points,
                                text: TextSpan::new_for_barcode(text_or_empty(data), context),
                                point_width,
                                point_height,
                                hri,
                            },
                        ),
                    ),
                    Err(e) => Some(self.decorate_error(refusal_text(e), data)),
                }
            },
            BarcodeType::Itf => {
                if !itf_safe_check(data) {
                    return Some(
                        self.decorate_error(refusal_text(EncodeRefusal::Generate), data),
                    );
                }
                match encode_itf(data) {
                    Ok(points) => Some(
                        GraphicsCommand::Barcode(
                            Barcode {
                                points,
                                text: TextSpan::new_for_barcode(text_or_empty(data), context),
                                point_width,
                                point_height,
                                hri,
                            },
                        ),
                    ),
                    Err(e) => Some(self.decorate_error(refusal_text(e), data)),
                }
            },
            BarcodeType::Nw7Codabar => {
                match encode_codabar(data) {
                    Ok(points) => Some(
                        GraphicsCommand::Barcode(
                            Barcode {
                                points,
                                text: TextSpan::new_for_barcode(text_or_empty(data), context),
                                point_width,
                                point_height,
                                hri,
                            },
                        ),
                    ),
                    Err(e) => Some(self.decorate_error(refusal_text(e), data)),
                }
            },
            BarcodeType::Code93 => {
                match encode_code93(data) {
                    Ok(points) => Some(
                        GraphicsCommand::Barcode(
                            Barcode {
                                points,
                                text: TextSpan::new_for_barcode(text_or_empty(data), context),
                                point_width,
                                point_height,
                                hri,
                            },
                        ),
                    ),
                    Err(e) => Some(self.decorate_error(refusal_text(e), data)),
                }
            },
            _ => Some(self.decorate_error("Unknown barcode type", data)),
        }
    }
}

/// Decimal digits of `n` as characters, most significant first.
pub open spec fn dec_chars(n: int) -> Seq<char>
    recommends
        n >= 0,
    decreases n,
{
    if n < 10 {
        seq![digit_char(if n >= 0 {
            n
        } else {
            0
        })]
    } else {
        dec_chars(n / 10) + seq![digit_char(n % 10)]
    }
}

pub open spec fn digit_char(d: int) -> char {
    if d == 0 {
        '0'
    } else if d == 1 {
        '1'
    } else if d == 2 {
        '2'
    } else if d == 3 {
        '3'
    } else if d == 4 {
        '4'
    } else if d == 5 {
        '5'
    } else if d == 6 {
        '6'
    } else if d == 7 {
        '7'
    } else if d == 8 {
        '8'
    } else {
        '9'
    }
}

fn digit_str(d: u32) -> (r: &'static str)
    requires
        d < 10,
    ensures
        r@ == seq![digit_char(d as int)],
{
    let r = match d {
        0 => "0",
        1 => "1",
        2 => "2",
        3 => "3",
        4 => "4",
        5 => "5",
        6 => "6",
        7 => "7",
        8 => "8",
        _ => "9",
    };
    proof {
        reveal_strlit("0");
        reveal_strlit("1");
        reveal_strlit("2");
        reveal_strlit("3");
        reveal_strlit("4");
        reveal_strlit("5");
        reveal_strlit("6");
        reveal_strlit("7");
        reveal_strlit("8");
        reveal_strlit("9");
        assert(r@ =~= seq![digit_char(d as int)]);
    }
    r
}

/// Appends the decimal digits of `n`.
pub fn append_decimal(s: &mut String, n: u32)
    ensures
        final(s)@ == old(s)@ + dec_chars(n as int),
    decreases n,
{
    if n < 10 {
        s.append(digit_str(n));
        proof {
            assert(s@ =~= old(s)@ + dec_chars(n as int));
        }
    } else {
        append_decimal(s, n / 10);
        s.append(digit_str(n % 10));
        proof {
            assert(s@ =~= old(s)@ + dec_chars(n as int));
        }
    }
}

/// The trace line the barcode handler prints for one command.
pub open spec fn debug_text(h: BarcodeHandler, data: Seq<u8>) -> Seq<char> {
    if h.kind == BarcodeType::Unknown {
        "Unknown Barcode Format with "@ + encoding_name(h.encoding)
            + " encoding, a type id of "@ + dec_chars(h.kind_id as int) + " and "@ + dec_chars(
            data.len() as int,
        ) + " data bytes"@
    } else {
        kind_name(h.kind) + " Barcode with "@ + dec_chars(data.len() as int) + " bytes: "@ + (
        if utf8_chars(data) is Some {
            utf8_chars(data)->Some_0
        } else {
            "[No Data]"@
        })
    }
}

pub open spec fn encoding_name(e: EncodingFunction) -> Seq<char> {
    match e {
        EncodingFunction::NulTerminated => "Nul Terminated"@,
        EncodingFunction::ExplicitSize => "Explicit Size"@,
        EncodingFunction::Unknown => "Unknown"@,
    }
}

impl BarcodeHandler {
    /// A human-readable trace of the command: the symbology, the
    /// payload size and the payload as text, or the raw selector for an
    /// unrecognized format.
    pub fn debug(&self, data: &Vec<u8>) -> (r: String)
        requires
            data@.len() <= u32::MAX,
        ensures
            r@ == debug_text(*self, data@),
    {
        let mut s = String::new();
        if self.kind == BarcodeType::Unknown {
            s.append("Unknown Barcode Format with ");
            s.append(
                match self.encoding {
                    EncodingFunction::NulTerminated => "Nul Terminated",
                    EncodingFunction::ExplicitSize => "Explicit Size",
                    EncodingFunction::Unknown => "Unknown",
                },
            );
            s.append(" encoding, a type id of ");
            append_decimal(&mut s, self.kind_id as u32);
            s.append(" and ");
            append_decimal(&mut s, data.len() as u32);
            s.append(" data bytes");
        } else {
            s.append(self.kind_to_string());
            s.append(" Barcode with ");
            append_decimal(&mut s, data.len() as u32);
            s.append(" bytes: ");
            match utf8_to_string(data) {
                Some(t) => {
                    s.append(t.as_str());
                },
                None => {
                    s.append("[No Data]");
                },
            }
        }
        s
    }
}

} // verus!
