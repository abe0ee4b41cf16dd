//! Impulse responses: which WAV sample formats are read, the tap limit of
//! the firmware's convolver, and the byte form of the taps in the image.
use crate::le_bytes::{le32, push_u32_le};
use crate::text::{dec_nat, push_decimal};
use vstd::prelude::*;

verus! {

/// Most taps the firmware's FIR convolver takes.
pub const MAX_TAPS: usize = 512;

/// Mono taps of an impulse response; `T` is the sample type.
pub struct IrTaps<T> {
    pub taps: Vec<T>,
    pub sample_rate: u32,
    /// The file had more than `MAX_TAPS` samples and was cut.
    pub trimmed: bool,
}

/// The WAV sample layouts that can be read.
#[derive(PartialEq, Eq, Structural, Clone, Copy, Debug)]
pub enum SampleKind {
    Float32,
    Int16,
    Int24,
}

/// The sample layout for a WAV format, if it is one that can be read.
pub open spec fn spec_sample_kind(is_float: bool, bits_per_sample: u16) -> Option<SampleKind> {
    if is_float && bits_per_sample == 32 {
        Some(SampleKind::Float32)
    } else if !is_float && bits_per_sample == 16 {
        Some(SampleKind::Int16)
    } else if !is_float && bits_per_sample == 24 {
        Some(SampleKind::Int24)
    } else {
        None
    }
}

/// The message for a WAV format that cannot be read.
pub open spec fn unsupported_format_message(is_float: bool, bits_per_sample: u16) -> Seq<char> {
    "Unsupported WAV format: "@ + (if is_float { "Float"@ } else { "Int"@ }) + " "@ + dec_nat(
        bits_per_sample as nat,
    ) + "-bit. Use 16-bit, 24-bit int, or 32-bit float."@
}

/// Picks how to read the samples of a WAV file from its sample format
/// (float or integer) and bit depth.
pub fn sample_kind(is_float: bool, bits_per_sample: u16) -> (r: Result<SampleKind, String>)
    ensures
        r matches Ok(k) ==> spec_sample_kind(is_float, bits_per_sample) == Some(k),
        r matches Err(msg) ==> spec_sample_kind(is_float, bits_per_sample) is None
            && msg@ == unsupported_format_message(is_float, bits_per_sample),
        r is Ok <==> spec_sample_kind(is_float, bits_per_sample) is Some,
{
    if is_float && bits_per_sample == 32 {
        Ok(SampleKind::Float32)
    } else if !is_float && bits_per_sample == 16 {
        Ok(SampleKind::Int16)
    } else if !is_float && bits_per_sample == 24 {
        Ok(SampleKind::Int24)
    } else {
        let mut msg = String::from_str("Unsupported WAV format: ");
        if is_float {
            msg.append("Float");
        } else {
            msg.append("Int");
        }
        msg.append(" ");
        push_decimal(&mut msg, bits_per_sample as u64);
        msg.append("-bit. Use 16-bit, 24-bit int, or 32-bit float.");
        Err(msg)
    }
}

/// Keeps at most `MAX_TAPS` taps, noting whether any were cut.
pub fn trim_to_max_taps<T>(mono: Vec<T>, sample_rate: u32) -> (r: IrTaps<T>)
    ensures
        r.trimmed == (mono@.len() > MAX_TAPS),
        r.taps@ == if mono@.len() > MAX_TAPS { mono@.take(MAX_TAPS as int) } else { mono@ },
        r.sample_rate == sample_rate,
{
    let mut mono = mono;
    let trimmed = mono.len() > MAX_TAPS;
    if trimmed {
        mono.truncate(MAX_TAPS);
    }
    IrTaps { taps: mono, sample_rate, trimmed }
}

/// Little-endian bytes of each word in turn.
pub open spec fn words_le(ws: Seq<u32>) -> Seq<u8>
    decreases ws.len(),
{
    if ws.len() == 0 {
        Seq::empty()
    } else {
        words_le(ws.drop_last()) + le32(ws.last())
    }
}

/// Four bytes per word, word `i` at bytes `4 * i .. 4 * i + 4`.
pub proof fn law_words_le(ws: Seq<u32>, i: int)
    requires
        0 <= i < ws.len(),
    ensures
        words_le(ws).len() == 4 * ws.len(),
        words_le(ws).subrange(4 * i, 4 * i + 4) == le32(ws[i]),
    decreases ws.len(),
{
    lemma_words_le_len(ws);
    if i == ws.len() - 1 {
        assert(words_le(ws).subrange(4 * i, 4 * i + 4) =~= le32(ws[i]));
    } else {
        law_words_le(ws.drop_last(), i);
        assert(words_le(ws).subrange(4 * i, 4 * i + 4) =~= words_le(ws.drop_last()).subrange(4 * i, 4 * i + 4));
    }
}

proof fn lemma_words_le_len(ws: Seq<u32>)
    ensures
        words_le(ws).len() == 4 * ws.len(),
    decreases ws.len(),
{
    if ws.len() > 0 {
        lemma_words_le_len(ws.drop_last());
    }
}

/// Serializes taps, given as the bit patterns of their `f32` values, to the
/// raw little-endian bytes of the image's IR blob.
pub fn taps_to_bytes(taps: &[u32]) -> (r: Vec<u8>)
    ensures
        r@ == words_le(taps@),
        r@.len() == 4 * taps@.len(),
{
    let cap: usize = if taps.len() <= usize::MAX / 4 { taps.len() * 4 } else { 0 };
    let mut buf: Vec<u8> = Vec::with_capacity(cap);
    let mut i: usize = 0;
    while i < taps.len()
        invariant
            i <= taps@.len(),
            buf@ == words_le(taps@.take(i as int)),
        decreases taps@.len() - i,
    {
        push_u32_le(&mut buf, taps[i]);
        i += 1;
        assert(taps@.take(i as int).drop_last() =~= taps@.take(i - 1));
    }
    assert(taps@.take(taps@.len() as int) =~= taps@);
    proof {
        lemma_words_le_len(taps@);
    }
    buf
}

/// The WAV formats that can be read, and as what: 32-bit float as
/// `Float32`, 16-bit integer as `Int16`, 24-bit integer as `Int24`; every
/// other format, 8- and 32-bit integers among them, is refused.
pub proof fn law_readable_formats(is_float: bool, bits_per_sample: u16)
    ensures
        spec_sample_kind(is_float, bits_per_sample) == Some(SampleKind::Float32) <==> (is_float
            && bits_per_sample == 32),
        spec_sample_kind(is_float, bits_per_sample) == Some(SampleKind::Int16) <==> (!is_float
            && bits_per_sample == 16),
        spec_sample_kind(is_float, bits_per_sample) == Some(SampleKind::Int24) <==> (!is_float
            && bits_per_sample == 24),
        spec_sample_kind(is_float, bits_per_sample) is None <==> !((is_float && bits_per_sample == 32) || (
        !is_float && (bits_per_sample == 16 || bits_per_sample == 24))),
{
}

} // verus!
