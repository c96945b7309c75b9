//! The session's codec: how it is made, and the snapshot that turns what it
//! has accumulated into bytes and readies it for the next recording.
use adhoc_audio::{AdhocCodec, StreamInfo};
use vstd::prelude::*;

verus! {

/// Sample rate of every recording, in Hz.
pub const SAMPLE_RATE: u32 = 44100;

/// Channels of every recording.
pub const CHANNELS: u32 = 1;

/// Compression level of the session's codec.
pub const COMPRESSION_LEVEL: u32 = 4;

#[verifier::external_type_specification]
#[verifier::external_body]
pub struct ExAdhocCodec(AdhocCodec);

#[verifier::external_type_specification]
#[verifier::external_body]
pub struct ExStreamInfo(StreamInfo);

/// The compression level a codec was given (0 to 10).
pub uninterp spec fn compression_of(c: AdhocCodec) -> u32;

/// The sample rate and channel count a codec was given, if any.
pub uninterp spec fn info_of(c: AdhocCodec) -> Option<(u32, u32)>;

/// The sample rate and channel count of a stream description.
pub uninterp spec fn info_fields(i: StreamInfo) -> (u32, u32);

/// The bytes that saving a codec writes.
pub uninterp spec fn saved_of(c: AdhocCodec) -> Seq<u8>;

/// A codec after it has been reset for new samples.
pub uninterp spec fn reset_of(c: AdhocCodec) -> AdhocCodec;

/// Relies on adhoc_audio's `AdhocCodec::new`: compression level 0 and no
/// stream info yet.
pub assume_specification[ AdhocCodec::new ]() -> (r: AdhocCodec)
    ensures
        compression_of(r) == 0,
        info_of(r) == None::<(u32, u32)>,
;

/// Relies on adhoc_audio's `AdhocCodec::with_compression_level`, which clamps
/// the level to 0..=10, stores it and leaves the stream info alone.
pub assume_specification[ AdhocCodec::with_compression_level ](
    codec: AdhocCodec,
    level: u32,
) -> (r: AdhocCodec)
    ensures
        compression_of(r) == if level <= 10 { level } else { 10 },
        info_of(r) == info_of(codec),
;

/// Relies on adhoc_audio's `StreamInfo::new`: a sample rate and a channel count.
pub assume_specification[ StreamInfo::new ](sample_rate: u32, channels: u32) -> (r: StreamInfo)
    ensures
        info_fields(r) == (sample_rate, channels),
;

/// Relies on adhoc_audio's `AdhocCodec::set_info`, which stores the info,
/// sizes the per-channel state and leaves the compression level alone.
pub assume_specification[ AdhocCodec::set_info ](codec: &mut AdhocCodec, info: StreamInfo)
    ensures
        info_of(*final(codec)) == Some(info_fields(info)),
        compression_of(*final(codec)) == compression_of(*old(codec)),
;

/// Relies on adhoc_audio's `AdhocCodec::init`: it rewinds the stream and
/// resets frame headers and channel state, keeping the stream info and the
/// compression level.
pub assume_specification[ AdhocCodec::init ](codec: &mut AdhocCodec)
    ensures
        *final(codec) == reset_of(*old(codec)),
        info_of(*final(codec)) == info_of(*old(codec)),
        compression_of(*final(codec)) == compression_of(*old(codec)),
;

/// Relies on adhoc_audio's `AdhocCodec::save_to`, which leaves the codec as it
/// is and writes it with bincode, the compression level as four bytes first;
/// writing into memory does not fail.
#[verifier::external_body]
fn save_codec(codec: &AdhocCodec) -> (r: Option<Vec<u8>>)
    ensures
        r is Some,
        r is Some ==> r->0@ == saved_of(*codec),
        r is Some ==> r->0@.len() >= 4,
{
    let mut bytes = Vec::new();
    codec.save_to(&mut bytes).map(|_| bytes)
}

/// A codec for the session: compression level 4, 44100 Hz, one channel.
pub fn session_codec() -> (r: AdhocCodec)
    ensures
        compression_of(r) == COMPRESSION_LEVEL,
        info_of(r) == Some((SAMPLE_RATE, CHANNELS)),
{
    let mut codec = AdhocCodec::new().with_compression_level(COMPRESSION_LEVEL);
    codec.set_info(StreamInfo::new(SAMPLE_RATE, CHANNELS));
    codec
}

/// Writes out what the codec has accumulated (its saved bytes) and then resets
/// the codec so that it takes new samples at once, with its stream info and compression level kept.
/// Should saving ever fail, the codec is left as it was so that the snapshot
/// can be tried again.
pub fn snapshot(codec: &mut AdhocCodec) -> (r: Option<Vec<u8>>)
    ensures
        r is Some,
        r is Some ==> r->0@ == saved_of(*old(codec)),
        r is Some ==> *final(codec) == reset_of(*old(codec)),
        r is Some ==> r->0@.len() > 0,
        r is None ==> *final(codec) == *old(codec),
        info_of(*final(codec)) == info_of(*old(codec)),
        compression_of(*final(codec)) == compression_of(*old(codec)),
{
    match save_codec(codec) {
        Some(bytes) => {
            codec.init();
            Some(bytes)
        },
        None => None,
    }
}

} // verus!
