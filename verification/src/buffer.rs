//! Byte buffers of the `bytes` crate, and the codecs of `tokio-util` that cut
//! them into frames.

use vstd::prelude::*;
use bytes::{Buf, BytesMut};
use tokio_util::codec::{BytesCodec, Decoder, Encoder, LengthDelimitedCodec};

verus! {

/// `bytes::BytesMut`: a buffer of bytes that is consumed from the front.
#[verifier::external_type_specification]
#[verifier::external_body]
pub struct ExBytesMut(BytesMut);

/// `std::io::Error`, with which the codecs refuse their input.
#[verifier::external_type_specification]
#[verifier::external_body]
pub struct ExIoError(std::io::Error);

/// The bytes in a buffer that have not been consumed.
pub uninterp spec fn contents(buffer: BytesMut) -> Seq<u8>;

/// The longest message that a frame may carry.
pub const MAX_FRAME_LENGTH: usize = 8388608;

/// The big-endian number in the four bytes at the start of `input`.
pub open spec fn announced_length(input: Seq<u8>) -> int {
    input[0] * 16777216 + input[1] * 65536 + input[2] * 256 + input[3]
}

/// Whether `input` starts with the header of a frame that is longer than a
/// frame may be.
pub open spec fn announces_too_much(input: Seq<u8>) -> bool {
    input.len() >= 4 && announced_length(input) > MAX_FRAME_LENGTH
}

/// Whether `input` starts with a whole frame.
pub open spec fn holds_frame(input: Seq<u8>) -> bool {
    &&& input.len() >= 4
    &&& announced_length(input) <= MAX_FRAME_LENGTH
    &&& announced_length(input) <= input.len() - 4
}

/// The message in the frame at the start of `input`.
pub open spec fn first_message(input: Seq<u8>) -> Seq<u8> {
    input.subrange(4, 4 + announced_length(input))
}

/// What follows the frame at the start of `input`.
pub open spec fn after_first_frame(input: Seq<u8>) -> Seq<u8> {
    input.skip(4 + announced_length(input))
}

/// The four bytes that announce a message of `length` bytes, the highest
/// first.
pub open spec fn header(length: int) -> Seq<u8> {
    seq![
        (length / 16777216) as u8,
        (length / 65536 % 256) as u8,
        (length / 256 % 256) as u8,
        (length % 256) as u8,
    ]
}

/// The frame that carries `message`.
pub open spec fn frame(message: Seq<u8>) -> Seq<u8> {
    header(message.len() as int) + message
}

/// `BytesMut::from` of a slice: a buffer with a copy of the bytes.
#[verifier::external_body]
pub(crate) fn buffer_from(bytes: &[u8]) -> (buffer: BytesMut)
    ensures
        contents(buffer) == bytes@,
{
    BytesMut::from(bytes)
}

/// `Buf::has_remaining` of a `BytesMut`: whether any bytes are left.
#[verifier::external_body]
pub(crate) fn has_remaining(buffer: &BytesMut) -> (remaining: bool)
    ensures
        remaining == (contents(*buffer).len() > 0),
{
    buffer.has_remaining()
}

/// `Buf::chunk` of a `BytesMut`, which is contiguous: all the bytes that are
/// left.
#[verifier::external_body]
pub(crate) fn chunk(buffer: &BytesMut) -> (bytes: &[u8])
    ensures
        bytes@ == contents(*buffer),
{
    buffer.chunk()
}

/// `Buf::advance` of a `BytesMut`: consumes the first `count` bytes. It panics
/// if there are fewer.
#[verifier::external_body]
pub(crate) fn advance(buffer: &mut BytesMut, count: usize)
    requires
        count <= contents(*old(buffer)).len(),
    ensures
        contents(*final(buffer)) == contents(*old(buffer)).skip(count as int),
{
    buffer.advance(count)
}

/// `Decoder::decode` of a new `LengthDelimitedCodec`, on a copy of `input`: the
/// message of the first frame together with what follows that frame, nothing
/// while the frame is incomplete, and an error as soon as a header announces
/// more than a frame may carry.
#[verifier::external_body]
pub(crate) fn decode_frame(input: &[u8]) -> (res: Result<
    Option<(BytesMut, BytesMut)>,
    std::io::Error,
>)
    ensures
        match res {
            Ok(Some((message, rest))) => {
                &&& holds_frame(input@)
                &&& contents(message) == first_message(input@)
                &&& contents(rest) == after_first_frame(input@)
            },
            Ok(None) => !holds_frame(input@) && !announces_too_much(input@),
            Err(_) => announces_too_much(input@),
        },
{
    let mut rest = BytesMut::from(input);
    let message = LengthDelimitedCodec::new().decode(&mut rest)?;
    Ok(message.map(|message| (message, rest)))
}

/// `Decoder::decode_eof` of a new `LengthDelimitedCodec`, on a copy of `input`,
/// after which nothing follows: as `decode`, but an incomplete frame is an
/// error, except that nothing is reported where a header and nothing else has
/// come.
#[verifier::external_body]
pub(crate) fn decode_last_frame(input: &[u8]) -> (res: Result<
    Option<(BytesMut, BytesMut)>,
    std::io::Error,
>)
    ensures
        match res {
            Ok(Some((message, rest))) => {
                &&& holds_frame(input@)
                &&& contents(message) == first_message(input@)
                &&& contents(rest) == after_first_frame(input@)
            },
            Ok(None) => {
                &&& !holds_frame(input@)
                &&& !announces_too_much(input@)
                &&& input@.len() == 0 || input@.len() == 4
            },
            Err(_) => {
                ||| announces_too_much(input@)
                ||| !holds_frame(input@) && input@.len() != 0 && input@.len() != 4
            },
        },
{
    let mut rest = BytesMut::from(input);
    let message = LengthDelimitedCodec::new().decode_eof(&mut rest)?;
    Ok(message.map(|message| (message, rest)))
}

/// `Encoder::encode` of a new `LengthDelimitedCodec` into an empty buffer: the
/// frame that carries `message`, or an error if `message` is too long for one.
#[verifier::external_body]
pub(crate) fn encode_frame(message: &[u8]) -> (res: Result<BytesMut, std::io::Error>)
    ensures
        match res {
            Ok(encoded) => {
                &&& message@.len() <= MAX_FRAME_LENGTH
                &&& contents(encoded) == frame(message@)
            },
            Err(_) => message@.len() > MAX_FRAME_LENGTH,
        },
{
    let mut encoded = BytesMut::new();
    LengthDelimitedCodec::new().encode(message, &mut encoded)?;
    Ok(encoded)
}

/// `Decoder::decode` of a `BytesCodec`: takes everything out of the buffer, or
/// nothing if it is empty. It never fails.
#[verifier::external_body]
pub(crate) fn decode_bytes(buffer: &mut BytesMut) -> (res: Result<Option<BytesMut>, std::io::Error>)
    ensures
        match res {
            Ok(Some(bytes)) => {
                &&& contents(*old(buffer)).len() > 0
                &&& contents(bytes) == contents(*old(buffer))
                &&& contents(*final(buffer)) == Seq::<u8>::empty()
            },
            Ok(None) => {
                &&& contents(*old(buffer)).len() == 0
                &&& contents(*final(buffer)) == contents(*old(buffer))
            },
            Err(_) => false,
        },
{
    BytesCodec::new().decode(buffer)
}

} // verus!
