//! The message that carries a chunk of a g-code program: the number of the
//! line it starts on, followed by the text itself.
use crate::packet::MAX_PACKET_SIZE;
use crate::wire::{
    lemma_u32_round_trip, read_str, read_u32, u32_bytes, u32_value, write_bytes, write_u32,
    Endian,
};
use vstd::prelude::*;
use vstd::string::StringSliceAdditionalSpecFns;
use vstd::utf8::{decode_utf8, encode_utf8, encode_utf8_decode_utf8, encode_utf8_valid_utf8, valid_utf8};

verus! {

/// The number of bytes in the header of the message (the first line
/// number).
pub const FIRST_LINE_LEN: usize = 4;

/// A message containing part of a g-code program.
#[derive(Debug, Default, Copy, Clone, PartialEq, Eq)]
pub struct GcodeProgram<'a> {
    first_line: u32,
    text: &'a str,
}

/// The bytes a message with this line number and text is encoded as.
pub open spec fn encoded(first_line: u32, text: Seq<char>, endian: Endian) -> Seq<u8> {
    u32_bytes(first_line, endian) + encode_utf8(text)
}

/// The line number and text a message is decoded from, or `None` when the
/// bytes are too short or the text is not valid UTF-8.
pub open spec fn decoded(bytes: Seq<u8>, endian: Endian) -> Option<(u32, Seq<char>)> {
    if bytes.len() >= FIRST_LINE_LEN && valid_utf8(bytes.skip(FIRST_LINE_LEN as int)) {
        Some((u32_value(bytes, endian), decode_utf8(bytes.skip(FIRST_LINE_LEN as int))))
    } else {
        None
    }
}

/// Decoding the encoding of a message gives back its line number and text.
pub proof fn lemma_round_trip(first_line: u32, text: Seq<char>, endian: Endian)
    ensures
        decoded(encoded(first_line, text, endian), endian) == Some((first_line, text)),
{
    let bytes = encoded(first_line, text, endian);
    lemma_u32_round_trip(first_line, endian);
    encode_utf8_valid_utf8(text);
    encode_utf8_decode_utf8(text);
    assert(bytes.skip(FIRST_LINE_LEN as int) =~= encode_utf8(text));
    assert(u32_value(bytes, endian) == u32_value(u32_bytes(first_line, endian), endian));
}

impl<'a> View for GcodeProgram<'a> {
    type V = (u32, Seq<char>);

    /// The line number and the text.
    closed spec fn view(&self) -> (u32, Seq<char>) {
        (self.first_line, self.text@)
    }
}

impl<'a> GcodeProgram<'a> {
    /// The message ID used with `anpp::Packet::id()`.
    pub const ID: u8 = 5;

    /// The maximum amount of text a [`GcodeProgram`] message can contain.
    pub const MAX_TEXT_SIZE: usize = 251;

    /// Create a new [`GcodeProgram`] message.
    ///
    /// The `text` must be smaller than [`GcodeProgram::MAX_TEXT_SIZE`] bytes
    /// long.
    pub fn new(first_line: u32, text: &'a str) -> (r: GcodeProgram<'a>)
        requires
            text.spec_bytes().len() < Self::MAX_TEXT_SIZE,
        ensures
            r@ == (first_line, text@),
            r.text_str() == text,
    {
        GcodeProgram { first_line, text }
    }

    /// The text, as a string slice.
    pub closed spec fn text_str(self) -> &'a str {
        self.text
    }

    /// The (zero-based) line number this chunk starts on.
    ///
    /// Primarily used for error messages and progress reporting.
    pub fn first_line(&self) -> (r: u32)
        ensures
            r == self@.0,
    {
        self.first_line
    }

    /// The g-code program itself.
    pub fn text(&self) -> (r: &'a str)
        ensures
            r@ == self@.1,
            r == self.text_str(),
    {
        self.text
    }

    /// Decode a message from the whole of `from`: the line number in the
    /// first four bytes, then the text. Fails when there are fewer than four
    /// bytes or the text is not valid UTF-8; on success every byte has been
    /// read.
    pub fn try_from_ctx(from: &'a [u8], ctx: Endian) -> (r: Result<
        (GcodeProgram<'a>, usize),
        scroll::Error,
    >)
        ensures
            r is Ok <==> decoded(from@, ctx) is Some,
            r matches Ok((msg, n)) ==> n == from@.len() && Some(msg@) == decoded(from@, ctx)
                && msg.text_str().spec_bytes() == from@.skip(FIRST_LINE_LEN as int),
    {
        let total_length = from.len();
        let (first_line, bytes_read) = match read_u32(from, ctx) {
            Ok(v) => v,
            Err(e) => {
                return Err(e);
            },
        };
        let (_, rest) = from.split_at(bytes_read);
        let text = match decode_rest_as_str(rest) {
            Ok(t) => t,
            Err(e) => {
                return Err(e);
            },
        };
        proof {
            vstd::utf8::decode_utf8_encode_utf8(rest@);
            encode_utf8_decode_utf8(text@);
            assert(rest@ =~= from@.skip(FIRST_LINE_LEN as int));
        }
        let msg = GcodeProgram { first_line, text };
        Ok((msg, total_length))
    }

    /// Encode the message into the start of `buffer`: the line number, then
    /// the text's bytes. Fails when the buffer is too short; when it has room
    /// for the line number but not the text, the line number has already been
    /// written.
    pub fn try_into_ctx(self, buffer: &mut [u8], ctx: Endian) -> (r: Result<usize, scroll::Error>)
        ensures
            r is Ok <==> old(buffer)@.len() >= FIRST_LINE_LEN + self.text_str().spec_bytes().len(),
            r matches Ok(n) ==> {
                &&& n == FIRST_LINE_LEN + self.text_str().spec_bytes().len()
                &&& final(buffer)@ == encoded(self@.0, self@.1, ctx) + old(buffer)@.skip(n as int)
            },
            r is Err && old(buffer)@.len() < FIRST_LINE_LEN ==> final(buffer)@ == old(buffer)@,
            r is Err && old(buffer)@.len() >= FIRST_LINE_LEN ==> final(buffer)@ == u32_bytes(
                self@.0,
                ctx,
            ) + old(buffer)@.skip(FIRST_LINE_LEN as int),
    {
        let GcodeProgram { first_line, text } = self;
        let buffer_len = buffer.len();
        let header_written = match write_u32(first_line, buffer, ctx) {
            Ok(n) => n,
            Err(e) => {
                return Err(e);
            },
        };
        let ghost after_header = buffer@;
        let (head, rest) = buffer.split_at_mut(header_written);
        let result = write_bytes(text.as_bytes(), rest);
        proof {
            assert(head@ =~= u32_bytes(first_line, ctx));
            assert(after_header.subrange(header_written as int, after_header.len() as int)
                =~= old(buffer)@.skip(FIRST_LINE_LEN as int));
        }
        match result {
            Ok(text_written) => {
                proof {
                    assert(header_written + text_written <= buffer_len);
                    assert(old(buffer)@.skip(FIRST_LINE_LEN as int).skip(text_written as int)
                        =~= old(buffer)@.skip(FIRST_LINE_LEN + text_written));
                }
                Ok(header_written + text_written)
            },
            Err(e) => Err(e),
        }
    }
}

/// Read all of `from` as UTF-8 text.
fn decode_rest_as_str(from: &[u8]) -> (r: Result<&str, scroll::Error>)
    ensures
        r is Ok <==> valid_utf8(from@),
        r matches Ok(text) ==> text.spec_bytes() == from@,
{
    match read_str(from) {
        Ok((text, _)) => Ok(text),
        Err(e) => Err(e),
    }
}

} // verus!
