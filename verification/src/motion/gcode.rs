//! An earlier form of the g-code message, which also numbers its chunks:
//! a chunk number, the number of the line the chunk starts on, then the
//! text.
use crate::wire::{read_str, read_u16, read_u32, u16_value, u32_value, Endian};
use vstd::prelude::*;
use vstd::string::StringSliceAdditionalSpecFns;
use vstd::utf8::{decode_utf8, encode_utf8_decode_utf8, valid_utf8};

verus! {

/// The number of bytes before the text: the chunk number and the first line
/// number.
pub const HEADER_LEN: usize = 6;

/// A message containing part of a g-code program.
#[derive(Debug, Default, Copy, Clone, PartialEq, Eq)]
pub struct GcodeProgram<'a> {
    chunk_number: u16,
    first_line: u32,
    text: &'a str,
}

/// The chunk number, line number and text a message is decoded from, or
/// `None` when the bytes are too short or the text is not valid UTF-8.
pub open spec fn decoded(bytes: Seq<u8>, endian: Endian) -> Option<(u16, u32, Seq<char>)> {
    if bytes.len() >= HEADER_LEN && valid_utf8(bytes.skip(HEADER_LEN as int)) {
        Some(
            (
                u16_value(bytes, endian),
                u32_value(bytes.skip(2), endian),
                decode_utf8(bytes.skip(HEADER_LEN as int)),
            ),
        )
    } else {
        None
    }
}

impl<'a> View for GcodeProgram<'a> {
    type V = (u16, u32, Seq<char>);

    /// The chunk number, the line number and the text.
    closed spec fn view(&self) -> (u16, u32, Seq<char>) {
        (self.chunk_number, self.first_line, self.text@)
    }
}

impl<'a> GcodeProgram<'a> {
    /// The message ID used with `anpp::Packet::id()`.
    pub const ID: u8 = 5;

    /// The maximum amount of text a [`GcodeProgram`] message can contain.
    pub const MAX_TEXT_SIZE: usize = 249;

    /// Create a new [`GcodeProgram`] message.
    ///
    /// The `text` must be smaller than [`GcodeProgram::MAX_TEXT_SIZE`] bytes
    /// long.
    pub fn new(chunk_number: u16, first_line: u32, text: &'a str) -> (r: GcodeProgram<'a>)
        requires
            text.spec_bytes().len() < Self::MAX_TEXT_SIZE,
        ensures
            r@ == (chunk_number, first_line, text@),
            r.text_str() == text,
    {
        GcodeProgram { chunk_number, first_line, text }
    }

    /// The text, as a string slice.
    pub closed spec fn text_str(self) -> &'a str {
        self.text
    }

    /// A number used to indicate which chunk of the program this is.
    ///
    /// The `chunk_number` should be reset to `0` when sending a new program
    /// and incremented for every chunk thereafter, wrapping back to `0` on
    /// overflow.
    pub fn chunk_number(&self) -> (r: u16)
        ensures
            r == self@.0,
    {
        self.chunk_number
    }

    /// The (zero-based) line number this chunk starts on.
    ///
    /// Primarily used for error messages and progress reporting.
    pub fn first_line(&self) -> (r: u32)
        ensures
            r == self@.1,
    {
        self.first_line
    }

    /// The g-code program itself.
    pub fn text(&self) -> (r: &'a str)
        ensures
            r@ == self@.2,
            r == self.text_str(),
    {
        self.text
    }

    /// Decode a message from the whole of `from`: the chunk number in the
    /// first two bytes, the line number in the next four, then the text.
    /// Fails when there are fewer than six bytes or the text is not valid
    /// UTF-8; on success every byte has been read.
    pub fn try_from_ctx(from: &'a [u8], ctx: Endian) -> (r: Result<
        (GcodeProgram<'a>, usize),
        scroll::Error,
    >)
        ensures
            r is Ok <==> decoded(from@, ctx) is Some,
            r matches Ok((msg, n)) ==> n == from@.len() && Some(msg@) == decoded(from@, ctx)
                && msg.text_str().spec_bytes() == from@.skip(HEADER_LEN as int),
    {
        let total_length = from.len();
        let (chunk_number, bytes_read) = match read_u16(from, ctx) {
            Ok(v) => v,
            Err(e) => {
                return Err(e);
            },
        };
        let (_, from2) = from.split_at(bytes_read);
        let (first_line, bytes_read) = match read_u32(from2, ctx) {
            Ok(v) => v,
            Err(e) => {
                return Err(e);
            },
        };
        let (_, rest) = from2.split_at(bytes_read);
        proof {
            assert(from2@ =~= from@.skip(2));
            assert(rest@ =~= from@.skip(HEADER_LEN as int));
        }
        let text = match read_str(rest) {
            Ok((t, _)) => t,
            Err(e) => {
                return Err(e);
            },
        };
        proof {
            vstd::utf8::decode_utf8_encode_utf8(rest@);
            encode_utf8_decode_utf8(text@);
        }
        let msg = GcodeProgram { chunk_number, first_line, text };
        Ok((msg, total_length))
    }
}

} // verus!
