//! HEADERS frames (RFC 9113 6.2).
use vstd::prelude::*;

use crate::hpack::{
    check_hpack_block, decode_block, decoded_by, decoder_after, decoder_state, encode_headers, encoded_by, encoder_table,
    encoder_table_limit, hpack_encoding, hpack_encoding_table, hpack_block_safe, hpack_bound,
    DecoderState,
};
use crate::http2::response::ResponseSerialize;
use crate::request::{method_of, HttpRequest, RequestError, RequestType};
use crate::wire::{ascii, copy_pairs, copy_range, find_named, first_named, pairs_view};

use super::frame::FrameError;
use super::ping::flag_bit_0;

verus! {

/// Whether a byte is an ASCII upper-case letter.
pub open spec fn is_upper(c: u8) -> bool {
    65 <= c <= 90
}

/// Whether a byte is ASCII punctuation.
pub open spec fn is_punct(c: u8) -> bool {
    (33 <= c <= 47) || (58 <= c <= 64) || (91 <= c <= 96) || (123 <= c <= 126)
}

/// Whether every byte of a header name is an upper-case letter or punctuation
/// (the empty name included): such names are refused.
pub open spec fn shouting_name(name: Seq<u8>) -> bool {
    forall|i: int| 0 <= i < name.len() ==> is_upper(#[trigger] name[i]) || is_punct(name[i])
}

/// Whether some header of the list has a refused name.
pub open spec fn has_shouting_name(list: Seq<(Seq<u8>, Seq<u8>)>) -> bool {
    exists|i: int| 0 <= i < list.len() && shouting_name(#[trigger] list[i].0)
}

fn is_shouting_name(name: &[u8]) -> (r: bool)
    ensures
        r == shouting_name(name@),
{
    let mut i: usize = 0;
    while i < name.len()
        invariant
            i <= name@.len(),
            forall|j: int| 0 <= j < i ==> is_upper(#[trigger] name@[j]) || is_punct(name@[j]),
        decreases name@.len() - i,
    {
        let c = name[i];
        let upper = 65 <= c && c <= 90;
        let punct = (33 <= c && c <= 47) || (58 <= c && c <= 64) || (91 <= c && c <= 96) || (123 <= c
            && c <= 126);
        if !upper && !punct {
            return false;
        }
        i = i + 1;
    }
    true
}

/// Whether a flags byte has END_HEADERS (0x04) set.
pub open spec fn end_headers_flag(flags: u8) -> bool {
    flags & 0x04u8 > 0
}

/// Whether a flags byte has PADDED (0x08) set.
pub open spec fn padded_flag(flags: u8) -> bool {
    flags & 0x08u8 > 0
}

/// Whether a flags byte has PRIORITY (0x20) set.
pub open spec fn priority_flag(flags: u8) -> bool {
    flags & 0x20u8 > 0
}

/// Where the header block of a HEADERS payload starts: past the 5 priority
/// bytes when PRIORITY is set.
pub open spec fn block_offset(flags: u8) -> int {
    if priority_flag(flags) {
        5
    } else {
        0
    }
}

/// The header block of a complete HEADERS payload of announced `length`.
pub open spec fn header_block_of(value: Seq<u8>, flags: u8, length: nat) -> Seq<u8> {
    value.subrange(block_offset(flags), length as int)
}

/// What a header block gives, read with the flags of its HEADERS frame by a
/// decoder in state `s`: the header list and whether it ends the stream; none
/// when the block holds a cut-short table size update, the decoder refuses
/// it, or a name is refused (see `shouting_name`).
pub open spec fn decoded_headers(s: DecoderState, block: Seq<u8>, flags: u8) -> Option<(Seq<(Seq<u8>, Seq<u8>)>, bool)> {
    if !hpack_block_safe(block) {
        None
    } else {
        match decoded_by(s, block) {
            Some(list) => if has_shouting_name(list) {
                None
            } else {
                Some((list, flag_bit_0(flags)))
            },
            None => None,
        }
    }
}

/// The low 32 bits of a length, as `as u32` keeps them.
pub open spec fn low_u32(len: nat) -> u32 {
    len as u32
}

/// A HEADERS frame: the header list, and whether it ends the stream.
#[derive(Debug)]
pub struct Headers {
    headers: Vec<(Vec<u8>, Vec<u8>)>,
    end_stream: bool,
}

impl Headers {
    /// The header list, by value.
    pub closed spec fn spec_headers(&self) -> Seq<(Seq<u8>, Seq<u8>)> {
        pairs_view(self.headers@)
    }

    /// Whether the frame ends the stream.
    pub closed spec fn spec_end_stream(&self) -> bool {
        self.end_stream
    }

    /// A HEADERS frame carrying a copy of `headers`.
    pub fn new(headers: &[(Vec<u8>, Vec<u8>)], end_stream: bool) -> (r: Self)
        ensures
            r.spec_headers() == pairs_view(headers@),
            r.spec_end_stream() == end_stream,
    {
        Self { headers: copy_pairs(headers), end_stream }
    }

    /// The header block fragment of a frame whose headers continue in
    /// CONTINUATION frames: the first `length` bytes. `BadFrameSize` when
    /// fewer are there. (Padding is not handled: with PADDED set the frame is
    /// left out by `requires`.)
    pub fn extract_headers_data(value: &[u8], flags: u8, length: usize) -> (r: Result<Vec<u8>, FrameError>)
        requires
            length > value@.len() || !padded_flag(flags),
        ensures
            length > value@.len() ==> r == Err::<Vec<u8>, FrameError>(FrameError::BadFrameSize(value@.len() as usize)),
            length <= value@.len() ==> (r matches Ok(b) && b@ == value@.subrange(0, length as int)),
    {
        if length > value.len() {
            return Err(FrameError::BadFrameSize(value.len()));
        }
        Ok(copy_range(value, 0, length))
    }

    /// The HEADERS frame of a decoded header list: `UppercaseHeader` when a
    /// name is made of upper-case letters and punctuation only (or is empty),
    /// else the list as it is, ending the stream when `flags` has END_STREAM.
    pub fn headers_from_decoded(decoded: Vec<(Vec<u8>, Vec<u8>)>, flags: u8) -> (r: Result<Self, FrameError>)
        ensures
            has_shouting_name(pairs_view(decoded@)) ==> r == Err::<Headers, FrameError>(FrameError::UppercaseHeader),
            !has_shouting_name(pairs_view(decoded@)) ==> (r matches Ok(h) && h.spec_headers()
                == pairs_view(decoded@) && h.spec_end_stream() == flag_bit_0(flags)),
    {
        let mut i: usize = 0;
        while i < decoded.len()
            invariant
                i <= decoded@.len(),
                forall|j: int| 0 <= j < i ==> !shouting_name(#[trigger] pairs_view(decoded@)[j].0),
            decreases decoded@.len() - i,
        {
            if is_shouting_name(decoded[i].0.as_slice()) {
                assert(shouting_name(pairs_view(decoded@)[i as int].0));
                return Err(FrameError::UppercaseHeader);
            }
            i = i + 1;
        }
        Ok(Self { headers: decoded, end_stream: flags & 0x01 > 0 })
    }

    /// Decodes a HEADERS payload of announced `length` with `decoder`.
    /// `BadFrameSize` when fewer than `length` bytes are there; otherwise the
    /// header block (`header_block_of`: past the 5 priority bytes when
    /// PRIORITY is set, up to `length`) is checked and decoded: a cut-short
    /// table size update gives `HpackSizeUpdateCutShort` before the decoder
    /// sees it, a decoder error gives `HpackDecoderError`, and the decoded list
    /// goes through `headers_from_decoded`. The decoder is left in the state
    /// after reading the block (`decoder_after`) when it was handed one, and
    /// as it was otherwise. (PADDED frames, and PRIORITY
    /// frames shorter than 5 bytes, are left out by `requires`.)
    pub fn from_bytes(
        value: &[u8],
        decoder: &mut fluke_hpack::Decoder,
        flags: u8,
        length: usize,
    ) -> (r: Result<Self, FrameError>)
        requires
            length > value@.len() || (!padded_flag(flags) && (!priority_flag(flags) || length >= 5)),
        ensures
            length > value@.len() ==> r == Err::<Headers, FrameError>(FrameError::BadFrameSize(value@.len() as usize)),
            length <= value@.len() ==> {
                let block = header_block_of(value@, flags, length as nat);
                &&& !hpack_block_safe(block) ==> r == Err::<Headers, FrameError>(FrameError::HpackSizeUpdateCutShort)
                &&& hpack_block_safe(block) ==> match decoded_by(decoder_state(*old(decoder)), block) {
                    None => r matches Err(FrameError::HpackDecoderError(_)),
                    Some(list) => if has_shouting_name(list) {
                        r == Err::<Headers, FrameError>(FrameError::UppercaseHeader)
                    } else {
                        r matches Ok(h) && h.spec_headers() == list && h.spec_end_stream() == flag_bit_0(flags)
                    },
                }
                &&& match decoded_headers(decoder_state(*old(decoder)), block, flags) {
                    Some(hv) => r matches Ok(h) && (h.spec_headers(), h.spec_end_stream()) == hv,
                    None => r matches Err(e) && !(e is BadFrameSize),
                }
            },
            decoder_state(*final(decoder)) == if length <= value@.len() && hpack_block_safe(
                header_block_of(value@, flags, length as nat),
            ) {
                decoder_after(decoder_state(*old(decoder)), header_block_of(value@, flags, length as nat))
            } else {
                decoder_state(*old(decoder))
            },
    {
        if length > value.len() {
            return Err(FrameError::BadFrameSize(value.len()));
        }
        let payload_offset: usize = if flags & 0x20 > 0 {
            5
        } else {
            0
        };
        let block = copy_range(value, payload_offset, length);
        assert(block@ == header_block_of(value@, flags, length as nat));
        if !check_hpack_block(block.as_slice()) {
            return Err(FrameError::HpackSizeUpdateCutShort);
        }
        match decode_block(decoder, block.as_slice()) {
            Ok(hds) => Self::headers_from_decoded(hds, flags),
            Err(err) => Err(FrameError::HpackDecoderError(err)),
        }
    }

    /// The header block of this frame: the header list as `encoder` writes it
    /// from the table it has before the call (`encoded_by`); the encoder is
    /// left with the table after writing it.
    pub fn encode_block(&self, encoder: &mut fluke_hpack::Encoder) -> (r: Vec<u8>)
        ensures
            r@ == encoded_by(*old(encoder), self.spec_headers()),
            self.is_payload(r@),
            encoder_table(*final(encoder)) == hpack_encoding_table(
                encoder_table(*old(encoder)),
                encoder_table_limit(*old(encoder)),
                self.spec_headers(),
            ),
            encoder_table_limit(*final(encoder)) == encoder_table_limit(*old(encoder)),
    {
        encode_headers(encoder, &self.headers)
    }

    /// Whether the stream ends with this frame.
    pub fn should_stream_close(&self) -> (r: bool)
        ensures
            r == self.spec_end_stream(),
    {
        self.end_stream
    }

    /// Whether `flags` has END_HEADERS set.
    pub fn is_end_header(flags: u8) -> (r: bool)
        ensures
            r == end_headers_flag(flags),
    {
        flags & 0x04 > 0
    }
}

/// The header list's `:method`, read as a method.
pub open spec fn headers_request_type(list: Seq<(Seq<u8>, Seq<u8>)>) -> Option<RequestType> {
    match first_named(list, ascii(":method"@)) {
        Some(v) => method_of(v),
        None => None,
    }
}

impl HttpRequest for Headers {
    open spec fn request_type(&self) -> Option<RequestType> {
        headers_request_type(self.spec_headers())
    }

    open spec fn request_uri(&self) -> Option<Seq<u8>> {
        first_named(self.spec_headers(), ascii(":path"@))
    }

    fn get_type(&self) -> (r: Result<RequestType, RequestError<'_>>) {
        proof {
            reveal_strlit(":method");
        }
        let name = crate::wire::ascii_vec(":method");
        match find_named(&self.headers, name.as_slice()) {
            Some(i) => RequestType::try_from(self.headers[i].1.as_slice()),
            None => Err(RequestError::MalformedRequest),
        }
    }

    fn get_uri(&self) -> (r: Result<&[u8], RequestError<'_>>) {
        proof {
            reveal_strlit(":path");
        }
        let name = crate::wire::ascii_vec(":path");
        match find_named(&self.headers, name.as_slice()) {
            Some(i) => Ok(self.headers[i].1.as_slice()),
            None => Err(RequestError::MalformedRequest),
        }
    }
}

impl ResponseSerialize for Headers {
    /// The HPACK encoding of the header list: which representations it holds
    /// depends on the encoder's table, but it has at least one byte per
    /// header and at most `hpack_bound` of the list.
    open spec fn is_payload(&self, payload: Seq<u8>) -> bool {
        self.spec_headers().len() <= payload.len() <= hpack_bound(self.spec_headers())
    }

    /// The length of such an encoding, in 32 bits.
    open spec fn is_frame_length(&self, n: u32) -> bool {
        exists|len: nat|
            self.spec_headers().len() <= len <= hpack_bound(self.spec_headers()) && #[trigger] low_u32(len) == n
    }

    open spec fn needs_encoder(&self) -> bool {
        true
    }

    /// END_HEADERS, and END_STREAM when the stream ends.
    open spec fn spec_flags(&self) -> u8 {
        if self.spec_end_stream() {
            0x05
        } else {
            0x04
        }
    }

    /// With an encoder: the header list as the encoder writes it from the
    /// table it has before the call.
    fn serialize_response(&self, encoder: Option<&mut fluke_hpack::Encoder>) -> (r: Vec<u8>)
        ensures
            encoder matches Some(e) ==> r@ == hpack_encoding(encoder_table(*e), encoder_table_limit(*e), self.spec_headers()),
    {
        match encoder {
            Some(e) => encode_headers(e, &self.headers),
            None => Vec::new(),
        }
    }

    /// With an encoder: the length, in 32 bits, of the header list as the
    /// encoder writes it from the table it has before the call.
    fn compute_frame_length(&self, encoder: Option<&mut fluke_hpack::Encoder>) -> (r: u32)
        ensures
            encoder matches Some(e) ==> r == low_u32(
                hpack_encoding(encoder_table(*e), encoder_table_limit(*e), self.spec_headers()).len(),
            ),
    {
        match encoder {
            Some(e) => {
                let encoded = encode_headers(e, &self.headers);
                let n = encoded.len() as u32;
                assert(self.spec_headers().len() <= encoded@.len() <= hpack_bound(self.spec_headers())
                    && low_u32(encoded@.len()) == n);
                n
            },
            None => 0,
        }
    }

    fn get_flags(&self) -> (r: u8) {
        if self.end_stream {
            0x05
        } else {
            0x04
        }
    }
}

} // verus!
