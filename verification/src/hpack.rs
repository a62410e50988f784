//! The HPACK header compression of `fluke_hpack`, as the frame layer calls it.
use vstd::prelude::*;

verus! {

/// `fluke_hpack::Encoder`: an HPACK encoder and its dynamic table.
#[verifier::external_type_specification]
#[verifier::external_body]
pub struct ExEncoder<'a>(fluke_hpack::Encoder<'a>);

/// `fluke_hpack::Decoder`: an HPACK decoder and its dynamic table.
#[verifier::external_type_specification]
#[verifier::external_body]
pub struct ExDecoder<'a>(fluke_hpack::Decoder<'a>);

/// `fluke_hpack::decoder::DecoderError`: why a header block failed to decode.
#[verifier::external_type_specification]
#[verifier::external_body]
pub struct ExDecoderError(fluke_hpack::decoder::DecoderError);

/// The entries of an encoder's dynamic table, newest first.
pub uninterp spec fn encoder_table(e: fluke_hpack::Encoder) -> Seq<(Seq<u8>, Seq<u8>)>;

/// The maximum size of an encoder's dynamic table.
pub uninterp spec fn encoder_table_limit(e: fluke_hpack::Encoder) -> nat;

/// What `fluke_hpack::Encoder::encode` writes for a header list, from a
/// dynamic table holding `table` under the maximum size `limit`.
pub uninterp spec fn hpack_encoding(
    table: Seq<(Seq<u8>, Seq<u8>)>,
    limit: nat,
    headers: Seq<(Seq<u8>, Seq<u8>)>,
) -> Seq<u8>;

/// The entries an encoder's dynamic table holds after `Encoder::encode`
/// wrote `headers` from a table holding `table` under the maximum size `limit`.
pub uninterp spec fn hpack_encoding_table(
    table: Seq<(Seq<u8>, Seq<u8>)>,
    limit: nat,
    headers: Seq<(Seq<u8>, Seq<u8>)>,
) -> Seq<(Seq<u8>, Seq<u8>)>;

/// The entries of a decoder's dynamic table, newest first.
pub uninterp spec fn decoder_table(d: fluke_hpack::Decoder) -> Seq<(Seq<u8>, Seq<u8>)>;

/// The maximum size of a decoder's dynamic table.
pub uninterp spec fn decoder_table_limit(d: fluke_hpack::Decoder) -> nat;

/// The bound a decoder puts on the table sizes a block may ask for, if any.
pub uninterp spec fn decoder_size_cap(d: fluke_hpack::Decoder) -> Option<nat>;

/// What `fluke_hpack::Decoder::decode` makes of a header block, from a
/// dynamic table holding `table` under the maximum size `limit`, with the
/// size bound `cap`: the header list, or none when it refuses the block.
pub uninterp spec fn hpack_decoding(
    table: Seq<(Seq<u8>, Seq<u8>)>,
    limit: nat,
    cap: Option<nat>,
    block: Seq<u8>,
) -> Option<Seq<(Seq<u8>, Seq<u8>)>>;

/// The entries a decoder's dynamic table holds after `Decoder::decode` read
/// `block` from a table holding `table` under `limit`, with the size bound `cap`.
pub uninterp spec fn hpack_decoding_table(
    table: Seq<(Seq<u8>, Seq<u8>)>,
    limit: nat,
    cap: Option<nat>,
    block: Seq<u8>,
) -> Seq<(Seq<u8>, Seq<u8>)>;

/// The maximum size of a decoder's dynamic table after `Decoder::decode`
/// read `block` (its table size updates set it), from the same state.
pub uninterp spec fn hpack_decoding_limit(
    table: Seq<(Seq<u8>, Seq<u8>)>,
    limit: nat,
    cap: Option<nat>,
    block: Seq<u8>,
) -> nat;

/// The state of an HPACK decoder that decoding depends on, by value.
pub struct DecoderState {
    pub table: Seq<(Seq<u8>, Seq<u8>)>,
    pub limit: nat,
    pub cap: Option<nat>,
}

/// The state of a decoder, by value.
pub open spec fn decoder_state(d: fluke_hpack::Decoder) -> DecoderState {
    DecoderState { table: decoder_table(d), limit: decoder_table_limit(d), cap: decoder_size_cap(d) }
}

/// What a decoder in state `s` makes of `block`.
pub open spec fn decoded_by(s: DecoderState, block: Seq<u8>) -> Option<Seq<(Seq<u8>, Seq<u8>)>> {
    hpack_decoding(s.table, s.limit, s.cap, block)
}

/// The state of a decoder in state `s` after it read `block`.
pub open spec fn decoder_after(s: DecoderState, block: Seq<u8>) -> DecoderState {
    DecoderState {
        table: hpack_decoding_table(s.table, s.limit, s.cap, block),
        limit: hpack_decoding_limit(s.table, s.limit, s.cap, block),
        cap: s.cap,
    }
}

/// What an encoder in the state of `e` writes for `headers`.
pub open spec fn encoded_by(e: fluke_hpack::Encoder, headers: Seq<(Seq<u8>, Seq<u8>)>) -> Seq<u8> {
    hpack_encoding(encoder_table(e), encoder_table_limit(e), headers)
}

/// A fresh encoder (`fluke_hpack::Encoder::new`): an empty dynamic table of
/// at most 4096 bytes.
#[verifier::external_body]
pub(crate) fn new_encoder<'a>() -> (r: fluke_hpack::Encoder<'a>)
    ensures
        encoder_table(r) == Seq::<(Seq<u8>, Seq<u8>)>::empty(),
        encoder_table_limit(r) == 4096,
{
    fluke_hpack::Encoder::new()
}

/// A fresh decoder (`fluke_hpack::Decoder::new`): an empty dynamic table of
/// at most 4096 bytes, and no bound on the sizes a block may ask for.
#[verifier::external_body]
pub(crate) fn new_decoder<'a>() -> (r: fluke_hpack::Decoder<'a>)
    ensures
        decoder_table(r) == Seq::<(Seq<u8>, Seq<u8>)>::empty(),
        decoder_table_limit(r) == 4096,
        decoder_size_cap(r) is None,
{
    fluke_hpack::Decoder::new()
}

/// The most bytes the HPACK encoder writes for a header list: per header,
/// 23 bytes of representation and length prefixes, and its name and value.
pub open spec fn hpack_bound(headers: Seq<(Seq<u8>, Seq<u8>)>) -> nat
    decreases headers.len(),
{
    if headers.len() == 0 {
        0
    } else {
        hpack_bound(headers.drop_last()) + 23 + headers.last().0.len() + headers.last().1.len()
    }
}

/// `fluke_hpack::Encoder::encode` on the given (name, value) pairs, in order.
/// The bytes are what the encoder writes from the table it had before the
/// call (`hpack_encoding`), and the table it is left with is
/// `hpack_encoding_table` of the same; its maximum size stays. Of every
/// outcome the source shows more: each header is written as one
/// representation of at least one byte (an index; an indexed name and a
/// literal value; or a literal name and value), whose integers take at most
/// 11 bytes each and whose strings are written as they are (no Huffman
/// coding), at most 23 bytes besides the name and value.
#[verifier::external_body]
pub(crate) fn encode_headers(encoder: &mut fluke_hpack::Encoder, headers: &Vec<(Vec<u8>, Vec<u8>)>) -> (r:
    Vec<u8>)
    ensures
        r@ == hpack_encoding(
            encoder_table(*old(encoder)),
            encoder_table_limit(*old(encoder)),
            crate::wire::pairs_view(headers@),
        ),
        encoder_table(*final(encoder)) == hpack_encoding_table(
            encoder_table(*old(encoder)),
            encoder_table_limit(*old(encoder)),
            crate::wire::pairs_view(headers@),
        ),
        encoder_table_limit(*final(encoder)) == encoder_table_limit(*old(encoder)),
        headers@.len() <= r@.len() <= hpack_bound(crate::wire::pairs_view(headers@)),
{
    encoder.encode(headers.iter().map(|(k, v)| (k.as_slice(), v.as_slice())))
}

/// An HPACK integer at `p` whose first byte keeps the bits of `mask`
/// (2^n - 1 for an n-bit prefix), read as the decoder reads it: its value
/// and how many bytes it takes; none when the bytes end first, or when a
/// fifth byte would still ask for more.
pub open spec fn hpack_int(b: Seq<u8>, p: int, mask: nat) -> Option<(nat, nat)> {
    if p < 0 || p >= b.len() {
        None
    } else if (b[p] as nat) % (mask + 1) < mask {
        Some((((b[p] as nat) % (mask + 1)) as nat, 1))
    } else if p + 1 >= b.len() {
        None
    } else if b[p + 1] < 128 {
        Some(((mask + b[p + 1]) as nat, 2))
    } else if p + 2 >= b.len() {
        None
    } else if b[p + 2] < 128 {
        Some(((mask + (b[p + 1] - 128) + b[p + 2] * 128) as nat, 3))
    } else if p + 3 >= b.len() {
        None
    } else if b[p + 3] < 128 {
        Some(((mask + (b[p + 1] - 128) + (b[p + 2] - 128) * 128 + b[p + 3] * 16384) as nat, 4))
    } else if p + 4 >= b.len() {
        None
    } else if b[p + 4] < 128 {
        Some(
            ((mask + (b[p + 1] - 128) + (b[p + 2] - 128) * 128 + (b[p + 3] - 128) * 16384 + b[p + 4] * 2097152) as nat, 5),
        )
    } else {
        None
    }
}

/// The bytes an HPACK string at `p` takes: its length integer and as many
/// bytes as it says; none when they are not all there.
pub open spec fn hpack_string_len(b: Seq<u8>, p: int) -> Option<nat> {
    match hpack_int(b, p, 127) {
        None => None,
        Some((len, c)) => if p + c + len > b.len() {
            None
        } else {
            Some(c + len)
        },
    }
}

/// The bytes a literal header field at `p` takes: the index integer (prefix
/// `mask`), the name string when the index is 0, and the value string.
pub open spec fn hpack_literal_len(b: Seq<u8>, p: int, mask: nat) -> Option<nat> {
    match hpack_int(b, p, mask) {
        None => None,
        Some((idx, c)) => {
            let nl: Option<nat> = if idx == 0 {
                hpack_string_len(b, p + c)
            } else {
                Some(0)
            };
            match nl {
                None => None,
                Some(n) => match hpack_string_len(b, p + c + n) {
                    None => None,
                    Some(v) => Some(c + n + v),
                },
            }
        },
    }
}

/// The bytes the representation at `p` takes, by its first byte: an index
/// (`1xxxxxxx`), a literal with a 6-bit index (`01xxxxxx`), a table size
/// update (`001xxxxx`), or a literal with a 4-bit index (`000xxxxx`).
pub open spec fn hpack_field_len(b: Seq<u8>, p: int) -> Option<nat> {
    let o = b[p];
    if o >= 128 {
        match hpack_int(b, p, 127) {
            None => None,
            Some((_, c)) => Some(c),
        }
    } else if o >= 64 {
        hpack_literal_len(b, p, 63)
    } else if o >= 32 {
        match hpack_int(b, p, 31) {
            None => None,
            Some((_, c)) => Some(c),
        }
    } else {
        hpack_literal_len(b, p, 15)
    }
}

/// Walking the representations of a block from `p` as the decoder does:
/// whether every table size update met on the way has its whole integer.
/// The walk stops, without fault, where a representation is cut short, as
/// the decoder stops there with an error.
pub open spec fn size_updates_complete_from(b: Seq<u8>, p: nat) -> bool
    decreases b.len() - p,
{
    if p >= b.len() {
        true
    } else if 32 <= b[p as int] < 64 && hpack_int(b, p as int, 31) is None {
        false
    } else {
        match hpack_field_len(b, p as int) {
            None => true,
            Some(c) => if c > 0 && p + c <= b.len() {
                size_updates_complete_from(b, p + c)
            } else {
                true
            },
        }
    }
}

/// Whether a header block can be handed to the decoder: it unwraps the
/// integer of a table size update, so one cut short would make it panic.
pub open spec fn hpack_block_safe(b: Seq<u8>) -> bool {
    size_updates_complete_from(b, 0)
}

/// Reads an HPACK integer (see `hpack_int`).
fn read_hpack_int(b: &[u8], p: usize, mask: u8) -> (r: Option<(usize, usize)>)
    requires
        mask == 127 || mask == 63 || mask == 31 || mask == 15,
    ensures
        match r {
            None => hpack_int(b@, p as int, mask as nat) is None,
            Some((v, c)) => hpack_int(b@, p as int, mask as nat) == Some((v as nat, c as nat)) && 1 <= c <= 5
                && p + c <= b@.len(),
        },
{
    if p >= b.len() {
        return None;
    }
    let m = mask as usize;
    let v0 = (b[p] as usize) % (m + 1);
    if v0 < m {
        return Some((v0, 1));
    }
    if p + 1 >= b.len() {
        return None;
    }
    let b1 = b[p + 1] as usize;
    if b1 < 128 {
        return Some((m + b1, 2));
    }
    if p + 2 >= b.len() {
        return None;
    }
    let b2 = b[p + 2] as usize;
    if b2 < 128 {
        return Some((m + (b1 - 128) + b2 * 128, 3));
    }
    if p + 3 >= b.len() {
        return None;
    }
    let b3 = b[p + 3] as usize;
    if b3 < 128 {
        return Some((m + (b1 - 128) + (b2 - 128) * 128 + b3 * 16384, 4));
    }
    if p + 4 >= b.len() {
        return None;
    }
    let b4 = b[p + 4] as usize;
    if b4 < 128 {
        return Some((m + (b1 - 128) + (b2 - 128) * 128 + (b3 - 128) * 16384 + b4 * 2097152, 5));
    }
    None
}

/// The bytes an HPACK string takes (see `hpack_string_len`).
fn read_string_len(b: &[u8], p: usize) -> (r: Option<usize>)
    ensures
        match r {
            None => hpack_string_len(b@, p as int) is None,
            Some(n) => hpack_string_len(b@, p as int) == Some(n as nat) && p + n <= b@.len(),
        },
{
    match read_hpack_int(b, p, 127) {
        None => None,
        Some((len, c)) => {
            if len > b.len() - p - c {
                None
            } else {
                Some(c + len)
            }
        },
    }
}

/// The bytes a literal header field takes (see `hpack_literal_len`).
fn read_literal_len(b: &[u8], p: usize, mask: u8) -> (r: Option<usize>)
    requires
        mask == 63 || mask == 15,
    ensures
        match r {
            None => hpack_literal_len(b@, p as int, mask as nat) is None,
            Some(n) => hpack_literal_len(b@, p as int, mask as nat) == Some(n as nat) && p + n <= b@.len(),
        },
{
    let len = b.len();
    let r = read_hpack_int(b, p, mask);
    match r {
        None => None,
        Some((idx, c)) => {
            assert(p + c <= len);
            let q = p + c;
            let nl: usize = if idx == 0 {
                match read_string_len(b, q) {
                    None => {
                        return None;
                    },
                    Some(n) => n,
                }
            } else {
                0
            };
            assert(q + nl <= len);
            match read_string_len(b, q + nl) {
                None => None,
                Some(vl) => Some(c + nl + vl),
            }
        },
    }
}

/// Whether a header block can be handed to the decoder (see `hpack_block_safe`).
pub fn check_hpack_block(b: &[u8]) -> (r: bool)
    ensures
        r == hpack_block_safe(b@),
{
    let mut p: usize = 0;
    while p < b.len()
        invariant
            p <= b@.len(),
            hpack_block_safe(b@) == size_updates_complete_from(b@, p as nat),
        decreases b@.len() - p,
    {
        let o = b[p];
        let step: Option<usize> = if o >= 128 {
            match read_hpack_int(b, p, 127) {
                None => None,
                Some((_, c)) => Some(c),
            }
        } else if o >= 64 {
            read_literal_len(b, p, 63)
        } else if o >= 32 {
            match read_hpack_int(b, p, 31) {
                None => {
                    return false;
                },
                Some((_, c)) => Some(c),
            }
        } else {
            read_literal_len(b, p, 15)
        };
        assert(step matches Some(c) ==> hpack_field_len(b@, p as int) == Some(c as nat));
        assert(step is None ==> hpack_field_len(b@, p as int) is None);
        match step {
            None => {
                return true;
            },
            Some(c) => {
                if c == 0 || c > b.len() - p {
                    return true;
                }
                p = p + c;
            },
        }
    }
    true
}

/// `fluke_hpack::Decoder::decode` on a whole header block: the header list
/// that the decoder's table before the call makes of it (`hpack_decoding`),
/// or an error where that is none. The table it is left with, and its maximum
/// size, are `hpack_decoding_table` and `hpack_decoding_limit` of the same;
/// the size bound stays.
/// The crate unwraps the integer of a table size update, so a block with one
/// cut short would make it panic; `requires` leaves such blocks out.
#[verifier::external_body]
pub(crate) fn decode_block(decoder: &mut fluke_hpack::Decoder, block: &[u8]) -> (r: Result<
    Vec<(Vec<u8>, Vec<u8>)>,
    fluke_hpack::decoder::DecoderError,
>)
    requires
        hpack_block_safe(block@),
    ensures
        match r {
            Ok(list) => hpack_decoding(
                decoder_table(*old(decoder)),
                decoder_table_limit(*old(decoder)),
                decoder_size_cap(*old(decoder)),
                block@,
            ) == Some(crate::wire::pairs_view(list@)),
            Err(_) => hpack_decoding(
                decoder_table(*old(decoder)),
                decoder_table_limit(*old(decoder)),
                decoder_size_cap(*old(decoder)),
                block@,
            ) is None,
        },
        decoder_table(*final(decoder)) == hpack_decoding_table(
            decoder_table(*old(decoder)),
            decoder_table_limit(*old(decoder)),
            decoder_size_cap(*old(decoder)),
            block@,
        ),
        decoder_table_limit(*final(decoder)) == hpack_decoding_limit(
            decoder_table(*old(decoder)),
            decoder_table_limit(*old(decoder)),
            decoder_size_cap(*old(decoder)),
            block@,
        ),
        decoder_size_cap(*final(decoder)) == decoder_size_cap(*old(decoder)),
{
    decoder.decode(block)
}

} // verus!
