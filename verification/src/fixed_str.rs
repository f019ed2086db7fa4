use vstd::prelude::*;

use vstd::slice::slice_subrange;
use vstd::utf8::{
    decode_utf8, decode_utf8_encode_utf8, encode_scalar, encode_utf8, encode_utf8_decode_utf8,
    encode_utf8_valid_utf8, has_width_1_encoding, has_width_2_encoding, has_width_3_encoding,
    valid_utf8,
};

verus! {

/// What `String::from_utf8_lossy` returns on bytes that are not valid UTF-8:
/// a function of the bytes alone, left unnamed beyond that.
pub uninterp spec fn lossy_decoded(bytes: Seq<u8>) -> Seq<char>;

/// Relies on `String::from_utf8_lossy`: the result depends on the bytes
/// alone, and a valid UTF-8 input decodes exactly, with no substitution.
#[verifier::external_body]
fn utf8_lossy(bytes: &[u8]) -> (r: String)
    ensures
        r@ == lossy_decoded(bytes@),
        valid_utf8(bytes@) ==> r@ == decode_utf8(bytes@),
{
    String::from_utf8_lossy(bytes).into_owned()
}

/// `bytes` with every trailing `0x00` byte removed.
pub open spec fn trim_zeros(bytes: Seq<u8>) -> Seq<u8>
    decreases bytes.len(),
{
    if bytes.len() > 0 && bytes.last() == 0 {
        trim_zeros(bytes.drop_last())
    } else {
        bytes
    }
}

/// The characters a byte block decodes to: read as UTF-8, lossily where
/// the bytes are not valid UTF-8.
pub open spec fn decoded_chars(bytes: Seq<u8>) -> Seq<char> {
    if valid_utf8(bytes) {
        decode_utf8(bytes)
    } else {
        lossy_decoded(bytes)
    }
}

/// The characters a fixed-width string field decodes to: trailing NUL
/// padding is stripped, then the rest is read as UTF-8, lossily where the
/// bytes are not valid UTF-8.
pub open spec fn read_fixed_string(bytes: Seq<u8>) -> Seq<char> {
    decoded_chars(trim_zeros(bytes))
}

/// Decodes a byte block as UTF-8, substituting where it is invalid.
pub fn decode_string(bytes: &[u8]) -> (r: String)
    ensures
        r@ == decoded_chars(bytes@),
{
    utf8_lossy(bytes)
}

/// The bytes a string is written as in a field of width `width`: its UTF-8
/// encoding truncated to `width` bytes, or NUL-padded up to `width`.
pub open spec fn fixed_bytes(s: Seq<char>, width: int) -> Seq<u8>
    recommends
        width >= 0,
{
    let b = encode_utf8(s);
    if b.len() >= width {
        b.take(width)
    } else {
        b + Seq::new((width - b.len()) as nat, |i: int| 0u8)
    }
}

/// When a string survives a fixed-width field of width `width` unchanged:
/// its UTF-8 encoding fits the field and it holds no NUL character.
pub open spec fn fits_width(s: Seq<char>, width: int) -> bool {
    &&& encode_utf8(s).len() <= width
    &&& forall|i: int| 0 <= i < s.len() ==> s[i] != '\0'
}

/// A NUL-free character sequence encodes to NUL-free bytes: a zero byte
/// occurs in UTF-8 only as the encoding of the NUL character.
proof fn lemma_no_nul_encoding(s: Seq<char>)
    requires
        forall|i: int| 0 <= i < s.len() ==> s[i] != '\0',
    ensures
        forall|i: int| 0 <= i < encode_utf8(s).len() ==> #[trigger] encode_utf8(s)[i] != 0,
    decreases s.len(),
{
    if s.len() > 0 {
        let c = s[0] as u32;
        assert(c != 0) by {
            assert(s[0] != '\0');
            vstd::utf8::char_u32_cast(s[0], c);
        }
        assert forall|i: int| 0 <= i < encode_scalar(c).len() implies #[trigger] encode_scalar(
            c,
        )[i] != 0 by {
            if has_width_1_encoding(c) {
                assert((c & 0x7F) as u8 != 0) by (bit_vector)
                    requires
                        c != 0 && c <= 0x7F,
                ;
            } else if has_width_2_encoding(c) {
                assert(0xC0 | ((c >> 6) & 0x1F) as u8 != 0 && 0x80 | (c & 0x3F) as u8 != 0)
                    by (bit_vector);
            } else if has_width_3_encoding(c) {
                assert(0xE0 | ((c >> 12) & 0x0F) as u8 != 0 && 0x80 | ((c >> 6) & 0x3F) as u8 != 0
                    && 0x80 | (c & 0x3F) as u8 != 0) by (bit_vector);
            } else {
                assert(0xF0 | ((c >> 18) & 0x7) as u8 != 0 && 0x80 | ((c >> 12) & 0x3F) as u8 != 0
                    && 0x80 | ((c >> 6) & 0x3F) as u8 != 0 && 0x80 | (c & 0x3F) as u8 != 0)
                    by (bit_vector);
            }
        }
        lemma_no_nul_encoding(s.drop_first());
        assert forall|i: int| 0 <= i < encode_utf8(s).len() implies #[trigger] encode_utf8(s)[i]
            != 0 by {
            let k = encode_scalar(c).len();
            if i < k {
                assert(encode_utf8(s)[i] == encode_scalar(c)[i]);
            } else {
                assert(encode_utf8(s)[i] == encode_utf8(s.drop_first())[i - k]);
            }
        }
    }
}

/// Stripping trailing zeros undoes zero padding, as long as the padded
/// sequence itself ends in no zero byte.
proof fn lemma_trim_zeros_padding(b: Seq<u8>, padded: Seq<u8>)
    requires
        padded.len() >= b.len(),
        forall|i: int| 0 <= i < b.len() ==> b[i] == padded[i],
        forall|i: int| b.len() <= i < padded.len() ==> padded[i] == 0,
        forall|i: int| 0 <= i < b.len() ==> b[i] != 0,
    ensures
        trim_zeros(padded) == b,
    decreases padded.len(),
{
    if padded.len() > b.len() {
        assert(padded.last() == 0);
        lemma_trim_zeros_padding(b, padded.drop_last());
    } else {
        assert(padded =~= b);
        if b.len() > 0 {
            assert(b.last() != 0);
        }
    }
}

/// The round trip of one fixed-width string field: a string that fits its
/// field of width `width` is written, NUL-padded, and read back unchanged.
pub proof fn lemma_fixed_string_round_trip(s: Seq<char>, width: int)
    requires
        width >= 0,
        fits_width(s, width),
    ensures
        fixed_bytes(s, width).len() == width,
        read_fixed_string(fixed_bytes(s, width)) == s,
{
    let b = encode_utf8(s);
    let padded = fixed_bytes(s, width);
    if b.len() >= width {
        assert(padded =~= b);
    }
    lemma_no_nul_encoding(s);
    lemma_trim_zeros_padding(b, padded);
    encode_utf8_valid_utf8(s);
    encode_utf8_decode_utf8(s);
}

/// Stripping trailing zeros keeps a prefix of the bytes and removes
/// nothing but zeros.
proof fn lemma_trim_zeros_structure(bytes: Seq<u8>)
    ensures
        trim_zeros(bytes).len() <= bytes.len(),
        forall|i: int|
            0 <= i < trim_zeros(bytes).len() ==> #[trigger] trim_zeros(bytes)[i] == bytes[i],
        forall|i: int| trim_zeros(bytes).len() <= i < bytes.len() ==> bytes[i] == 0,
    decreases bytes.len(),
{
    if bytes.len() > 0 && bytes.last() == 0 {
        lemma_trim_zeros_structure(bytes.drop_last());
        assert forall|i: int|
            0 <= i < trim_zeros(bytes).len() implies #[trigger] trim_zeros(bytes)[i]
            == bytes[i] by {
            assert(trim_zeros(bytes)[i] == bytes.drop_last()[i]);
        }
        assert forall|i: int| trim_zeros(bytes).len() <= i < bytes.len() implies bytes[i]
            == 0 by {
            if i < bytes.len() - 1 {
                assert(bytes.drop_last()[i] == 0);
                assert(bytes[i] == bytes.drop_last()[i]);
            } else {
                assert(bytes[i] == bytes.last());
            }
        }
    }
}

/// NUL-free bytes decode to NUL-free characters: the NUL character is the
/// one character whose UTF-8 encoding holds a zero byte.
proof fn lemma_no_zero_bytes_no_nul(s: Seq<char>)
    requires
        forall|j: int| 0 <= j < encode_utf8(s).len() ==> #[trigger] encode_utf8(s)[j] != 0,
    ensures
        forall|i: int| 0 <= i < s.len() ==> s[i] != '\0',
    decreases s.len(),
{
    if s.len() > 0 {
        let c = s[0] as u32;
        vstd::utf8::char_is_scalar(s[0]);
        if s[0] == '\0' {
            assert(c == 0);
            assert(encode_scalar(c) == seq![(c & 0x7F) as u8]);
            assert(encode_utf8(s) == encode_scalar(c) + encode_utf8(s.drop_first()));
            assert(encode_utf8(s)[0] == encode_scalar(c)[0]);
            assert((0u32 & 0x7F) as u8 == 0) by (bit_vector);
            assert(encode_utf8(s)[0] == 0);
        }
        assert forall|j: int|
            0 <= j < encode_utf8(s.drop_first()).len() implies #[trigger] encode_utf8(
            s.drop_first(),
        )[j] != 0 by {
            let k = encode_scalar(c).len();
            assert(encode_utf8(s.drop_first())[j] == encode_utf8(s)[j + k]);
        }
        lemma_no_zero_bytes_no_nul(s.drop_first());
        assert forall|i: int| 0 <= i < s.len() implies s[i] != '\0' by {
            if i > 0 {
                assert(s[i] == s.drop_first()[i - 1]);
            }
        }
    }
}

/// When a fixed-width field's bytes survive the other round trip: what is
/// left after the NUL padding is valid UTF-8 with no interior NUL byte.
pub open spec fn well_formed_field(r: Seq<u8>) -> bool {
    &&& valid_utf8(trim_zeros(r))
    &&& forall|i: int| 0 <= i < trim_zeros(r).len() ==> #[trigger] trim_zeros(r)[i] != 0
}

/// The other round trip of one fixed-width string field: well-formed field
/// bytes decode to a string that fits the field and re-encodes to exactly
/// the same bytes, padding included.
pub proof fn lemma_fixed_bytes_round_trip(r: Seq<u8>)
    requires
        well_formed_field(r),
    ensures
        fits_width(read_fixed_string(r), r.len() as int),
        fixed_bytes(read_fixed_string(r), r.len() as int) == r,
{
    let t = trim_zeros(r);
    let s = read_fixed_string(r);
    lemma_trim_zeros_structure(r);
    decode_utf8_encode_utf8(t);
    assert(s == decode_utf8(t));
    assert(encode_utf8(s) == t);
    lemma_no_zero_bytes_no_nul(s);
    assert(fixed_bytes(s, r.len() as int) =~= r);
}

/// The first `n` bytes of `value`'s UTF-8 encoding, NUL-padded up to
/// exactly `n` bytes when the encoding is shorter.
pub fn string_to_array(value: &str, n: usize) -> (r: Vec<u8>)
    ensures
        r@ == fixed_bytes(value@, n as int),
        r@.len() == n,
{
    let bytes = value.as_bytes();
    let take = if bytes.len() >= n {
        n
    } else {
        bytes.len()
    };
    let mut r: Vec<u8> = Vec::new();
    r.extend_from_slice(slice_subrange(bytes, 0, take));
    while r.len() < n
        invariant
            take <= n,
            take <= bytes@.len(),
            take < n ==> take == bytes@.len(),
            r@.len() >= take,
            r@.len() <= n,
            r@.subrange(0, take as int) == bytes@.subrange(0, take as int),
            forall|i: int| take <= i < r@.len() ==> r@[i] == 0,
        decreases n - r.len(),
    {
        r.push(0);
    }
    proof {
        assert forall|i: int| 0 <= i < take implies r@[i] == bytes@[i] by {
            assert(r@.subrange(0, take as int)[i] == bytes@.subrange(0, take as int)[i]);
        }
        assert(r@ =~= fixed_bytes(value@, n as int));
    }
    r
}

/// Reads a fixed-width string field out of `bytes`: trailing NUL padding is
/// stripped and the remainder decoded as UTF-8, lossily where invalid.
pub fn decode_fixed_string(bytes: &[u8]) -> (r: String)
    ensures
        r@ == read_fixed_string(bytes@),
{
    let mut end = bytes.len();
    proof {
        assert(bytes@.subrange(0, bytes@.len() as int) =~= bytes@);
    }
    while end > 0 && bytes[end - 1] == 0
        invariant
            end <= bytes@.len(),
            trim_zeros(bytes@) == trim_zeros(bytes@.subrange(0, end as int)),
        decreases end,
    {
        proof {
            assert(bytes@.subrange(0, end as int).drop_last() =~= bytes@.subrange(
                0,
                end as int - 1,
            ));
        }
        end = end - 1;
    }
    proof {
        let head = bytes@.subrange(0, end as int);
        if end > 0 {
            assert(head.last() != 0);
        }
        assert(trim_zeros(head) == head);
        assert(trim_zeros(bytes@) == head);
    }
    utf8_lossy(slice_subrange(bytes, 0, end))
}

} // verus!
