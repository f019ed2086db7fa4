use vstd::prelude::*;

use crate::cursor::{Builder, Cursor};
use crate::error::{Error, Field};
use crate::fixed_str::{
    fits_width, fixed_bytes, lemma_fixed_bytes_round_trip, lemma_fixed_string_round_trip,
    read_fixed_string, well_formed_field,
};
use vstd::bytes::{
    lemma_auto_spec_u32_to_from_le_bytes, spec_u32_from_le_bytes, spec_u32_to_le_bytes,
};

verus! {

/// The nine common fields every table's generic header carries, as
/// mathematical values. Each typed table view embeds one of these.
#[verifier::ext_equal]
pub ghost struct HeaderFields {
    pub signature: Seq<char>,
    pub length: u32,
    pub revision: u8,
    pub checksum: u8,
    pub oem_id: Seq<char>,
    pub oem_table_id: Seq<char>,
    pub oem_revision: u32,
    pub creator_id: u32,
    pub creator_revision: u32,
}

/// The exact 36-byte layout of the generic header: a 4-byte signature,
/// little-endian length, revision, checksum, 6-byte OEM id, 8-byte OEM
/// table id, and three little-endian 32-bit identifiers, in that order.
pub open spec fn header_bytes(h: HeaderFields) -> Seq<u8> {
    fixed_bytes(h.signature, 4) + spec_u32_to_le_bytes(h.length) + seq![h.revision] + seq![
        h.checksum,
    ] + fixed_bytes(h.oem_id, 6) + fixed_bytes(h.oem_table_id, 8) + spec_u32_to_le_bytes(
        h.oem_revision,
    ) + spec_u32_to_le_bytes(h.creator_id) + spec_u32_to_le_bytes(h.creator_revision)
}

/// The header fields read back out of the first 36 bytes of a table.
pub open spec fn parse_header(b: Seq<u8>) -> HeaderFields
    recommends
        b.len() >= 36,
{
    HeaderFields {
        signature: read_fixed_string(b.subrange(0, 4)),
        length: spec_u32_from_le_bytes(b.subrange(4, 8)),
        revision: b[8],
        checksum: b[9],
        oem_id: read_fixed_string(b.subrange(10, 16)),
        oem_table_id: read_fixed_string(b.subrange(16, 24)),
        oem_revision: spec_u32_from_le_bytes(b.subrange(24, 28)),
        creator_id: spec_u32_from_le_bytes(b.subrange(28, 32)),
        creator_revision: spec_u32_from_le_bytes(b.subrange(32, 36)),
    }
}

/// The header field a decode of `len` bytes runs out of bytes in, for
/// `len < 36`.
pub open spec fn header_underrun_field(len: int) -> Field {
    if len < 4 {
        Field::Signature
    } else if len < 8 {
        Field::Length
    } else if len < 9 {
        Field::Revision
    } else if len < 10 {
        Field::Checksum
    } else if len < 16 {
        Field::OemId
    } else if len < 24 {
        Field::OemTableId
    } else if len < 28 {
        Field::OemRevision
    } else if len < 32 {
        Field::CreatorId
    } else {
        Field::CreatorRevision
    }
}

/// The three string fields survive encoding untouched: each fits its
/// declared width and holds no NUL character.
pub open spec fn header_wf(h: HeaderFields) -> bool {
    &&& fits_width(h.signature, 4)
    &&& fits_width(h.oem_id, 6)
    &&& fits_width(h.oem_table_id, 8)
}

/// An encoded header is exactly 36 bytes, parses back to the same nine
/// fields, and leaves any trailing payload untouched.
pub proof fn lemma_header_round_trip(h: HeaderFields, tail: Seq<u8>)
    requires
        header_wf(h),
    ensures
        header_bytes(h).len() == 36,
        parse_header(header_bytes(h) + tail) == h,
        (header_bytes(h) + tail).subrange(36, (header_bytes(h) + tail).len() as int) == tail,
{
    lemma_auto_spec_u32_to_from_le_bytes();
    lemma_fixed_string_round_trip(h.signature, 4);
    lemma_fixed_string_round_trip(h.oem_id, 6);
    lemma_fixed_string_round_trip(h.oem_table_id, 8);
    let b = header_bytes(h) + tail;
    assert(b.subrange(0, 4) =~= fixed_bytes(h.signature, 4));
    assert(b.subrange(4, 8) =~= spec_u32_to_le_bytes(h.length));
    assert(b[8] == h.revision);
    assert(b[9] == h.checksum);
    assert(b.subrange(10, 16) =~= fixed_bytes(h.oem_id, 6));
    assert(b.subrange(16, 24) =~= fixed_bytes(h.oem_table_id, 8));
    assert(b.subrange(24, 28) =~= spec_u32_to_le_bytes(h.oem_revision));
    assert(b.subrange(28, 32) =~= spec_u32_to_le_bytes(h.creator_id));
    assert(b.subrange(32, 36) =~= spec_u32_to_le_bytes(h.creator_revision));
    assert(parse_header(b) =~= h);
    assert(b.subrange(36, b.len() as int) =~= tail);
}

/// The mathematical value of a [`RawAcpiData`]: the common header fields
/// and the table-specific payload bytes.
#[verifier::ext_equal]
pub ghost struct RawAcpiDataView {
    pub header: HeaderFields,
    pub acpi_table_data: Seq<u8>,
}

/// A whole table split into the header fields and an opaque payload.
pub open spec fn parse_raw(b: Seq<u8>) -> RawAcpiDataView
    recommends
        b.len() >= 36,
{
    RawAcpiDataView { header: parse_header(b), acpi_table_data: b.subrange(36, b.len() as int) }
}

/// The byte stream a raw table encodes to: its 36-byte header followed by
/// the payload verbatim.
pub open spec fn raw_bytes(v: RawAcpiDataView) -> Seq<u8> {
    header_bytes(v.header) + v.acpi_table_data
}

/// Any ACPI table's common header plus its untouched remainder. The
/// declared `length` is stored verbatim and never checked against the
/// actual payload size; the `checksum` is stored verbatim and never
/// recomputed.
#[derive(Clone, Debug)]
pub struct RawAcpiData {
    pub signature: String,
    pub length: u32,
    pub revision: u8,
    pub checksum: u8,
    pub oem_id: String,
    pub oem_table_id: String,
    pub oem_revision: u32,
    pub creator_id: u32,
    pub creator_revision: u32,
    pub acpi_table_data: Vec<u8>,
}

impl View for RawAcpiData {
    type V = RawAcpiDataView;

    open spec fn view(&self) -> RawAcpiDataView {
        RawAcpiDataView {
            header: HeaderFields {
                signature: self.signature@,
                length: self.length,
                revision: self.revision,
                checksum: self.checksum,
                oem_id: self.oem_id@,
                oem_table_id: self.oem_table_id@,
                oem_revision: self.oem_revision,
                creator_id: self.creator_id,
                creator_revision: self.creator_revision,
            },
            acpi_table_data: self.acpi_table_data@,
        }
    }
}

impl PartialEq for RawAcpiData {
    fn eq(&self, other: &Self) -> (r: bool) {
        let r = self.signature == other.signature && self.length == other.length && self.revision
            == other.revision && self.checksum == other.checksum && self.oem_id == other.oem_id
            && self.oem_table_id == other.oem_table_id && self.oem_revision == other.oem_revision
            && self.creator_id == other.creator_id && self.creator_revision
            == other.creator_revision && self.acpi_table_data == other.acpi_table_data;
        proof {
            if r {
                assert(self@ =~= other@);
            }
        }
        r
    }
}

impl vstd::std_specs::cmp::PartialEqSpecImpl for RawAcpiData {
    open spec fn obeys_eq_spec() -> bool {
        true
    }

    open spec fn eq_spec(&self, other: &Self) -> bool {
        self@ == other@
    }
}

impl RawAcpiData {
    /// Decodes the 36-byte generic header in strict field order and keeps
    /// everything after it as the opaque payload. No length or checksum
    /// validation is performed.
    pub fn from_bytes(bytes: &[u8]) -> (r: Result<RawAcpiData, Error>)
        ensures
            match r {
                Ok(d) => bytes@.len() >= 36 && d@ == parse_raw(bytes@),
                Err(e) => bytes@.len() < 36 && e == Error::Underrun(
                    header_underrun_field(bytes@.len() as int),
                ),
            },
    {
        let mut c = Cursor::new(bytes);
        let signature = match c.take_fixed_string(4, Field::Signature) {
            Ok(v) => v,
            Err(e) => return Err(e),
        };
        let length = match c.take_u32_le(Field::Length) {
            Ok(v) => v,
            Err(e) => return Err(e),
        };
        let revision = match c.take_u8(Field::Revision) {
            Ok(v) => v,
            Err(e) => return Err(e),
        };
        let checksum = match c.take_u8(Field::Checksum) {
            Ok(v) => v,
            Err(e) => return Err(e),
        };
        let oem_id = match c.take_fixed_string(6, Field::OemId) {
            Ok(v) => v,
            Err(e) => return Err(e),
        };
        let oem_table_id = match c.take_fixed_string(8, Field::OemTableId) {
            Ok(v) => v,
            Err(e) => return Err(e),
        };
        let oem_revision = match c.take_u32_le(Field::OemRevision) {
            Ok(v) => v,
            Err(e) => return Err(e),
        };
        let creator_id = match c.take_u32_le(Field::CreatorId) {
            Ok(v) => v,
            Err(e) => return Err(e),
        };
        let creator_revision = match c.take_u32_le(Field::CreatorRevision) {
            Ok(v) => v,
            Err(e) => return Err(e),
        };
        let acpi_table_data = c.take_remaining();
        let d = RawAcpiData {
            signature,
            length,
            revision,
            checksum,
            oem_id,
            oem_table_id,
            oem_revision,
            creator_id,
            creator_revision,
            acpi_table_data,
        };
        proof {
            assert(d@ =~= parse_raw(bytes@));
        }
        Ok(d)
    }

    /// Re-encodes the nine header fields in the same order, NUL-padding or
    /// truncating the string fields to their widths, then appends the
    /// payload verbatim. The declared `length` only sizes the allocation;
    /// the output is never cut or padded to match it.
    pub fn to_bytes(&self) -> (r: Vec<u8>)
        ensures
            r@ == raw_bytes(self@),
    {
        let mut b = Builder::with_capacity(self.length as usize);
        put_header_fields(
            &mut b,
            self.signature.as_str(),
            self.length,
            self.revision,
            self.checksum,
            self.oem_id.as_str(),
            self.oem_table_id.as_str(),
            self.oem_revision,
            self.creator_id,
            self.creator_revision,
        );
        b.put_bytes(self.acpi_table_data.as_slice());
        let r = b.into_vec();
        proof {
            assert(r@ =~= raw_bytes(self@));
        }
        r
    }
}

/// A record whose string fields fit their widths encodes and decodes back
/// to itself; the payload is carried through untouched.
pub proof fn lemma_raw_round_trip(v: RawAcpiDataView)
    requires
        header_wf(v.header),
    ensures
        raw_bytes(v).len() >= 36,
        parse_raw(raw_bytes(v)) == v,
{
    lemma_header_round_trip(v.header, v.acpi_table_data);
    assert(parse_raw(raw_bytes(v)) =~= v);
}

/// A byte stream that survives the other round trip: long enough for the
/// header, with each of its three string-field regions holding NUL-padded
/// valid UTF-8 and no interior NUL byte.
pub open spec fn raw_bytes_wf(b: Seq<u8>) -> bool {
    &&& b.len() >= 36
    &&& well_formed_field(b.subrange(0, 4))
    &&& well_formed_field(b.subrange(10, 16))
    &&& well_formed_field(b.subrange(16, 24))
}

/// The other round trip: a well-formed byte stream decodes and re-encodes
/// to exactly itself, the stored length and checksum included — neither is
/// ever recomputed.
pub proof fn lemma_raw_encode_decode(b: Seq<u8>)
    requires
        raw_bytes_wf(b),
    ensures
        raw_bytes(parse_raw(b)) == b,
{
    lemma_auto_spec_u32_to_from_le_bytes();
    lemma_fixed_bytes_round_trip(b.subrange(0, 4));
    lemma_fixed_bytes_round_trip(b.subrange(10, 16));
    lemma_fixed_bytes_round_trip(b.subrange(16, 24));
    assert(raw_bytes(parse_raw(b)) =~= b);
}

/// Appends the nine common header fields, in layout order, to a builder.
pub(crate) fn put_header_fields(
    b: &mut Builder,
    signature: &str,
    length: u32,
    revision: u8,
    checksum: u8,
    oem_id: &str,
    oem_table_id: &str,
    oem_revision: u32,
    creator_id: u32,
    creator_revision: u32,
)
    ensures
        final(b)@ == old(b)@ + header_bytes(
            HeaderFields {
                signature: signature@,
                length,
                revision,
                checksum,
                oem_id: oem_id@,
                oem_table_id: oem_table_id@,
                oem_revision,
                creator_id,
                creator_revision,
            },
        ),
{
    b.put_fixed_string(signature, 4);
    b.put_u32_le(length);
    b.put_u8(revision);
    b.put_u8(checksum);
    b.put_fixed_string(oem_id, 6);
    b.put_fixed_string(oem_table_id, 8);
    b.put_u32_le(oem_revision);
    b.put_u32_le(creator_id);
    b.put_u32_le(creator_revision);
    proof {
        assert(b@ =~= old(b)@ + header_bytes(
            HeaderFields {
                signature: signature@,
                length,
                revision,
                checksum,
                oem_id: oem_id@,
                oem_table_id: oem_table_id@,
                oem_revision,
                creator_id,
                creator_revision,
            },
        ));
    }
}

} // verus!
