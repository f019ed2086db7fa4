use vstd::prelude::*;

use crate::cursor::{Builder, Cursor};
use crate::error::{Error, Field};
use crate::header::{
    header_bytes, header_wf, lemma_header_round_trip, parse_raw, put_header_fields, HeaderFields,
    RawAcpiData, RawAcpiDataView,
};
use crate::AcpiTable;
use vstd::bytes::{
    lemma_auto_spec_u16_to_from_le_bytes, lemma_auto_spec_u32_to_from_le_bytes,
    spec_u16_from_le_bytes, spec_u16_to_le_bytes, spec_u32_from_le_bytes, spec_u32_to_le_bytes,
};

verus! {

/// The mathematical value of a [`BootGraphicsResource`].
#[verifier::ext_equal]
pub ghost struct BootGraphicsResourceView {
    pub header: HeaderFields,
    pub version: u16,
    pub status: u8,
    pub image_type: u8,
    pub image_address: Seq<u8>,
    pub image_offset_x: u32,
    pub image_offset_y: u32,
}

/// The fixed length of this table's payload: version, status, image type,
/// an 8-byte image address, and two 32-bit offsets.
pub open spec fn boot_body_len() -> int {
    20
}

/// The payload field a decode of a `len`-byte payload runs out of bytes
/// in, for `len` shorter than the fixed body.
pub open spec fn boot_underrun_field(len: int) -> Field {
    if len < 2 {
        Field::Version
    } else if len < 3 {
        Field::Status
    } else if len < 4 {
        Field::ImageType
    } else if len < 12 {
        Field::ImageAddress
    } else if len < 16 {
        Field::ImageOffsetX
    } else {
        Field::ImageOffsetY
    }
}

pub open spec fn boot_decode_ok(raw: RawAcpiDataView) -> bool {
    raw.acpi_table_data.len() >= boot_body_len()
}

pub open spec fn boot_decode_err(raw: RawAcpiDataView) -> Error {
    Error::Underrun(boot_underrun_field(raw.acpi_table_data.len() as int))
}

/// The record read out of a raw table's payload in strict field order;
/// payload bytes past the fixed body are ignored.
pub open spec fn boot_decoded(raw: RawAcpiDataView) -> BootGraphicsResourceView
    recommends
        boot_decode_ok(raw),
{
    let p = raw.acpi_table_data;
    BootGraphicsResourceView {
        header: raw.header,
        version: spec_u16_from_le_bytes(p.subrange(0, 2)),
        status: p[2],
        image_type: p[3],
        image_address: p.subrange(4, 12),
        image_offset_x: spec_u32_from_le_bytes(p.subrange(12, 16)),
        image_offset_y: spec_u32_from_le_bytes(p.subrange(16, 20)),
    }
}

/// The byte stream the record encodes to: the 36-byte generic header, then
/// the fixed body in the same field order the decoder reads.
pub open spec fn boot_bytes(v: BootGraphicsResourceView) -> Seq<u8> {
    header_bytes(v.header) + spec_u16_to_le_bytes(v.version) + seq![v.status] + seq![v.image_type]
        + v.image_address + spec_u32_to_le_bytes(v.image_offset_x) + spec_u32_to_le_bytes(
        v.image_offset_y,
    )
}

/// When the record survives a round trip: its string fields fit their
/// widths and the image address is its full 8 bytes.
pub open spec fn boot_wf(v: BootGraphicsResourceView) -> bool {
    &&& header_wf(v.header)
    &&& v.image_address.len() == 8
}

/// The boot graphics resource table: header fields plus the firmware boot
/// image's location and placement. Fixed-length payload, no optional
/// fields.
#[derive(Clone, Debug)]
pub struct BootGraphicsResource {
    pub signature: String,
    pub length: u32,
    pub revision: u8,
    pub checksum: u8,
    pub oem_id: String,
    pub oem_table_id: String,
    pub oem_revision: u32,
    pub creator_id: u32,
    pub creator_revision: u32,
    pub version: u16,
    pub status: u8,
    pub image_type: u8,
    pub image_address: Vec<u8>,
    pub image_offset_x: u32,
    pub image_offset_y: u32,
}

impl View for BootGraphicsResource {
    type V = BootGraphicsResourceView;

    open spec fn view(&self) -> BootGraphicsResourceView {
        BootGraphicsResourceView {
            header: HeaderFields {
                signature: self.signature@,
                length: self.length,
                revision: self.revision,
                checksum: self.checksum,
                oem_id: self.oem_id@,
                oem_table_id: self.oem_table_id@,
                oem_revision: self.oem_revision,
                creator_id: self.creator_id,
                creator_revision: self.creator_revision,
            },
            version: self.version,
            status: self.status,
            image_type: self.image_type,
            image_address: self.image_address@,
            image_offset_x: self.image_offset_x,
            image_offset_y: self.image_offset_y,
        }
    }
}

impl PartialEq for BootGraphicsResource {
    fn eq(&self, other: &Self) -> (r: bool) {
        let r = self.signature == other.signature && self.length == other.length && self.revision
            == other.revision && self.checksum == other.checksum && self.oem_id == other.oem_id
            && self.oem_table_id == other.oem_table_id && self.oem_revision == other.oem_revision
            && self.creator_id == other.creator_id && self.creator_revision
            == other.creator_revision && self.version == other.version && self.status
            == other.status && self.image_type == other.image_type && self.image_address
            == other.image_address && self.image_offset_x == other.image_offset_x
            && self.image_offset_y == other.image_offset_y;
        proof {
            if r {
                assert(self@ =~= other@);
            }
        }
        r
    }
}

impl vstd::std_specs::cmp::PartialEqSpecImpl for BootGraphicsResource {
    open spec fn obeys_eq_spec() -> bool {
        true
    }

    open spec fn eq_spec(&self, other: &Self) -> bool {
        self@ == other@
    }
}

impl AcpiTable for BootGraphicsResource {
    open spec fn decode_ok(raw: RawAcpiDataView) -> bool {
        boot_decode_ok(raw)
    }

    open spec fn decoded(raw: RawAcpiDataView) -> BootGraphicsResourceView {
        boot_decoded(raw)
    }

    open spec fn decode_err(raw: RawAcpiDataView) -> Error {
        boot_decode_err(raw)
    }

    fn from_header(raw: RawAcpiData) -> (r: Result<Self, Error>) {
        let mut c = Cursor::new(raw.acpi_table_data.as_slice());
        let version = match c.take_u16_le(Field::Version) {
            Ok(v) => v,
            Err(e) => return Err(e),
        };
        let status = match c.take_u8(Field::Status) {
            Ok(v) => v,
            Err(e) => return Err(e),
        };
        let image_type = match c.take_u8(Field::ImageType) {
            Ok(v) => v,
            Err(e) => return Err(e),
        };
        let image_address = match c.take_bytes(8, Field::ImageAddress) {
            Ok(v) => v,
            Err(e) => return Err(e),
        };
        let image_offset_x = match c.take_u32_le(Field::ImageOffsetX) {
            Ok(v) => v,
            Err(e) => return Err(e),
        };
        let image_offset_y = match c.take_u32_le(Field::ImageOffsetY) {
            Ok(v) => v,
            Err(e) => return Err(e),
        };
        let t = BootGraphicsResource {
            signature: raw.signature,
            length: raw.length,
            revision: raw.revision,
            checksum: raw.checksum,
            oem_id: raw.oem_id,
            oem_table_id: raw.oem_table_id,
            oem_revision: raw.oem_revision,
            creator_id: raw.creator_id,
            creator_revision: raw.creator_revision,
            version,
            status,
            image_type,
            image_address,
            image_offset_x,
            image_offset_y,
        };
        proof {
            assert(t@ =~= boot_decoded(raw@));
        }
        Ok(t)
    }
}

impl BootGraphicsResource {
    /// Re-encodes the record: the common header, then the fixed body in
    /// decoding order.
    pub fn into_bytes(self) -> (r: Vec<u8>)
        ensures
            r@ == boot_bytes(self@),
    {
        let mut b = Builder::with_capacity(self.length as usize);
        put_header_fields(
            &mut b,
            self.signature.as_str(),
            self.length,
            self.revision,
            self.checksum,
            self.oem_id.as_str(),
            self.oem_table_id.as_str(),
            self.oem_revision,
            self.creator_id,
            self.creator_revision,
        );
        b.put_u16_le(self.version);
        b.put_u8(self.status);
        b.put_u8(self.image_type);
        b.put_bytes(self.image_address.as_slice());
        b.put_u32_le(self.image_offset_x);
        b.put_u32_le(self.image_offset_y);
        let r = b.into_vec();
        proof {
            assert(r@ =~= boot_bytes(self@));
        }
        r
    }
}

/// The round trip: a well-formed boot graphics record, encoded and decoded
/// back through the generic header, is returned unchanged.
pub proof fn lemma_boot_round_trip(v: BootGraphicsResourceView)
    requires
        boot_wf(v),
    ensures
        boot_bytes(v).len() == 36 + boot_body_len(),
        boot_decode_ok(parse_raw(boot_bytes(v))),
        boot_decoded(parse_raw(boot_bytes(v))) == v,
{
    lemma_auto_spec_u16_to_from_le_bytes();
    lemma_auto_spec_u32_to_from_le_bytes();
    let body = spec_u16_to_le_bytes(v.version) + seq![v.status] + seq![v.image_type]
        + v.image_address + spec_u32_to_le_bytes(v.image_offset_x) + spec_u32_to_le_bytes(
        v.image_offset_y,
    );
    assert(boot_bytes(v) =~= header_bytes(v.header) + body);
    lemma_header_round_trip(v.header, body);
    let p = parse_raw(boot_bytes(v)).acpi_table_data;
    assert(p == body);
    assert(p.subrange(0, 2) =~= spec_u16_to_le_bytes(v.version));
    assert(p[2] == v.status);
    assert(p[3] == v.image_type);
    assert(p.subrange(4, 12) =~= v.image_address);
    assert(p.subrange(12, 16) =~= spec_u32_to_le_bytes(v.image_offset_x));
    assert(p.subrange(16, 20) =~= spec_u32_to_le_bytes(v.image_offset_y));
    assert(boot_decoded(parse_raw(boot_bytes(v))) =~= v);
}

} // verus!
