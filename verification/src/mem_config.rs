use vstd::prelude::*;

use crate::cursor::{Builder, Cursor};
use crate::error::{Error, Field};
use crate::header::{
    header_bytes, header_wf, lemma_header_round_trip, parse_raw, put_header_fields, HeaderFields,
    RawAcpiData, RawAcpiDataView,
};
use crate::AcpiTable;
use vstd::bytes::{
    lemma_auto_spec_u16_to_from_le_bytes, spec_u16_from_le_bytes, spec_u16_to_le_bytes,
};
use vstd::pervasive::unreached;

verus! {

/// The mathematical value of a [`MemoryMappedConfigurationSpace`].
#[verifier::ext_equal]
pub ghost struct MemoryMappedConfigurationSpaceView {
    pub base_address: Seq<u8>,
    pub segment_number: u16,
    pub bus_number_start: u8,
    pub bus_number_end: u8,
    pub reserved: Seq<u8>,
}

/// The exact width of one configuration-space sub-record.
pub open spec fn space_len() -> int {
    16
}

/// The sub-record field a decode of `len` bytes runs out of bytes in, for
/// `len` shorter than one full sub-record.
pub open spec fn space_underrun_field(len: int) -> Field {
    if len < 8 {
        Field::BaseAddress
    } else if len < 10 {
        Field::SegmentNumber
    } else if len < 11 {
        Field::BusNumberStart
    } else if len < 12 {
        Field::BusNumberEnd
    } else {
        Field::Reserved
    }
}

/// One sub-record read out of the first 16 bytes, in strict field order.
pub open spec fn parse_space(b: Seq<u8>) -> MemoryMappedConfigurationSpaceView
    recommends
        b.len() >= space_len(),
{
    MemoryMappedConfigurationSpaceView {
        base_address: b.subrange(0, 8),
        segment_number: spec_u16_from_le_bytes(b.subrange(8, 10)),
        bus_number_start: b[10],
        bus_number_end: b[11],
        reserved: b.subrange(12, 16),
    }
}

/// The 16 bytes one sub-record encodes to, in the same field order.
pub open spec fn space_bytes(s: MemoryMappedConfigurationSpaceView) -> Seq<u8> {
    s.base_address + spec_u16_to_le_bytes(s.segment_number) + seq![s.bus_number_start] + seq![
        s.bus_number_end,
    ] + s.reserved
}

/// When a sub-record survives a round trip: each opaque block is its full
/// declared width.
pub open spec fn space_wf(s: MemoryMappedConfigurationSpaceView) -> bool {
    &&& s.base_address.len() == 8
    &&& s.reserved.len() == 4
}

/// The round trip of one sub-record: encoded to its 16 bytes and parsed
/// back, a well-formed sub-record is returned unchanged.
pub proof fn lemma_space_round_trip(s: MemoryMappedConfigurationSpaceView)
    requires
        space_wf(s),
    ensures
        space_bytes(s).len() == space_len(),
        parse_space(space_bytes(s)) == s,
{
    lemma_auto_spec_u16_to_from_le_bytes();
    let b = space_bytes(s);
    assert(b.subrange(0, 8) =~= s.base_address);
    assert(b.subrange(8, 10) =~= spec_u16_to_le_bytes(s.segment_number));
    assert(b.subrange(12, 16) =~= s.reserved);
    assert(parse_space(b) =~= s);
}

/// One entry of the memory-mapped configuration table: the base address
/// of a configuration space and the bus range it covers. Exactly 16 bytes
/// on the wire.
#[derive(Clone, Debug)]
pub struct MemoryMappedConfigurationSpace {
    pub base_address: Vec<u8>,
    pub segment_number: u16,
    pub bus_number_start: u8,
    pub bus_number_end: u8,
    pub reserved: Vec<u8>,
}

impl View for MemoryMappedConfigurationSpace {
    type V = MemoryMappedConfigurationSpaceView;

    open spec fn view(&self) -> MemoryMappedConfigurationSpaceView {
        MemoryMappedConfigurationSpaceView {
            base_address: self.base_address@,
            segment_number: self.segment_number,
            bus_number_start: self.bus_number_start,
            bus_number_end: self.bus_number_end,
            reserved: self.reserved@,
        }
    }
}

impl PartialEq for MemoryMappedConfigurationSpace {
    fn eq(&self, other: &Self) -> (r: bool) {
        let r = self.base_address == other.base_address && self.segment_number
            == other.segment_number && self.bus_number_start == other.bus_number_start
            && self.bus_number_end == other.bus_number_end && self.reserved == other.reserved;
        proof {
            if r {
                assert(self@ =~= other@);
            }
        }
        r
    }
}

impl vstd::std_specs::cmp::PartialEqSpecImpl for MemoryMappedConfigurationSpace {
    open spec fn obeys_eq_spec() -> bool {
        true
    }

    open spec fn eq_spec(&self, other: &Self) -> bool {
        self@ == other@
    }
}

impl MemoryMappedConfigurationSpace {
    /// Decodes one sub-record from the first 16 bytes of `bytes`; anything
    /// past them is ignored.
    pub fn from_bytes(bytes: &[u8]) -> (r: Result<Self, Error>)
        ensures
            match r {
                Ok(s) => bytes@.len() >= space_len() && s@ == parse_space(bytes@),
                Err(e) => bytes@.len() < space_len() && e == Error::Underrun(
                    space_underrun_field(bytes@.len() as int),
                ),
            },
    {
        let mut c = Cursor::new(bytes);
        let base_address = match c.take_bytes(8, Field::BaseAddress) {
            Ok(v) => v,
            Err(e) => return Err(e),
        };
        let segment_number = match c.take_u16_le(Field::SegmentNumber) {
            Ok(v) => v,
            Err(e) => return Err(e),
        };
        let bus_number_start = match c.take_u8(Field::BusNumberStart) {
            Ok(v) => v,
            Err(e) => return Err(e),
        };
        let bus_number_end = match c.take_u8(Field::BusNumberEnd) {
            Ok(v) => v,
            Err(e) => return Err(e),
        };
        let reserved = match c.take_bytes(4, Field::Reserved) {
            Ok(v) => v,
            Err(e) => return Err(e),
        };
        let s = MemoryMappedConfigurationSpace {
            base_address,
            segment_number,
            bus_number_start,
            bus_number_end,
            reserved,
        };
        proof {
            assert(s@ =~= parse_space(bytes@));
        }
        Ok(s)
    }

    /// Appends this sub-record's 16 bytes to a builder.
    fn write_to(&self, b: &mut Builder)
        ensures
            final(b)@ == old(b)@ + space_bytes(self@),
    {
        b.put_bytes(self.base_address.as_slice());
        b.put_u16_le(self.segment_number);
        b.put_u8(self.bus_number_start);
        b.put_u8(self.bus_number_end);
        b.put_bytes(self.reserved.as_slice());
        proof {
            assert(b@ =~= old(b)@ + space_bytes(self@));
        }
    }

    /// Re-encodes this sub-record as its 16 bytes.
    pub fn into_bytes(self) -> (r: Vec<u8>)
        ensures
            r@ == space_bytes(self@),
    {
        let mut b = Builder::with_capacity(16);
        self.write_to(&mut b);
        let r = b.into_vec();
        proof {
            assert(r@ =~= space_bytes(self@));
        }
        r
    }
}

/// The mathematical value of a [`MemoryMappedConfiguration`].
#[verifier::ext_equal]
pub ghost struct MemoryMappedConfigurationView {
    pub header: HeaderFields,
    pub reserved: Seq<u8>,
    pub spaces: Seq<MemoryMappedConfigurationSpaceView>,
}

/// The concatenation of each sub-record's 16 bytes, in sequence order.
pub open spec fn concat_space_bytes(ss: Seq<MemoryMappedConfigurationSpaceView>) -> Seq<u8>
    decreases ss.len(),
{
    if ss.len() == 0 {
        Seq::<u8>::empty()
    } else {
        space_bytes(ss[0]) + concat_space_bytes(ss.drop_first())
    }
}

/// The count of whole sub-records a `len`-byte payload holds after its
/// 8 reserved bytes; trailing bytes of a partial sub-record do not count.
pub open spec fn mcfg_space_count(len: int) -> int {
    (len - 8) / 16
}

pub open spec fn mcfg_decode_ok(raw: RawAcpiDataView) -> bool {
    raw.acpi_table_data.len() >= 8
}

pub open spec fn mcfg_decode_err(raw: RawAcpiDataView) -> Error {
    Error::Underrun(Field::Reserved)
}

/// The record read out of a raw table's payload: the 8 reserved bytes,
/// then one sub-record per whole 16-byte chunk, in input order; a trailing
/// partial chunk is silently dropped.
pub open spec fn mcfg_decoded(raw: RawAcpiDataView) -> MemoryMappedConfigurationView
    recommends
        mcfg_decode_ok(raw),
{
    let p = raw.acpi_table_data;
    MemoryMappedConfigurationView {
        header: raw.header,
        reserved: p.subrange(0, 8),
        spaces: Seq::new(
            mcfg_space_count(p.len() as int) as nat,
            |i: int| parse_space(p.subrange(8 + 16 * i, 24 + 16 * i)),
        ),
    }
}

/// The byte stream the record encodes to: the generic header, the reserved
/// block, then every sub-record's 16 bytes in sequence order.
pub open spec fn mcfg_bytes(v: MemoryMappedConfigurationView) -> Seq<u8> {
    header_bytes(v.header) + v.reserved + concat_space_bytes(v.spaces)
}

/// When the record survives a round trip: string fields fit their widths,
/// the reserved block is its full 8 bytes, and every sub-record is
/// well-formed.
pub open spec fn mcfg_wf(v: MemoryMappedConfigurationView) -> bool {
    &&& header_wf(v.header)
    &&& v.reserved.len() == 8
    &&& forall|i: int| 0 <= i < v.spaces.len() ==> space_wf(#[trigger] v.spaces[i])
}

/// Splitting a concatenation of sub-record encodings: it is 16 bytes per
/// sub-record, and each aligned 16-byte chunk is one sub-record's bytes.
pub proof fn lemma_concat_space_bytes(ss: Seq<MemoryMappedConfigurationSpaceView>)
    requires
        forall|i: int| 0 <= i < ss.len() ==> space_wf(#[trigger] ss[i]),
    ensures
        concat_space_bytes(ss).len() == 16 * ss.len(),
        forall|i: int|
            0 <= i < ss.len() ==> concat_space_bytes(ss).subrange(16 * i, 16 * i + 16)
                == space_bytes(#[trigger] ss[i]),
    decreases ss.len(),
{
    if ss.len() > 0 {
        lemma_space_round_trip(ss[0]);
        lemma_concat_space_bytes(ss.drop_first());
        let whole = concat_space_bytes(ss);
        let rest = concat_space_bytes(ss.drop_first());
        assert forall|i: int| 0 <= i < ss.len() implies whole.subrange(16 * i, 16 * i + 16)
            == space_bytes(#[trigger] ss[i]) by {
            if i == 0 {
                assert(whole.subrange(0, 16) =~= space_bytes(ss[0]));
            } else {
                assert(ss[i] == ss.drop_first()[i - 1]);
                assert(rest.subrange(16 * (i - 1), 16 * (i - 1) + 16) == space_bytes(
                    ss.drop_first()[i - 1],
                ));
                assert(whole.subrange(16 * i, 16 * i + 16) =~= rest.subrange(
                    16 * (i - 1),
                    16 * (i - 1) + 16,
                ));
            }
        }
    }
}

/// The memory-mapped configuration table: header fields, an 8-byte
/// reserved block, and an ordered sequence of configuration-space
/// sub-records. Sequence order is meaningful and preserved.
#[derive(Clone, Debug)]
pub struct MemoryMappedConfiguration {
    pub signature: String,
    pub length: u32,
    pub revision: u8,
    pub checksum: u8,
    pub oem_id: String,
    pub oem_table_id: String,
    pub oem_revision: u32,
    pub creator_id: u32,
    pub creator_revision: u32,
    pub reserved: Vec<u8>,
    pub spaces: Vec<MemoryMappedConfigurationSpace>,
}

impl View for MemoryMappedConfiguration {
    type V = MemoryMappedConfigurationView;

    open spec fn view(&self) -> MemoryMappedConfigurationView {
        MemoryMappedConfigurationView {
            header: HeaderFields {
                signature: self.signature@,
                length: self.length,
                revision: self.revision,
                checksum: self.checksum,
                oem_id: self.oem_id@,
                oem_table_id: self.oem_table_id@,
                oem_revision: self.oem_revision,
                creator_id: self.creator_id,
                creator_revision: self.creator_revision,
            },
            reserved: self.reserved@,
            spaces: Seq::new(self.spaces@.len(), |i: int| self.spaces@[i]@),
        }
    }
}

impl PartialEq for MemoryMappedConfiguration {
    fn eq(&self, other: &Self) -> (r: bool) {
        let r = self.signature == other.signature && self.length == other.length && self.revision
            == other.revision && self.checksum == other.checksum && self.oem_id == other.oem_id
            && self.oem_table_id == other.oem_table_id && self.oem_revision == other.oem_revision
            && self.creator_id == other.creator_id && self.creator_revision
            == other.creator_revision && self.reserved == other.reserved && self.spaces
            == other.spaces;
        proof {
            if r {
                assert(self@.spaces =~= other@.spaces);
                assert(self@ =~= other@);
            } else {
                if self@ == other@ {
                    assert(self@.spaces == other@.spaces);
                    assert(self@.spaces.len() == self.spaces@.len());
                    assert(other@.spaces.len() == other.spaces@.len());
                    assert(self.spaces@.len() == other.spaces@.len());
                    assert forall|i: int| 0 <= i < self.spaces@.len() implies self.spaces@[i]@
                        == other.spaces@[i]@ by {
                        assert(self@.spaces[i] == other@.spaces[i]);
                    }
                    assert(false);
                }
            }
        }
        r
    }
}

impl vstd::std_specs::cmp::PartialEqSpecImpl for MemoryMappedConfiguration {
    open spec fn obeys_eq_spec() -> bool {
        true
    }

    open spec fn eq_spec(&self, other: &Self) -> bool {
        self@ == other@
    }
}

impl AcpiTable for MemoryMappedConfiguration {
    open spec fn decode_ok(raw: RawAcpiDataView) -> bool {
        mcfg_decode_ok(raw)
    }

    open spec fn decoded(raw: RawAcpiDataView) -> MemoryMappedConfigurationView {
        mcfg_decoded(raw)
    }

    open spec fn decode_err(raw: RawAcpiDataView) -> Error {
        mcfg_decode_err(raw)
    }

    fn from_header(raw: RawAcpiData) -> (r: Result<Self, Error>) {
        let payload = raw.acpi_table_data.as_slice();
        let mut c = Cursor::new(payload);
        let reserved = match c.take_bytes(8, Field::Reserved) {
            Ok(v) => v,
            Err(e) => return Err(e),
        };
        let mut spaces: Vec<MemoryMappedConfigurationSpace> = Vec::new();
        while c.remaining() >= 16
            invariant
                c.wf(),
                c.data_seq() == raw.acpi_table_data@,
                c.data_seq().len() >= 8,
                c.position() == 8 + 16 * spaces@.len(),
                forall|i: int|
                    0 <= i < spaces@.len() ==> (#[trigger] spaces@[i])@ == parse_space(
                        c.data_seq().subrange(8 + 16 * i, 24 + 16 * i),
                    ),
            decreases c.data_seq().len() - c.position(),
        {
            let chunk = match c.take_bytes(16, Field::BaseAddress) {
                Ok(v) => v,
                Err(_) => unreached(),
            };
            let space = match MemoryMappedConfigurationSpace::from_bytes(chunk.as_slice()) {
                Ok(v) => v,
                Err(_) => unreached(),
            };
            spaces.push(space);
        }
        proof {
            let n = c.data_seq().len() as int;
            let k = spaces@.len() as int;
            assert(k == mcfg_space_count(n)) by (nonlinear_arith)
                requires
                    8 + 16 * k <= n < 24 + 16 * k,
                    k >= 0,
            ;
        }
        let t = MemoryMappedConfiguration {
            signature: raw.signature,
            length: raw.length,
            revision: raw.revision,
            checksum: raw.checksum,
            oem_id: raw.oem_id,
            oem_table_id: raw.oem_table_id,
            oem_revision: raw.oem_revision,
            creator_id: raw.creator_id,
            creator_revision: raw.creator_revision,
            reserved,
            spaces,
        };
        proof {
            assert(t@.spaces =~= mcfg_decoded(raw@).spaces);
            assert(t@ =~= mcfg_decoded(raw@));
        }
        Ok(t)
    }
}

impl MemoryMappedConfiguration {
    /// Re-encodes the record: the common header, the reserved block, then
    /// each sub-record's 16 bytes in sequence order.
    pub fn into_bytes(self) -> (r: Vec<u8>)
        ensures
            r@ == mcfg_bytes(self@),
    {
        let mut b = Builder::with_capacity(self.length as usize);
        put_header_fields(
            &mut b,
            self.signature.as_str(),
            self.length,
            self.revision,
            self.checksum,
            self.oem_id.as_str(),
            self.oem_table_id.as_str(),
            self.oem_revision,
            self.creator_id,
            self.creator_revision,
        );
        b.put_bytes(self.reserved.as_slice());
        let ghost prefix = b@;
        let mut i: usize = 0;
        while i < self.spaces.len()
            invariant
                i <= self.spaces@.len(),
                b@ == prefix + concat_space_bytes(self@.spaces.take(i as int)),
            decreases self.spaces@.len() - i,
        {
            self.spaces[i].write_to(&mut b);
            proof {
                lemma_concat_append(self@.spaces.take(i as int), seq![self@.spaces[i as int]]);
                assert(self@.spaces.take(i as int) + seq![self@.spaces[i as int]] =~= self
                    @.spaces.take(i as int + 1));
                let single = seq![self@.spaces[i as int]];
                assert(single.len() == 1);
                assert(single[0] == self@.spaces[i as int]);
                assert(single.drop_first()
                    =~= Seq::<MemoryMappedConfigurationSpaceView>::empty());
                assert(concat_space_bytes(single.drop_first()) == Seq::<u8>::empty());
                assert(concat_space_bytes(single) =~= space_bytes(self@.spaces[i as int]));
            }
            i = i + 1;
        }
        let r = b.into_vec();
        proof {
            assert(self@.spaces.take(self.spaces@.len() as int) =~= self@.spaces);
            assert(r@ =~= mcfg_bytes(self@));
        }
        r
    }
}

/// Concatenating sub-record encodings distributes over sequence
/// concatenation.
proof fn lemma_concat_append(
    a: Seq<MemoryMappedConfigurationSpaceView>,
    b: Seq<MemoryMappedConfigurationSpaceView>,
)
    ensures
        concat_space_bytes(a + b) == concat_space_bytes(a) + concat_space_bytes(b),
    decreases a.len(),
{
    if a.len() == 0 {
        assert(a + b =~= b);
        assert(concat_space_bytes(a) + concat_space_bytes(b) =~= concat_space_bytes(b));
    } else {
        lemma_concat_append(a.drop_first(), b);
        assert((a + b).drop_first() =~= a.drop_first() + b);
        assert(concat_space_bytes(a + b) =~= concat_space_bytes(a) + concat_space_bytes(b));
    }
}

/// The round trip: a well-formed memory-mapped configuration record,
/// encoded and decoded back through the generic header, is returned
/// unchanged — every sub-record, in the same order.
pub proof fn lemma_mcfg_round_trip(v: MemoryMappedConfigurationView)
    requires
        mcfg_wf(v),
    ensures
        mcfg_bytes(v).len() == 44 + 16 * v.spaces.len(),
        mcfg_decode_ok(parse_raw(mcfg_bytes(v))),
        mcfg_decoded(parse_raw(mcfg_bytes(v))) == v,
{
    lemma_concat_space_bytes(v.spaces);
    let body = v.reserved + concat_space_bytes(v.spaces);
    assert(mcfg_bytes(v) =~= header_bytes(v.header) + body);
    lemma_header_round_trip(v.header, body);
    let p = parse_raw(mcfg_bytes(v)).acpi_table_data;
    assert(p == body);
    assert(p.subrange(0, 8) =~= v.reserved);
    let k = v.spaces.len() as int;
    assert(mcfg_space_count(p.len() as int) == k) by (nonlinear_arith)
        requires
            p.len() == 8 + 16 * k,
            k >= 0,
    ;
    assert forall|i: int| 0 <= i < k implies parse_space(p.subrange(8 + 16 * i, 24 + 16 * i))
        == v.spaces[i] by {
        assert(p.subrange(8 + 16 * i, 24 + 16 * i) =~= concat_space_bytes(v.spaces).subrange(
            16 * i,
            16 * i + 16,
        ));
        lemma_space_round_trip(v.spaces[i]);
    }
    assert(mcfg_decoded(parse_raw(mcfg_bytes(v))).spaces =~= v.spaces);
    assert(mcfg_decoded(parse_raw(mcfg_bytes(v))) =~= v);
}

} // verus!
