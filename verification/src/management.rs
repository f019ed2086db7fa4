use vstd::prelude::*;

use crate::cursor::{Builder, Cursor};
use crate::error::{Error, Field};
use crate::header::{
    header_bytes, header_wf, lemma_header_round_trip, parse_raw, put_header_fields, HeaderFields,
    RawAcpiData, RawAcpiDataView,
};
use crate::AcpiTable;
use vstd::bytes::{
    lemma_auto_spec_u16_to_from_le_bytes, lemma_auto_spec_u32_to_from_le_bytes,
    spec_u16_from_le_bytes, spec_u16_to_le_bytes, spec_u32_from_le_bytes, spec_u32_to_le_bytes,
};

verus! {

/// The mathematical value of a [`SystemManagementModeCommunication`].
#[verifier::ext_equal]
pub ghost struct SystemManagementModeCommunicationView {
    pub header: HeaderFields,
    pub identifier: Seq<u8>,
    pub data_offset: u16,
    pub sw_smi_number: u32,
    pub buffer_prt_address: Seq<u8>,
    pub invocation_register: Option<Seq<u8>>,
}

/// The fixed prefix of this table's payload: a 16-byte identifier, the
/// data offset, the SMI number, and an 8-byte buffer pointer address.
pub open spec fn smm_prefix_len() -> int {
    30
}

/// The width of the optional trailing invocation register.
pub open spec fn smm_register_len() -> int {
    12
}

/// The payload field a decode of a `len`-byte payload runs out of bytes
/// in. The invocation register underruns only when some bytes follow the
/// fixed prefix but fewer than its full width.
pub open spec fn smm_underrun_field(len: int) -> Field {
    if len < 16 {
        Field::Identifier
    } else if len < 18 {
        Field::DataOffset
    } else if len < 22 {
        Field::SwSmiNumber
    } else if len < 30 {
        Field::BufferPtrAddress
    } else {
        Field::InvocationRegister
    }
}

/// The payload must cover the fixed prefix; any bytes after it must cover
/// the whole invocation register.
pub open spec fn smm_decode_ok(raw: RawAcpiDataView) -> bool {
    let len = raw.acpi_table_data.len() as int;
    len == smm_prefix_len() || len >= smm_prefix_len() + smm_register_len()
}

pub open spec fn smm_decode_err(raw: RawAcpiDataView) -> Error {
    Error::Underrun(smm_underrun_field(raw.acpi_table_data.len() as int))
}

/// The record read out of a raw table's payload: the fixed prefix in
/// strict order, then the invocation register exactly when any payload
/// bytes remain after the prefix.
pub open spec fn smm_decoded(raw: RawAcpiDataView) -> SystemManagementModeCommunicationView
    recommends
        smm_decode_ok(raw),
{
    let p = raw.acpi_table_data;
    SystemManagementModeCommunicationView {
        header: raw.header,
        identifier: p.subrange(0, 16),
        data_offset: spec_u16_from_le_bytes(p.subrange(16, 18)),
        sw_smi_number: spec_u32_from_le_bytes(p.subrange(18, 22)),
        buffer_prt_address: p.subrange(22, 30),
        invocation_register: if p.len() == smm_prefix_len() {
            None
        } else {
            Some(p.subrange(30, 42))
        },
    }
}

/// The byte stream the record encodes to. An absent invocation register
/// emits nothing at all, preserving the exact round-trip length.
pub open spec fn smm_bytes(v: SystemManagementModeCommunicationView) -> Seq<u8> {
    header_bytes(v.header) + v.identifier + spec_u16_to_le_bytes(v.data_offset)
        + spec_u32_to_le_bytes(v.sw_smi_number) + v.buffer_prt_address + (
    match v.invocation_register {
        Some(reg) => reg,
        None => Seq::<u8>::empty(),
    })
}

/// When the record survives a round trip: string fields fit their widths
/// and every opaque block is its full declared width.
pub open spec fn smm_wf(v: SystemManagementModeCommunicationView) -> bool {
    &&& header_wf(v.header)
    &&& v.identifier.len() == 16
    &&& v.buffer_prt_address.len() == 8
    &&& match v.invocation_register {
        Some(reg) => reg.len() == smm_register_len(),
        None => true,
    }
}

/// The management-mode communication table: header fields, a fixed prefix
/// describing the communication buffer, and an optional trailing
/// invocation register whose presence depends on the payload length.
#[derive(Clone, Debug)]
pub struct SystemManagementModeCommunication {
    pub signature: String,
    pub length: u32,
    pub revision: u8,
    pub checksum: u8,
    pub oem_id: String,
    pub oem_table_id: String,
    pub oem_revision: u32,
    pub creator_id: u32,
    pub creator_revision: u32,
    pub identifier: Vec<u8>,
    pub data_offset: u16,
    pub sw_smi_number: u32,
    pub buffer_prt_address: Vec<u8>,
    pub invocation_register: Option<Vec<u8>>,
}

impl View for SystemManagementModeCommunication {
    type V = SystemManagementModeCommunicationView;

    open spec fn view(&self) -> SystemManagementModeCommunicationView {
        SystemManagementModeCommunicationView {
            header: HeaderFields {
                signature: self.signature@,
                length: self.length,
                revision: self.revision,
                checksum: self.checksum,
                oem_id: self.oem_id@,
                oem_table_id: self.oem_table_id@,
                oem_revision: self.oem_revision,
                creator_id: self.creator_id,
                creator_revision: self.creator_revision,
            },
            identifier: self.identifier@,
            data_offset: self.data_offset,
            sw_smi_number: self.sw_smi_number,
            buffer_prt_address: self.buffer_prt_address@,
            invocation_register: match self.invocation_register {
                Some(reg) => Some(reg@),
                None => None,
            },
        }
    }
}

impl PartialEq for SystemManagementModeCommunication {
    fn eq(&self, other: &Self) -> (r: bool) {
        let regs_eq = match (&self.invocation_register, &other.invocation_register) {
            (Some(a), Some(b)) => a == b,
            (None, None) => true,
            _ => false,
        };
        let r = regs_eq && self.signature == other.signature && self.length == other.length
            && self.revision == other.revision && self.checksum == other.checksum && self.oem_id
            == other.oem_id && self.oem_table_id == other.oem_table_id && self.oem_revision
            == other.oem_revision && self.creator_id == other.creator_id && self.creator_revision
            == other.creator_revision && self.identifier == other.identifier && self.data_offset
            == other.data_offset && self.sw_smi_number == other.sw_smi_number
            && self.buffer_prt_address == other.buffer_prt_address;
        proof {
            if r {
                assert(self@ =~= other@);
            }
        }
        r
    }
}

impl vstd::std_specs::cmp::PartialEqSpecImpl for SystemManagementModeCommunication {
    open spec fn obeys_eq_spec() -> bool {
        true
    }

    open spec fn eq_spec(&self, other: &Self) -> bool {
        self@ == other@
    }
}

impl AcpiTable for SystemManagementModeCommunication {
    open spec fn decode_ok(raw: RawAcpiDataView) -> bool {
        smm_decode_ok(raw)
    }

    open spec fn decoded(raw: RawAcpiDataView) -> SystemManagementModeCommunicationView {
        smm_decoded(raw)
    }

    open spec fn decode_err(raw: RawAcpiDataView) -> Error {
        smm_decode_err(raw)
    }

    fn from_header(raw: RawAcpiData) -> (r: Result<Self, Error>) {
        let mut c = Cursor::new(raw.acpi_table_data.as_slice());
        let identifier = match c.take_bytes(16, Field::Identifier) {
            Ok(v) => v,
            Err(e) => return Err(e),
        };
        let data_offset = match c.take_u16_le(Field::DataOffset) {
            Ok(v) => v,
            Err(e) => return Err(e),
        };
        let sw_smi_number = match c.take_u32_le(Field::SwSmiNumber) {
            Ok(v) => v,
            Err(e) => return Err(e),
        };
        let buffer_prt_address = match c.take_bytes(8, Field::BufferPtrAddress) {
            Ok(v) => v,
            Err(e) => return Err(e),
        };
        let invocation_register = if c.remaining() > 0 {
            match c.take_bytes(12, Field::InvocationRegister) {
                Ok(v) => Some(v),
                Err(e) => return Err(e),
            }
        } else {
            None
        };
        let t = SystemManagementModeCommunication {
            signature: raw.signature,
            length: raw.length,
            revision: raw.revision,
            checksum: raw.checksum,
            oem_id: raw.oem_id,
            oem_table_id: raw.oem_table_id,
            oem_revision: raw.oem_revision,
            creator_id: raw.creator_id,
            creator_revision: raw.creator_revision,
            identifier,
            data_offset,
            sw_smi_number,
            buffer_prt_address,
            invocation_register,
        };
        proof {
            assert(t@ =~= smm_decoded(raw@));
        }
        Ok(t)
    }
}

impl SystemManagementModeCommunication {
    /// Re-encodes the record: the common header, the fixed prefix, and the
    /// invocation register only when it is present.
    pub fn into_bytes(self) -> (r: Vec<u8>)
        ensures
            r@ == smm_bytes(self@),
    {
        let mut b = Builder::with_capacity(self.length as usize);
        put_header_fields(
            &mut b,
            self.signature.as_str(),
            self.length,
            self.revision,
            self.checksum,
            self.oem_id.as_str(),
            self.oem_table_id.as_str(),
            self.oem_revision,
            self.creator_id,
            self.creator_revision,
        );
        b.put_bytes(self.identifier.as_slice());
        b.put_u16_le(self.data_offset);
        b.put_u32_le(self.sw_smi_number);
        b.put_bytes(self.buffer_prt_address.as_slice());
        match &self.invocation_register {
            Some(reg) => b.put_bytes(reg.as_slice()),
            None => (),
        }
        let r = b.into_vec();
        proof {
            assert(r@ =~= smm_bytes(self@));
        }
        r
    }
}

/// The round trip: a well-formed management-mode communication record,
/// encoded and decoded back through the generic header, is returned
/// unchanged — with the invocation register present exactly when it was.
pub proof fn lemma_smm_round_trip(v: SystemManagementModeCommunicationView)
    requires
        smm_wf(v),
    ensures
        smm_bytes(v).len() == 36 + smm_prefix_len() + (
        match v.invocation_register {
            Some(_) => smm_register_len(),
            None => 0,
        }),
        smm_decode_ok(parse_raw(smm_bytes(v))),
        smm_decoded(parse_raw(smm_bytes(v))) == v,
{
    lemma_auto_spec_u16_to_from_le_bytes();
    lemma_auto_spec_u32_to_from_le_bytes();
    let body = v.identifier + spec_u16_to_le_bytes(v.data_offset) + spec_u32_to_le_bytes(
        v.sw_smi_number,
    ) + v.buffer_prt_address + (match v.invocation_register {
        Some(reg) => reg,
        None => Seq::<u8>::empty(),
    });
    assert(smm_bytes(v) =~= header_bytes(v.header) + body);
    lemma_header_round_trip(v.header, body);
    let p = parse_raw(smm_bytes(v)).acpi_table_data;
    assert(p == body);
    assert(p.subrange(0, 16) =~= v.identifier);
    assert(p.subrange(16, 18) =~= spec_u16_to_le_bytes(v.data_offset));
    assert(p.subrange(18, 22) =~= spec_u32_to_le_bytes(v.sw_smi_number));
    assert(p.subrange(22, 30) =~= v.buffer_prt_address);
    match v.invocation_register {
        Some(reg) => {
            assert(p.subrange(30, 42) =~= reg);
        },
        None => {},
    }
    assert(smm_decoded(parse_raw(smm_bytes(v))) =~= v);
}

} // verus!
