//! A codec for firmware-provided ACPI tables: the generic 36-byte header
//! every table shares, a forward-only binary cursor for each table's
//! payload, and typed records for the boot graphics resource, the
//! memory-mapped configuration list, and the management-mode communication
//! descriptor. Decoding never panics: running out of bytes is an error
//! naming the field being read, and every codec round-trips bit-exact.
use vstd::prelude::*;

pub mod boot_graphics;
pub mod cursor;
pub mod error;
pub mod fixed_str;
pub mod header;
pub mod listing;
pub mod management;
pub mod mem_config;

pub use boot_graphics::BootGraphicsResource;
pub use error::Error;
pub use fixed_str::string_to_array;
pub use listing::table_types;
pub use header::RawAcpiData;
pub use management::SystemManagementModeCommunication;
pub use mem_config::{MemoryMappedConfiguration, MemoryMappedConfigurationSpace};

use crate::header::{header_underrun_field, parse_raw, RawAcpiDataView};

verus! {

/// The capability a typed table must offer to be produced by [`get`]:
/// constructible from a decoded raw table. Each implementation pins down,
/// in its three spec functions, exactly which raw tables it accepts, the
/// record they decode to, and the error the rest are refused with.
pub trait AcpiTable: View + Sized {
    /// When decoding from the given raw table succeeds.
    spec fn decode_ok(raw: RawAcpiDataView) -> bool;

    /// The record a successful decode yields.
    spec fn decoded(raw: RawAcpiDataView) -> Self::V;

    /// The error a failing decode yields.
    spec fn decode_err(raw: RawAcpiDataView) -> Error;

    /// Copies the nine common header fields verbatim and consumes the
    /// payload in the table's fixed field order.
    fn from_header(raw: RawAcpiData) -> (r: Result<Self, Error>)
        ensures
            match r {
                Ok(t) => Self::decode_ok(raw@) && t@ == Self::decoded(raw@),
                Err(e) => !Self::decode_ok(raw@) && e == Self::decode_err(raw@),
            },
    ;
}

/// A raw table is trivially constructible from itself, so [`get`] can also
/// hand back the undecoded header-plus-payload form.
impl AcpiTable for RawAcpiData {
    open spec fn decode_ok(raw: RawAcpiDataView) -> bool {
        true
    }

    open spec fn decoded(raw: RawAcpiDataView) -> RawAcpiDataView {
        raw
    }

    open spec fn decode_err(raw: RawAcpiDataView) -> Error {
        arbitrary()
    }

    fn from_header(raw: RawAcpiData) -> (r: Result<Self, Error>) {
        Ok(raw)
    }
}

/// Decodes a complete table byte stream into the requested typed record:
/// the generic header first, then the table-specific payload. The byte
/// source that produced `bytes` stays outside this crate.
pub fn get<T: AcpiTable>(bytes: &[u8]) -> (r: Result<T, Error>)
    ensures
        match r {
            Ok(t) => {
                &&& bytes@.len() >= 36
                &&& T::decode_ok(parse_raw(bytes@))
                &&& t@ == T::decoded(parse_raw(bytes@))
            },
            Err(e) => {
                if bytes@.len() < 36 {
                    e == Error::Underrun(header_underrun_field(bytes@.len() as int))
                } else {
                    !T::decode_ok(parse_raw(bytes@)) && e == T::decode_err(parse_raw(bytes@))
                }
            },
        },
{
    let raw = match RawAcpiData::from_bytes(bytes) {
        Ok(v) => v,
        Err(e) => return Err(e),
    };
    T::from_header(raw)
}

} // verus!
