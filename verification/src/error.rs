use vstd::prelude::*;

verus! {

/// Names the field a codec was reading when its input ran out, so that an
/// underrun error can point at the exact spot in the table layout.
#[derive(Clone, Copy, Debug, PartialEq, Eq, Structural)]
pub enum Field {
    Signature,
    Length,
    Revision,
    Checksum,
    OemId,
    OemTableId,
    OemRevision,
    CreatorId,
    CreatorRevision,
    Version,
    Status,
    ImageType,
    ImageAddress,
    ImageOffsetX,
    ImageOffsetY,
    Reserved,
    BaseAddress,
    SegmentNumber,
    BusNumberStart,
    BusNumberEnd,
    Identifier,
    DataOffset,
    SwSmiNumber,
    BufferPtrAddress,
    InvocationRegister,
}

/// Every failure a caller can see: a decode that ran out of bytes while
/// reading a named field, a table signature the byte source does not know,
/// or a failure of the byte source itself.
#[derive(Clone, Copy, Debug, PartialEq, Eq, Structural)]
pub enum Error {
    Underrun(Field),
    NotFound,
    SourceIo,
}

} // verus!
