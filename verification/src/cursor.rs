use vstd::prelude::*;

use crate::error::{Error, Field};
use crate::fixed_str::{decode_fixed_string, fixed_bytes, read_fixed_string, string_to_array};
use vstd::bytes::{
    spec_u16_from_le_bytes, spec_u16_to_le_bytes, spec_u32_from_le_bytes, spec_u32_to_le_bytes,
    u16_from_le_bytes, u16_to_le_bytes, u32_from_le_bytes, u32_to_le_bytes,
};
use vstd::slice::{slice_subrange, slice_to_vec};

verus! {

/// A forward-only read position over a byte buffer. Every extraction either
/// consumes exactly the bytes it names or fails with an underrun error that
/// names the field being read; nothing is ever read twice or skipped.
pub struct Cursor<'a> {
    data: &'a [u8],
    pos: usize,
}

impl<'a> Cursor<'a> {
    /// The whole buffer under the cursor.
    pub closed spec fn data_seq(&self) -> Seq<u8> {
        self.data@
    }

    /// The read position: everything before it has been consumed.
    pub closed spec fn position(&self) -> int {
        self.pos as int
    }

    pub open spec fn wf(&self) -> bool {
        self.position() <= self.data_seq().len()
    }

    pub open spec fn remaining_len(&self) -> int {
        self.data_seq().len() - self.position()
    }

    pub fn new(data: &'a [u8]) -> (r: Cursor<'a>)
        ensures
            r.data_seq() == data@,
            r.position() == 0,
            r.wf(),
    {
        Cursor { data, pos: 0 }
    }

    /// The count of unconsumed bytes.
    pub fn remaining(&self) -> (r: usize)
        requires
            self.wf(),
        ensures
            r == self.remaining_len(),
    {
        self.data.len() - self.pos
    }

    /// Consumes one byte.
    pub fn take_u8(&mut self, field: Field) -> (r: Result<u8, Error>)
        requires
            old(self).wf(),
        ensures
            final(self).wf(),
            final(self).data_seq() == old(self).data_seq(),
            match r {
                Ok(v) => {
                    &&& old(self).remaining_len() >= 1
                    &&& final(self).position() == old(self).position() + 1
                    &&& v == old(self).data_seq()[old(self).position()]
                },
                Err(e) => {
                    &&& old(self).remaining_len() < 1
                    &&& *final(self) == *old(self)
                    &&& e == Error::Underrun(field)
                },
            },
    {
        if self.pos < self.data.len() {
            let v = self.data[self.pos];
            self.pos = self.pos + 1;
            Ok(v)
        } else {
            Err(Error::Underrun(field))
        }
    }

    /// Consumes two bytes as a little-endian `u16`.
    pub fn take_u16_le(&mut self, field: Field) -> (r: Result<u16, Error>)
        requires
            old(self).wf(),
        ensures
            final(self).wf(),
            final(self).data_seq() == old(self).data_seq(),
            match r {
                Ok(v) => {
                    &&& old(self).remaining_len() >= 2
                    &&& final(self).position() == old(self).position() + 2
                    &&& v == spec_u16_from_le_bytes(
                        old(self).data_seq().subrange(
                            old(self).position(),
                            old(self).position() + 2,
                        ),
                    )
                },
                Err(e) => {
                    &&& old(self).remaining_len() < 2
                    &&& *final(self) == *old(self)
                    &&& e == Error::Underrun(field)
                },
            },
    {
        if self.data.len() - self.pos >= 2 {
            let v = u16_from_le_bytes(slice_subrange(self.data, self.pos, self.pos + 2));
            self.pos = self.pos + 2;
            Ok(v)
        } else {
            Err(Error::Underrun(field))
        }
    }

    /// Consumes four bytes as a little-endian `u32`.
    pub fn take_u32_le(&mut self, field: Field) -> (r: Result<u32, Error>)
        requires
            old(self).wf(),
        ensures
            final(self).wf(),
            final(self).data_seq() == old(self).data_seq(),
            match r {
                Ok(v) => {
                    &&& old(self).remaining_len() >= 4
                    &&& final(self).position() == old(self).position() + 4
                    &&& v == spec_u32_from_le_bytes(
                        old(self).data_seq().subrange(
                            old(self).position(),
                            old(self).position() + 4,
                        ),
                    )
                },
                Err(e) => {
                    &&& old(self).remaining_len() < 4
                    &&& *final(self) == *old(self)
                    &&& e == Error::Underrun(field)
                },
            },
    {
        if self.data.len() - self.pos >= 4 {
            let v = u32_from_le_bytes(slice_subrange(self.data, self.pos, self.pos + 4));
            self.pos = self.pos + 4;
            Ok(v)
        } else {
            Err(Error::Underrun(field))
        }
    }

    /// Consumes exactly `n` bytes as an opaque block.
    pub fn take_bytes(&mut self, n: usize, field: Field) -> (r: Result<Vec<u8>, Error>)
        requires
            old(self).wf(),
        ensures
            final(self).wf(),
            final(self).data_seq() == old(self).data_seq(),
            match r {
                Ok(v) => {
                    &&& old(self).remaining_len() >= n
                    &&& final(self).position() == old(self).position() + n
                    &&& v@ == old(self).data_seq().subrange(
                        old(self).position(),
                        old(self).position() + n,
                    )
                },
                Err(e) => {
                    &&& old(self).remaining_len() < n
                    &&& *final(self) == *old(self)
                    &&& e == Error::Underrun(field)
                },
            },
    {
        if self.data.len() - self.pos >= n {
            let v = slice_to_vec(slice_subrange(self.data, self.pos, self.pos + n));
            self.pos = self.pos + n;
            Ok(v)
        } else {
            Err(Error::Underrun(field))
        }
    }

    /// Consumes every unconsumed byte as one opaque block.
    pub fn take_remaining(&mut self) -> (r: Vec<u8>)
        requires
            old(self).wf(),
        ensures
            final(self).wf(),
            final(self).data_seq() == old(self).data_seq(),
            final(self).position() == old(self).data_seq().len(),
            r@ == old(self).data_seq().subrange(
                old(self).position(),
                old(self).data_seq().len() as int,
            ),
    {
        let v = slice_to_vec(slice_subrange(self.data, self.pos, self.data.len()));
        self.pos = self.data.len();
        v
    }

    /// Consumes exactly `n` bytes as a NUL-padded fixed-width string field.
    pub fn take_fixed_string(&mut self, n: usize, field: Field) -> (r: Result<String, Error>)
        requires
            old(self).wf(),
        ensures
            final(self).wf(),
            final(self).data_seq() == old(self).data_seq(),
            match r {
                Ok(v) => {
                    &&& old(self).remaining_len() >= n
                    &&& final(self).position() == old(self).position() + n
                    &&& v@ == read_fixed_string(
                        old(self).data_seq().subrange(
                            old(self).position(),
                            old(self).position() + n,
                        ),
                    )
                },
                Err(e) => {
                    &&& old(self).remaining_len() < n
                    &&& *final(self) == *old(self)
                    &&& e == Error::Underrun(field)
                },
            },
    {
        if self.data.len() - self.pos >= n {
            let v = decode_fixed_string(slice_subrange(self.data, self.pos, self.pos + n));
            self.pos = self.pos + n;
            Ok(v)
        } else {
            Err(Error::Underrun(field))
        }
    }
}

/// The companion of [`Cursor`] for encoding: appends fixed-width
/// little-endian integers, raw byte blocks, and NUL-padded fixed-width
/// strings to a growing byte buffer.
pub struct Builder {
    buf: Vec<u8>,
}

impl View for Builder {
    type V = Seq<u8>;

    closed spec fn view(&self) -> Seq<u8> {
        self.buf@
    }
}

impl Builder {
    /// An empty builder; `capacity` is an allocation hint only.
    pub fn with_capacity(capacity: usize) -> (r: Builder)
        ensures
            r@ == Seq::<u8>::empty(),
    {
        Builder { buf: Vec::with_capacity(capacity) }
    }

    /// Appends one byte.
    pub fn put_u8(&mut self, v: u8)
        ensures
            final(self)@ == old(self)@ + seq![v],
    {
        self.buf.push(v);
        proof {
            assert(final(self)@ =~= old(self)@ + seq![v]);
        }
    }

    /// Appends two bytes: `v` in little-endian order.
    pub fn put_u16_le(&mut self, v: u16)
        ensures
            final(self)@ == old(self)@ + spec_u16_to_le_bytes(v),
    {
        let bytes = u16_to_le_bytes(v);
        self.buf.extend_from_slice(bytes.as_slice());
    }

    /// Appends four bytes: `v` in little-endian order.
    pub fn put_u32_le(&mut self, v: u32)
        ensures
            final(self)@ == old(self)@ + spec_u32_to_le_bytes(v),
    {
        let bytes = u32_to_le_bytes(v);
        self.buf.extend_from_slice(bytes.as_slice());
    }

    /// Appends a byte block verbatim.
    pub fn put_bytes(&mut self, bytes: &[u8])
        ensures
            final(self)@ == old(self)@ + bytes@,
    {
        self.buf.extend_from_slice(bytes);
    }

    /// Appends a string as a fixed-width field of exactly `width` bytes:
    /// its UTF-8 encoding truncated to `width`, or NUL-padded up to it.
    pub fn put_fixed_string(&mut self, s: &str, width: usize)
        ensures
            final(self)@ == old(self)@ + fixed_bytes(s@, width as int),
    {
        let bytes = string_to_array(s, width);
        self.buf.extend_from_slice(bytes.as_slice());
    }

    /// The finished byte buffer.
    pub fn into_vec(self) -> (r: Vec<u8>)
        ensures
            r@ == self@,
    {
        self.buf
    }
}

} // verus!
