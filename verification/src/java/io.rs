use vstd::prelude::*;

verus! {

/// The two bytes of a value, most significant first.
pub open spec fn be16(v: u16) -> Seq<u8> {
    seq![(v >> 8u16) as u8, v as u8]
}

/// The four bytes of a value, most significant first.
pub open spec fn be32(v: u32) -> Seq<u8> {
    seq![(v >> 24u32) as u8, (v >> 16u32) as u8, (v >> 8u32) as u8, v as u8]
}

/// The eight bytes of a value, most significant first.
pub open spec fn be64(v: u64) -> Seq<u8> {
    be32((v >> 32u64) as u32) + be32(v as u32)
}

/// A growing buffer of bytes, written in the big-endian order of class files.
pub struct BinaryWriter {
    raw: Vec<u8>,
}

impl BinaryWriter {
    /// The bytes written so far.
    pub closed spec fn spec_bytes(&self) -> Seq<u8> {
        self.raw@
    }

    pub fn new() -> (r: BinaryWriter)
        ensures
            r.spec_bytes() == Seq::<u8>::empty(),
    {
        BinaryWriter { raw: Vec::new() }
    }

    pub fn take(self) -> (r: Vec<u8>)
        ensures
            r@ == self.spec_bytes(),
    {
        self.raw
    }

    pub fn u8(&mut self, val: u8)
        ensures
            final(self).spec_bytes() == old(self).spec_bytes().push(val),
    {
        self.raw.push(val);
    }

    pub fn i8(&mut self, val: i8)
        ensures
            final(self).spec_bytes() == old(self).spec_bytes().push(val as u8),
    {
        self.raw.push(val as u8);
    }

    pub fn u16(&mut self, val: u16)
        ensures
            final(self).spec_bytes() == old(self).spec_bytes() + be16(val),
    {
        self.raw.push((val >> 8) as u8);
        self.raw.push(val as u8);
        assert(self.raw@ =~= old(self).spec_bytes() + be16(val));
    }

    pub fn i16(&mut self, val: i16)
        ensures
            final(self).spec_bytes() == old(self).spec_bytes() + be16(val as u16),
    {
        self.u16(val as u16);
    }

    pub fn u32(&mut self, val: u32)
        ensures
            final(self).spec_bytes() == old(self).spec_bytes() + be32(val),
    {
        self.raw.push((val >> 24) as u8);
        self.raw.push((val >> 16) as u8);
        self.raw.push((val >> 8) as u8);
        self.raw.push(val as u8);
        assert(self.raw@ =~= old(self).spec_bytes() + be32(val));
    }

    pub fn i32(&mut self, val: i32)
        ensures
            final(self).spec_bytes() == old(self).spec_bytes() + be32(val as u32),
    {
        self.u32(val as u32);
    }

    pub fn u64(&mut self, val: u64)
        ensures
            final(self).spec_bytes() == old(self).spec_bytes() + be64(val),
    {
        self.u32((val >> 32) as u32);
        self.u32(val as u32);
        assert(self.raw@ =~= old(self).spec_bytes() + be64(val));
    }

    pub fn i64(&mut self, val: i64)
        ensures
            final(self).spec_bytes() == old(self).spec_bytes() + be64(val as u64),
    {
        self.u64(val as u64);
    }

    pub fn bytes(&mut self, data: &[u8])
        ensures
            final(self).spec_bytes() == old(self).spec_bytes() + data@,
    {
        let mut i: usize = 0;
        while i < data.len()
            invariant
                i <= data@.len(),
                self.raw@ == old(self).spec_bytes() + data@.take(i as int),
            decreases data@.len() - i,
        {
            self.raw.push(data[i]);
            assert(data@.take(i + 1) == data@.take(i as int).push(data@[i as int]));
            i += 1;
        }
        assert(data@.take(i as int) == data@);
    }

    pub fn len(&self) -> (r: usize)
        ensures
            r == self.spec_bytes().len(),
    {
        self.raw.len()
    }
}

} // verus!
