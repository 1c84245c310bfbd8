//! A source and a sink over fixed data, which speak the count-shaped
//! contract.

use vstd::prelude::*;
use vstd::utf8::{decode_utf8, valid_utf8};
use crate::error::{Error, Result};
use crate::initializer::Initializer;
use crate::outcome::min_nat;
use crate::read::{not_text, Read, ReadExt};
use crate::write::{write_zero, Write};
use crate::write_core::takes;

verus! {

/// A source that delivers fixed data, as much at a time as the buffer takes.
pub struct TypeImplementingRead {
    data: &'static [u8],
    i: usize,
}

impl TypeImplementingRead {
    /// The data that the source was made over.
    pub closed spec fn data(&self) -> Seq<u8> {
        self.data@
    }

    /// The number of bytes delivered so far.
    pub closed spec fn position(&self) -> nat {
        self.i as nat
    }

    /// A source that delivers `data` from its first byte.
    pub fn new(data: &'static [u8]) -> (r: Self)
        ensures
            Read::inv(&r),
            r.data() == data@,
            r.position() == 0,
            Read::pending(&r) == data@,
    {
        Self { data, i: 0 }
    }
}

impl Default for TypeImplementingRead {
    /// A source that delivers the three bytes `65, 66, 67`.
    fn default() -> (r: Self)
        ensures
            Read::inv(&r),
            Read::pending(&r) == seq![65u8, 66u8, 67u8],
    {
        let data: &'static [u8; 3] = &[65, 66, 67];
        let r = Self { data, i: 0 };
        proof {
            assert(Read::pending(&r) == seq![65u8, 66u8, 67u8]);
        }
        r
    }
}

impl Read for TypeImplementingRead {
    open spec fn inv(&self) -> bool {
        self.position() <= self.data().len()
    }

    open spec fn pending(&self) -> Seq<u8> {
        self.data().skip(self.position() as int)
    }

    open spec fn stalls(&self) -> nat {
        0
    }

    open spec fn faultless(&self) -> bool {
        true
    }

    open spec fn raises(&self, e: Error) -> bool {
        false
    }

    open spec fn zeroes(&self) -> bool {
        true
    }

    /// Moves as many bytes as are both pending and asked for, and returns
    /// their number. The rest of the buffer stays as it was.
    fn read(&mut self, buf: &mut [u8]) -> (res: Result<usize>)
        ensures
            res matches Ok(n) && n == min_nat(old(buf)@.len(), Read::pending(old(self)).len()),
            final(self).data() == old(self).data(),
            Read::pending(final(self)) == Read::pending(old(self)).skip(
                min_nat(old(buf)@.len(), Read::pending(old(self)).len()) as int,
            ),
            final(buf)@.skip(min_nat(old(buf)@.len(), Read::pending(old(self)).len()) as int)
                == old(buf)@.skip(min_nat(old(buf)@.len(), Read::pending(old(self)).len()) as int),
    {
        let len: usize = buf.len();
        let left: usize = self.data.len() - self.i;
        let count: usize = if len <= left {
            len
        } else {
            left
        };
        let mut written: usize = 0;
        while written < count
            invariant
                written <= count,
                count <= len,
                count <= self.data@.len() - self.i,
                self.data@.len() <= usize::MAX,
                buf@.len() == len,
                old(buf)@.len() == len,
                self.i == old(self).i,
                self.data == old(self).data,
                forall|j: int| 0 <= j < written ==> buf@[j] == self.data@[self.i + j],
                forall|j: int| count <= j < len ==> buf@[j] == old(buf)@[j],
            decreases count - written,
        {
            buf[written] = self.data[self.i + written];
            written += 1;
        }
        proof {
            assert(buf@.take(count as int) == Read::pending(old(self)).take(count as int));
            assert(buf@.skip(count as int) == old(buf)@.skip(count as int));
            assert(self.data@.skip(self.i as int).skip(count as int) == self.data@.skip(
                self.i + count,
            ));
        }
        self.i += written;
        Ok(written)
    }

    fn initializer(&self) -> (i: Initializer) {
        Initializer::zeroing()
    }
}

/// Reads everything that `reader` has left and returns it as text, for the
/// caller to show.
///
/// A faultless source gives its text exactly when its bytes are well-formed
/// text.
pub fn fun_req_read<R: Read>(reader: R) -> (res: Result<String>)
    requires
        reader.inv(),
        reader.pending().len() <= usize::MAX,
    ensures
        res matches Ok(data) ==> valid_utf8(reader.pending()) && data@ == decode_utf8(
            reader.pending(),
        ),
        reader.faultless() ==> (res is Ok <==> valid_utf8(reader.pending())),
        res matches Err(e) ==> reader.raises(e) || e == not_text(),
{
    let ghost bytes = reader.pending();
    let mut source = reader;
    let mut data = String::new();
    match ReadExt::read_to_string(&mut source, &mut data) {
        Ok(_) => {
            proof {
                assert(bytes.take(bytes.len() as int) == bytes);
                assert(data@ == Seq::<char>::empty() + decode_utf8(bytes));
            }
            Ok(data)
        },
        Err(e) => Err(e),
    }
}

/// Writes the three bytes `0, 1, 2` to `writer` and returns it, for the
/// caller to show.
///
/// Whatever the result, the sink has taken a prefix of the three bytes, all
/// of them on success. A faultless sink takes them exactly when it has room
/// for three bytes.
pub fn fun_req_write<W: Write>(writer: W) -> (res: (W, Result<()>))
    requires
        writer.inv(),
    ensures
        res.0.inv(),
        takes(
            writer.written(),
            res.0.written(),
            writer.room(),
            res.0.room(),
            seq![0u8, 1u8, 2u8],
            res.1 is Ok,
        ),
        writer.faultless() ==> (res.1 is Ok <==> 3 <= writer.room()),
        res.1 matches Err(e) ==> writer.raises(e) || e == write_zero(),
{
    let mut sink = writer;
    let data: [u8; 3] = [0, 1, 2];
    proof {
        assert(data@ == seq![0u8, 1u8, 2u8]);
    }
    let done = Write::write_all(&mut sink, &data);
    (sink, done)
}

/// A sink with room for three bytes.
#[derive(Debug)]
pub struct TypeImplementingWrite {
    data: [u8; 3],
    i: usize,
}

impl TypeImplementingWrite {
    /// The three bytes of the sink's storage.
    pub closed spec fn storage(&self) -> Seq<u8> {
        self.data@
    }

    /// The number of bytes taken so far.
    pub closed spec fn position(&self) -> nat {
        self.i as nat
    }

    /// The sink's storage: the bytes taken so far, and behind them what the
    /// storage held before.
    pub fn contents(&self) -> (data: [u8; 3])
        ensures
            data@ == self.storage(),
    {
        self.data
    }

    /// The number of bytes taken so far.
    pub fn len(&self) -> (n: usize)
        ensures
            n == self.position(),
    {
        self.i
    }
}

impl Default for TypeImplementingWrite {
    /// An empty sink, whose storage holds `65, 66, 67` until it is written
    /// over.
    fn default() -> (w: Self)
        ensures
            Write::inv(&w),
            w.storage() == seq![65u8, 66u8, 67u8],
            Write::written(&w) == Seq::<u8>::empty(),
            Write::room(&w) == 3,
    {
        let w = Self { data: [65, 66, 67], i: 0 };
        proof {
            assert(w.storage() == seq![65u8, 66u8, 67u8]);
            assert(Write::written(&w) == Seq::<u8>::empty());
        }
        w
    }
}

impl Write for TypeImplementingWrite {
    open spec fn inv(&self) -> bool {
        self.position() <= 3 && self.storage().len() == 3
    }

    open spec fn written(&self) -> Seq<u8> {
        self.storage().take(self.position() as int)
    }

    open spec fn room(&self) -> nat {
        (3 - self.position()) as nat
    }

    /// A byte is durable as soon as it is taken: it goes straight into the
    /// storage.
    open spec fn settled(&self) -> nat {
        self.position()
    }

    open spec fn stalls(&self) -> nat {
        0
    }

    open spec fn faultless(&self) -> bool {
        true
    }

    open spec fn raises(&self, e: Error) -> bool {
        false
    }

    /// Takes as many bytes as there is both room for and data of, and returns
    /// their number. What the storage holds behind the bytes taken stays as it
    /// was.
    fn write(&mut self, buf: &[u8]) -> (res: Result<usize>)
        ensures
            res matches Ok(n) && n == min_nat(buf@.len(), Write::room(old(self))),
            final(self).storage().skip(final(self).position() as int) == old(self).storage().skip(
                final(self).position() as int,
            ),
    {
        let len: usize = buf.len();
        let left: usize = 3 - self.i;
        let count: usize = if len <= left {
            len
        } else {
            left
        };
        let mut written: usize = 0;
        while written < count
            invariant
                written <= count,
                count <= len,
                count <= 3 - self.i,
                len == buf@.len(),
                self.i == old(self).i,
                self.data@.len() == 3,
                forall|j: int| 0 <= j < self.i ==> self.data@[j] == old(self).data@[j],
                forall|j: int| 0 <= j < written ==> self.data@[self.i + j] == buf@[j],
                forall|j: int| self.i + count <= j < 3 ==> self.data@[j] == old(self).data@[j],
            decreases count - written,
        {
            self.data[self.i + written] = buf[written];
            written += 1;
        }
        self.i += written;
        proof {
            assert(Write::written(self) == Write::written(old(self)) + buf@.take(count as int));
            assert(Write::settled(self) >= Write::settled(old(self)));
            assert(self.storage().skip(self.position() as int) == old(self).storage().skip(
                self.position() as int,
            ));
        }
        Ok(written)
    }

    /// Nothing is held back, so there is nothing to do.
    fn flush(&mut self) -> (res: Result<()>) {
        Ok(())
    }
}

} // verus!
