//! A source and a sink over fixed data, which speak the outcome protocol
//! directly.

use vstd::prelude::*;
use vstd::std_specs::convert::FromSpecImpl;
use crate::initializer::Initializer;
use crate::outcome::{
    made_from, min_nat, FormatterError, InvalidUtf8, OpRes, UnexpectedEndOfFile,
};
use vstd::utf8::{decode_utf8, valid_utf8};
use crate::read_alloc::ReadAlloc;
use crate::read_core::ReadCore;
use crate::write_core::{takes, WriteCore};

verus! {

/// The canonical failures, and nothing else.
#[derive(Debug, Clone, Copy, PartialEq, Eq, Structural)]
pub enum TypeImplementingCoreError {
    InvalidUtf8,
    UnexpectedEof,
    FormatterError,
}

impl From<InvalidUtf8> for TypeImplementingCoreError {
    fn from(_e: InvalidUtf8) -> (r: Self) {
        Self::InvalidUtf8
    }
}

impl FromSpecImpl<InvalidUtf8> for TypeImplementingCoreError {
    open spec fn obeys_from_spec() -> bool {
        true
    }

    open spec fn from_spec(_e: InvalidUtf8) -> Self {
        Self::InvalidUtf8
    }
}

impl From<UnexpectedEndOfFile> for TypeImplementingCoreError {
    fn from(_e: UnexpectedEndOfFile) -> (r: Self) {
        Self::UnexpectedEof
    }
}

impl FromSpecImpl<UnexpectedEndOfFile> for TypeImplementingCoreError {
    open spec fn obeys_from_spec() -> bool {
        true
    }

    open spec fn from_spec(_e: UnexpectedEndOfFile) -> Self {
        Self::UnexpectedEof
    }
}

impl From<FormatterError> for TypeImplementingCoreError {
    fn from(_e: FormatterError) -> (r: Self) {
        Self::FormatterError
    }
}

impl FromSpecImpl<FormatterError> for TypeImplementingCoreError {
    open spec fn obeys_from_spec() -> bool {
        true
    }

    open spec fn from_spec(_e: FormatterError) -> Self {
        Self::FormatterError
    }
}

/// A source that delivers fixed data, as much at a time as the buffer takes.
pub struct TypeImplementingReadCore {
    data: &'static [u8],
    i: usize,
}

impl TypeImplementingReadCore {
    /// The data that the source was made over.
    pub closed spec fn data(&self) -> Seq<u8> {
        self.data@
    }

    /// The number of bytes delivered so far.
    pub closed spec fn position(&self) -> nat {
        self.i as nat
    }

    /// A source that delivers `data` from its first byte.
    pub fn new(data: &'static [u8]) -> (r: Self)
        ensures
            r.inv(),
            r.data() == data@,
            r.position() == 0,
            r.pending() == data@,
    {
        Self { data, i: 0 }
    }
}

impl Default for TypeImplementingReadCore {
    /// A source that delivers the three bytes `65, 66, 67`.
    fn default() -> (r: Self)
        ensures
            r.inv(),
            r.pending() == seq![65u8, 66u8, 67u8],
    {
        let data: &'static [u8; 3] = &[65, 66, 67];
        let r = Self { data, i: 0 };
        proof {
            assert(r.pending() == seq![65u8, 66u8, 67u8]);
        }
        r
    }
}

impl ReadCore for TypeImplementingReadCore {
    type Err = TypeImplementingCoreError;

    open spec fn inv(&self) -> bool {
        self.position() <= self.data().len()
    }

    open spec fn pending(&self) -> Seq<u8> {
        self.data().skip(self.position() as int)
    }

    open spec fn stalls(&self) -> nat {
        0
    }

    open spec fn faultless(&self) -> bool {
        true
    }

    open spec fn raises(&self, e: Self::Err) -> bool {
        false
    }

    open spec fn zeroes(&self) -> bool {
        true
    }

    /// Moves as many bytes as are both pending and asked for, and says so
    /// exactly: nothing moved is the end, the whole buffer a complete
    /// transfer, anything between a partial one. The rest of the buffer stays
    /// as it was.
    fn read(&mut self, buf: &mut [u8]) -> (res: Result<OpRes, Self::Err>)
        ensures
            res == Ok::<OpRes, Self::Err>(
                OpRes::of_count(
                    min_nat(old(buf)@.len(), old(self).pending().len()),
                    old(buf)@.len(),
                ),
            ),
            final(self).data() == old(self).data(),
            final(self).pending() == old(self).pending().skip(
                min_nat(old(buf)@.len(), old(self).pending().len()) as int,
            ),
            final(buf)@.skip(min_nat(old(buf)@.len(), old(self).pending().len()) as int)
                == old(buf)@.skip(min_nat(old(buf)@.len(), old(self).pending().len()) as int),
    {
        let len: usize = buf.len();
        let left: usize = self.data.len() - self.i;
        let count: usize = if len <= left {
            len
        } else {
            left
        };
        let mut written: usize = 0;
        while written < count
            invariant
                written <= count,
                count <= len,
                count <= self.data@.len() - self.i,
                self.data@.len() <= usize::MAX,
                buf@.len() == len,
                old(buf)@.len() == len,
                self.i == old(self).i,
                self.data == old(self).data,
                forall|j: int| 0 <= j < written ==> buf@[j] == self.data@[self.i + j],
                forall|j: int| count <= j < len ==> buf@[j] == old(buf)@[j],
            decreases count - written,
        {
            buf[written] = self.data[self.i + written];
            written += 1;
        }
        proof {
            assert(buf@.take(count as int) == old(self).pending().take(count as int));
            assert(buf@.skip(count as int) == old(buf)@.skip(count as int));
            assert(self.data@.skip(self.i as int).skip(count as int) == self.data@.skip(
                self.i + count,
            ));
        }
        self.i += written;
        Ok(OpRes::from_count(written, len))
    }

    fn initializer(&self) -> (i: Initializer) {
        Initializer::zeroing()
    }
}

impl ReadAlloc for TypeImplementingReadCore {

}

/// Reads everything that `reader` has left and returns it as text, for the
/// caller to show.
///
/// A faultless source gives its text exactly when its bytes are well-formed
/// text.
pub fn fun_req_read_ext<R: ReadAlloc>(reader: R) -> (res: Result<String, R::Err>)
    requires
        reader.inv(),
        reader.pending().len() <= usize::MAX,
    ensures
        res matches Ok(data) ==> valid_utf8(reader.pending()) && data@ == decode_utf8(
            reader.pending(),
        ),
        reader.faultless() ==> (res is Ok <==> valid_utf8(reader.pending())),
        res matches Err(e) ==> reader.raises(e) || made_from(InvalidUtf8, e),
{
    let ghost bytes = reader.pending();
    let mut source = reader;
    let mut data = String::new();
    match ReadAlloc::read_to_string(&mut source, &mut data) {
        Ok(()) => {
            proof {
                assert(data@ == Seq::<char>::empty() + decode_utf8(bytes));
            }
            Ok(data)
        },
        Err(e) => Err(e),
    }
}

/// Writes the three bytes `0, 1, 2` to `writer` and returns it, for the
/// caller to show.
///
/// Whatever the result, the sink has taken a prefix of the three bytes, all
/// of them on success. A faultless sink takes them exactly when it has room
/// for three bytes.
pub fn fun_req_write<W: WriteCore>(writer: W) -> (res: (W, Result<(), W::Err>))
    requires
        writer.inv(),
    ensures
        res.0.inv(),
        takes(
            writer.written(),
            res.0.written(),
            writer.room(),
            res.0.room(),
            seq![0u8, 1u8, 2u8],
            res.1 is Ok,
        ),
        writer.faultless() ==> (res.1 is Ok <==> 3 <= writer.room()),
        res.1 matches Err(e) ==> writer.raises(e) || made_from(UnexpectedEndOfFile, e),
{
    let mut sink = writer;
    let data: [u8; 3] = [0, 1, 2];
    proof {
        assert(data@ == seq![0u8, 1u8, 2u8]);
    }
    let done = WriteCore::write_all(&mut sink, &data);
    (sink, done)
}

/// A sink with room for three bytes.
#[derive(Debug)]
pub struct TypeImplementingWriteCore {
    data: [u8; 3],
    i: usize,
}

impl TypeImplementingWriteCore {
    /// The three bytes of the sink's storage.
    pub closed spec fn storage(&self) -> Seq<u8> {
        self.data@
    }

    /// The number of bytes taken so far.
    pub closed spec fn position(&self) -> nat {
        self.i as nat
    }

    /// The sink's storage: the bytes taken so far, and behind them what the
    /// storage held before.
    pub fn contents(&self) -> (data: [u8; 3])
        ensures
            data@ == self.storage(),
    {
        self.data
    }

    /// The number of bytes taken so far.
    pub fn len(&self) -> (n: usize)
        ensures
            n == self.position(),
    {
        self.i
    }
}

impl Default for TypeImplementingWriteCore {
    /// An empty sink, whose storage holds `65, 66, 67` until it is written
    /// over.
    fn default() -> (w: Self)
        ensures
            w.inv(),
            w.storage() == seq![65u8, 66u8, 67u8],
            w.written() == Seq::<u8>::empty(),
            w.room() == 3,
    {
        let w = Self { data: [65, 66, 67], i: 0 };
        proof {
            assert(w.storage() == seq![65u8, 66u8, 67u8]);
            assert(w.written() == Seq::<u8>::empty());
        }
        w
    }
}

impl WriteCore for TypeImplementingWriteCore {
    type Err = TypeImplementingCoreError;

    open spec fn inv(&self) -> bool {
        self.position() <= 3 && self.storage().len() == 3
    }

    open spec fn written(&self) -> Seq<u8> {
        self.storage().take(self.position() as int)
    }

    open spec fn room(&self) -> nat {
        (3 - self.position()) as nat
    }

    /// A byte is durable as soon as it is taken: it goes straight into the
    /// storage.
    open spec fn settled(&self) -> nat {
        self.position()
    }

    open spec fn stalls(&self) -> nat {
        0
    }

    open spec fn faultless(&self) -> bool {
        true
    }

    open spec fn raises(&self, e: Self::Err) -> bool {
        false
    }

    /// Takes as many bytes as there is both room for and data of, and says so
    /// exactly. What the storage holds behind the bytes taken stays as it
    /// was.
    fn write(&mut self, buf: &[u8]) -> (res: Result<OpRes, Self::Err>)
        ensures
            res == Ok::<OpRes, Self::Err>(
                OpRes::of_count(min_nat(buf@.len(), old(self).room()), buf@.len()),
            ),
            final(self).storage().skip(final(self).position() as int) == old(self).storage().skip(
                final(self).position() as int,
            ),
    {
        let len: usize = buf.len();
        let left: usize = 3 - self.i;
        let count: usize = if len <= left {
            len
        } else {
            left
        };
        let mut written: usize = 0;
        while written < count
            invariant
                written <= count,
                count <= len,
                count <= 3 - self.i,
                len == buf@.len(),
                self.i == old(self).i,
                self.data@.len() == 3,
                forall|j: int| 0 <= j < self.i ==> self.data@[j] == old(self).data@[j],
                forall|j: int| 0 <= j < written ==> self.data@[self.i + j] == buf@[j],
                forall|j: int| self.i + count <= j < 3 ==> self.data@[j] == old(self).data@[j],
            decreases count - written,
        {
            self.data[self.i + written] = buf[written];
            written += 1;
        }
        self.i += written;
        proof {
            assert(self.written() == old(self).written() + buf@.take(count as int));
            assert(self.settled() >= old(self).settled());
            assert(self.storage().skip(self.position() as int) == old(self).storage().skip(
                self.position() as int,
            ));
        }
        Ok(OpRes::from_count(written, len))
    }

    /// Nothing is held back, so there is nothing to do.
    fn flush(&mut self) -> (res: Result<(), Self::Err>) {
        Ok(())
    }
}

} // verus!
