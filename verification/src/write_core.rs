//! The write capability: one required attempt, a required flush, and the
//! operations derived from them.

use vstd::prelude::*;
use vstd::std_specs::convert::FromSpec;
use vstd::string::StringSliceAdditionalSpecFns;
use crate::outcome::{made_from, moved_by, FormatterError, OpRes, UnexpectedEndOfFile};
use crate::pieces::{run, run_ends_whole, run_grows, run_starts_empty};

verus! {

/// The error that a derived write operation raises when the sink ends while
/// bytes are still unwritten.
pub open spec fn sink_full<E: From<UnexpectedEndOfFile>>() -> E {
    E::from_spec(UnexpectedEndOfFile)
}

/// The error that a formatted write raises when the formatting machinery
/// fails although the sink did not.
pub open spec fn formatter_failed<E: From<FormatterError>>() -> E {
    E::from_spec(FormatterError)
}

/// Bytes taken by a sink: the first `n` bytes of `data` were appended to what
/// it had, and its room went down by as many.
pub open spec fn accepts(
    before: Seq<u8>,
    after: Seq<u8>,
    room_before: nat,
    room_after: nat,
    data: Seq<u8>,
    n: nat,
) -> bool {
    &&& n <= data.len()
    &&& n <= room_before
    &&& after == before + data.take(n as int)
    &&& room_after == room_before - n
}

/// The number of bytes by which what a sink has taken has grown.
pub open spec fn grown(before: Seq<u8>, after: Seq<u8>) -> nat {
    (after.len() - before.len()) as nat
}

/// What writing the whole of `data` does to a sink: it has taken a prefix of
/// `data`, the whole of it exactly if the write got through to the end
/// (`through`), and less if it did not.
pub open spec fn takes(
    before: Seq<u8>,
    after: Seq<u8>,
    room_before: nat,
    room_after: nat,
    data: Seq<u8>,
    through: bool,
) -> bool {
    &&& before.len() <= after.len()
    &&& accepts(before, after, room_before, room_after, data, grown(before, after))
    &&& through ==> grown(before, after) == data.len()
    &&& !through ==> grown(before, after) < data.len()
}

/// What any number of whole writes do to a sink: it has taken some more bytes
/// behind those it had, and its room went down by as many.
pub open spec fn extends(
    before: Seq<u8>,
    after: Seq<u8>,
    room_before: nat,
    room_after: nat,
) -> bool {
    &&& before.len() <= after.len()
    &&& after.take(before.len() as int) == before
    &&& after.len() - before.len() <= room_before
    &&& room_after == room_before - (after.len() - before.len())
}

/// The result of a formatted write, from what the formatting machinery
/// reported and from the error, if any, that the sink raised on the way.
///
/// Where the machinery reported success, so does the write. Where it reported
/// failure, the sink's error is passed on if there is one; if there is none,
/// the failure was the machinery's own, and the formatter error says so.
pub fn verdict<E: From<FormatterError>>(
    formatted: Result<(), core::fmt::Error>,
    recorded: Result<(), E>,
) -> (res: Result<(), E>)
    ensures
        formatted is Ok ==> res is Ok,
        formatted is Err && recorded is Err ==> res == recorded,
        formatted is Err && recorded is Ok ==> (res matches Err(e) && made_from(
            FormatterError,
            e,
        )),
        formatted is Err && recorded is Ok && <E as FromSpec<FormatterError>>::obeys_from_spec()
            ==> res == Err::<(), E>(formatter_failed::<E>()),
{
    match formatted {
        Ok(()) => Ok(()),
        Err(_) => {
            if recorded.is_err() {
                recorded
            } else {
                Err(E::from(FormatterError))
            }
        },
    }
}

/// A sink for bytes.
///
/// A sink is described by the bytes that it has taken so far (`written`), by
/// how many of them it has made durable (`settled`), by the number of bytes
/// that it will still take (`room`), by a bound on the
/// retries it may still ask for before it moves on (`stalls`), by whether it
/// can fail (`faultless`) and by the errors it may fail with (`raises`).
/// `write` and `flush` are the required operations; everything else is
/// derived from them.
pub trait WriteCore {
    type Err: From<UnexpectedEndOfFile> + From<FormatterError>;

    /// The sink is well formed.
    spec fn inv(&self) -> bool;

    /// The bytes that the sink has taken, in order.
    spec fn written(&self) -> Seq<u8>;

    /// The number of bytes that the sink will still take.
    spec fn room(&self) -> nat;

    /// The number of bytes, of those taken, that the sink has made durable,
    /// in whatever sense the sink defines. Bytes that are durable stay so.
    spec fn settled(&self) -> nat;

    /// A bound on how many more times in a row the sink asks for a retry.
    spec fn stalls(&self) -> nat;

    /// No operation on this sink ends in an error.
    spec fn faultless(&self) -> bool;

    /// `e` is an error that an operation on this sink may end in. A sink
    /// never comes to raise an error that it did not raise before.
    spec fn raises(&self, e: Self::Err) -> bool;

    /// Attempts to take at most `buf.len()` bytes from the front of `buf`.
    ///
    /// A transfer appends a prefix of `buf`, the whole of it where the outcome
    /// is complete. `Eof` on a request of at least one byte means that the
    /// sink has no room left. `Eof`, `Retry` and an error take nothing, and
    /// `Retry` uses up one of the stalls.
    fn write(&mut self, buf: &[u8]) -> (res: Result<OpRes, Self::Err>)
        requires
            old(self).inv(),
        ensures
            final(self).inv(),
            old(self).faultless() ==> final(self).faultless() && res is Ok,
            accepts(
                old(self).written(),
                final(self).written(),
                old(self).room(),
                final(self).room(),
                buf@,
                moved_by(res),
            ),
            match res {
                Ok(op) => {
                    &&& op.fits(buf@.len())
                    &&& op is Completly ==> op.moved() == buf@.len()
                    &&& op is Eof && buf@.len() > 0 ==> old(self).room() == 0
                    &&& op is Retry ==> final(self).stalls() < old(self).stalls()
                },
                Err(e) => old(self).raises(e),
            },
            forall|e: Self::Err| #[trigger] final(self).raises(e) ==> old(self).raises(e),
            final(self).settled() >= old(self).settled(),
    ;

    /// Makes what the sink has taken durable, in whatever sense the sink
    /// defines. It takes no bytes.
    ///
    /// After a flush that succeeds, every byte that the sink has taken is
    /// durable. One that fails undoes nothing: what was durable stays so.
    fn flush(&mut self) -> (res: Result<(), Self::Err>)
        requires
            old(self).inv(),
        ensures
            final(self).inv(),
            old(self).faultless() ==> final(self).faultless() && res is Ok,
            final(self).written() == old(self).written(),
            final(self).room() == old(self).room(),
            res is Ok ==> final(self).settled() == final(self).written().len(),
            res is Err ==> final(self).settled() >= old(self).settled(),
            res matches Err(e) ==> old(self).raises(e),
            forall|e: Self::Err| #[trigger] final(self).raises(e) ==> old(self).raises(e),
    ;

    /// Writes the whole of `buf`, reissuing the attempt on the unwritten rest
    /// until nothing of it is left.
    ///
    /// Whatever the result, the sink has taken a prefix of `buf`: the whole of
    /// it on success, less on failure. The failure is an error of the sink,
    /// passed on as it came, or the error that is made when the sink has no
    /// room left. An empty buffer is written without asking the sink. A
    /// faultless sink fails exactly when its room is smaller than `buf`, after
    /// taking as much as it had room for.
    ///
    /// As provided here, the failure of a faultless sink is the end-of-file
    /// error.
    fn write_all(&mut self, buf: &[u8]) -> (res: Result<(), Self::Err>)
        requires
            old(self).inv(),
        ensures
            final(self).inv(),
            old(self).faultless() ==> final(self).faultless(),
            takes(
                old(self).written(),
                final(self).written(),
                old(self).room(),
                final(self).room(),
                buf@,
                res is Ok,
            ),
            buf@.len() == 0 ==> res is Ok,
            old(self).faultless() ==> (res is Ok <==> buf@.len() <= old(self).room()),
            old(self).faultless() && res is Err ==> final(self).room() == 0,
            res matches Err(e) ==> old(self).raises(e) || (made_from(UnexpectedEndOfFile, e)
                && final(self).room() == 0),
            forall|e: Self::Err| #[trigger] final(self).raises(e) ==> old(self).raises(e),
        default_ensures
            old(self).faultless() && <Self::Err as FromSpec<UnexpectedEndOfFile>>::obeys_from_spec()
                ==> (res matches Err(e) ==> e == sink_full::<Self::Err>()),
    {
        let len: usize = buf.len();
        let mut sent: usize = 0;
        let ghost base = self.written();
        let ghost space = self.room();
        proof {
            assert(base + buf@.take(0) == base);
        }
        while sent < len
            invariant
                self.inv(),
                sent <= len,
                len == buf@.len(),
                base == old(self).written(),
                space == old(self).room(),
                old(self).faultless() ==> self.faultless(),
                forall|e: Self::Err| #[trigger] self.raises(e) ==> old(self).raises(e),
                accepts(base, self.written(), space, self.room(), buf@, sent as nat),
            decreases len - sent, self.stalls(),
        {
            let rest = vstd::slice::slice_subrange(buf, sent, len);
            let ghost taken = self.written();
            match self.write(rest) {
                Err(e) => {
                    return Err(e);
                },
                Ok(OpRes::Eof) => {
                    return Err(Self::Err::from(UnexpectedEndOfFile));
                },
                Ok(OpRes::Retry) => {},
                Ok(OpRes::Partial(n)) | Ok(OpRes::Completly(n)) => {
                    proof {
                        assert(buf@.take(sent + n) == buf@.take(sent as int) + rest@.take(
                            n as int,
                        ));
                        assert(self.written() == base + buf@.take(sent + n));
                    }
                    sent += n;
                },
            }
        }
        Ok(())
    }

    /// Borrows the sink.
    fn by_ref(&mut self) -> (r: &mut Self) where Self: Sized
        ensures
            *r == *old(self),
            *final(self) == *final(r),
    {
        self
    }
}

/// Formatted writes, for every sink.
pub trait WriteFmt: WriteCore + Sized {
    /// Writes formatted text: every fragment that the formatting machinery
    /// emits goes through `write_all`.
    ///
    /// Whatever the result, the sink has taken some more bytes behind those it
    /// had. The result is the `verdict` on what the machinery reported and on
    /// the last error that the sink raised. An error is therefore one of the
    /// sink's own, the one that is made when the sink has no room left, or the
    /// one that is made when the machinery fails; where a faultless sink still
    /// has room, it is the last of these.
    fn write_fmt(&mut self, fmt: core::fmt::Arguments<'_>) -> (res: Result<(), Self::Err>) 
        requires
            old(self).inv(),
        ensures
            final(self).inv(),
            old(self).faultless() ==> final(self).faultless(),
            extends(
                old(self).written(),
                final(self).written(),
                old(self).room(),
                final(self).room(),
            ),
            forall|e: Self::Err| #[trigger] final(self).raises(e) ==> old(self).raises(e),
            res matches Err(e) ==> blamed(*old(self), *final(self), e),
            old(self).faultless() ==> (res matches Err(e) ==> final(self).room() == 0 || made_from(
                FormatterError,
                e,
            )),
    {
        let mut output = Adaptor::new(self);
        let formatted = format_into(&mut output, fmt);
        output.finish(formatted)
    }

    /// Writes formatted text that the formatting machinery has already cut
    /// into fragments: what `write_fmt` does once the machinery has emitted
    /// `fragments` and then reported success (`complete`) or failure.
    ///
    /// The fragments go through `write_all` in order, up to the first that
    /// the sink does not take whole. The sink has then taken a prefix of the
    /// fragments' bytes. The write succeeds exactly when the sink took them
    /// all and the machinery reported success; where the sink took them all
    /// and the machinery failed, the error is the formatter error. A faultless
    /// sink takes them all exactly when it has room for them.
    fn write_fragments(&mut self, fragments: &Vec<String>, complete: bool) -> (res: Result<
        (),
        Self::Err,
    >)
        requires
            old(self).inv(),
        ensures
            final(self).inv(),
            old(self).faultless() ==> final(self).faultless(),
            old(self).written().len() <= final(self).written().len(),
            accepts(
                old(self).written(),
                final(self).written(),
                old(self).room(),
                final(self).room(),
                text(fragments@),
                grown(old(self).written(), final(self).written()),
            ),
            res is Ok <==> complete && grown(old(self).written(), final(self).written()) == text(
                fragments@,
            ).len(),
            !complete && grown(old(self).written(), final(self).written()) == text(
                fragments@,
            ).len() && <Self::Err as FromSpec<FormatterError>>::obeys_from_spec() ==> res == Err::<
                (),
                Self::Err,
            >(formatter_failed::<Self::Err>()),
            old(self).faultless() ==> (grown(old(self).written(), final(self).written()) == text(
                fragments@,
            ).len() <==> text(fragments@).len() <= old(self).room()),
            forall|e: Self::Err| #[trigger] final(self).raises(e) ==> old(self).raises(e),
            res matches Err(e) ==> blamed(*old(self), *final(self), e),
            !complete && grown(old(self).written(), final(self).written()) == text(
                fragments@,
            ).len() ==> (res matches Err(e) && made_from(FormatterError, e)),
    {
        let ghost base = self.written();
        let ghost space = self.room();
        let ghost sound = self.faultless();
        let ghost start = *self;
        let ghost all = text_bytes(fragments@);
        let mut output = Adaptor::new(self);
        let mut formatted: Result<(), core::fmt::Error> = Ok(());
        let mut i: usize = 0;
        proof {
            run_starts_empty(all);
            assert(base + Seq::<u8>::empty() == base);
        }
        while i < fragments.len() && formatted.is_ok()
            invariant
                i <= fragments@.len(),
                all == text_bytes(fragments@),
                output.origin() == start,
                base == start.written(),
                space == start.room(),
                sound == start.faultless(),
                output.inner is Some,
                *final(output.inner->Some_0) == after_borrow(*self),
                output.inner->Some_0.inv(),
                sound ==> output.inner->Some_0.faultless(),
                formatted is Ok ==> output.error is Ok,
                formatted is Err ==> output.error is Err,
                formatted is Ok ==> {
                    &&& run(all, i as int).len() <= space
                    &&& output.inner->Some_0.written() == base + run(all, i as int)
                    &&& output.inner->Some_0.room() == space - run(all, i as int).len()
                },
                formatted is Err ==> {
                    &&& accepts(
                        base,
                        output.inner->Some_0.written(),
                        space,
                        output.inner->Some_0.room(),
                        all.flatten(),
                        (output.inner->Some_0.written().len() - base.len()) as nat,
                    )
                    &&& output.inner->Some_0.written().len() - base.len() < all.flatten().len()
                    &&& sound ==> all.flatten().len() > space
                },
            decreases fragments@.len() - i, if formatted is Ok { 1nat } else { 0nat },
        {
            formatted = output.push(fragments[i].as_str());
            proof {
                let sofar = run(all, i as int);
                let k = output.inner->Some_0.written().len() - (base + sofar).len();
                run_grows(all, i as int, k);
                assert(output.inner->Some_0.written() == base + (sofar + all[i as int].take(k)));
                if formatted is Ok {
                    assert(all[i as int].take(k) == all[i as int]);
                }
            }
            if formatted.is_ok() {
                i += 1;
            }
        }
        proof {
            if formatted is Ok {
                run_ends_whole(all);
                assert(all.flatten().take(all.flatten().len() as int) == all.flatten());
            }
        }
        if formatted.is_ok() && !complete {
            formatted = Err(core::fmt::Error);
        }
        output.finish(formatted)
    }
}

/// The bytes of text fragments, fragment by fragment.
pub open spec fn text_bytes(fragments: Seq<String>) -> Seq<Seq<u8>> {
    fragments.map_values(|s: String| vstd::utf8::encode_utf8(s@))
}

/// The bytes of text fragments, one fragment after the other.
pub open spec fn text(fragments: Seq<String>) -> Seq<u8> {
    text_bytes(fragments).flatten()
}

impl<W: WriteCore> WriteFmt for W {

}

/// `core::fmt::Error`, the unit value by which the formatting machinery
/// reports a failure.
#[verifier::external_type_specification]
pub struct ExFmtError(core::fmt::Error);

/// `core::fmt::Arguments`, a format string with its arguments, ready to be
/// written.
#[verifier::external_type_specification]
#[verifier::external_body]
pub struct ExArguments<'a>(core::fmt::Arguments<'a>);

/// The error of a formatted write is one of the sink's own, passed on as it
/// came, the one that is made when the sink has no room left, or the one that
/// is made when the formatting machinery fails.
pub open spec fn blamed<W: WriteCore>(before: W, after: W, e: W::Err) -> bool {
    ||| before.raises(e)
    ||| made_from(UnexpectedEndOfFile, e) && after.room() == 0
    ||| made_from(FormatterError, e)
}

/// The text sink that a formatted write hands to the formatting machinery. It
/// pushes every fragment through `write_all` and keeps the last error that
/// the sink raises.
struct Adaptor<'a, T: WriteCore> {
    inner: Option<&'a mut T>,
    error: Result<(), T::Err>,
    start: Ghost<T>,
}

impl<'a, T: WriteCore> Adaptor<'a, T> {
    /// While the adaptor holds the sink, the sink is well formed and has only
    /// gained bytes since the adaptor was made. It raises no error that it did
    /// not raise then, and is still faultless if it was. The error kept from
    /// it, if any, is one of its own or the one that is made when it has no
    /// room left.
    #[verifier::type_invariant]
    spec fn wf(&self) -> bool {
        self.inner matches Some(sink) ==> {
            &&& sink.inv()
            &&& extends(self.start@.written(), sink.written(), self.start@.room(), sink.room())
            &&& self.start@.faultless() ==> sink.faultless()
            &&& forall|e: T::Err| #[trigger] sink.raises(e) ==> self.start@.raises(e)
            &&& self.error matches Err(e) ==> self.start@.raises(e) || (made_from(
                UnexpectedEndOfFile,
                e,
            ) && sink.room() == 0)
            &&& self.start@.faultless() && self.error is Err ==> sink.room() == 0
        }
    }

    /// The sink as it was when the adaptor was made.
    pub closed spec fn origin(&self) -> T {
        self.start@
    }

    /// Whether the adaptor holds the sink.
    pub closed spec fn holds(&self) -> bool {
        self.inner is Some
    }

    /// The sink as it is now, while the adaptor holds it.
    pub closed spec fn sink(&self) -> T {
        *self.inner->Some_0
    }

    /// The error kept from the sink, if any.
    pub closed spec fn kept(&self) -> Result<(), T::Err> {
        self.error
    }

    fn new(inner: &'a mut T) -> (a: Self)
        requires
            old(inner).inv(),
        ensures
            a.origin() == *old(inner),
            a.holds(),
            a.error is Ok,
            *a.inner->Some_0 == *old(inner),
            *final(a.inner->Some_0) == *final(inner),
    {
        let ghost start = *inner;
        proof {
            assert(inner.written().take(inner.written().len() as int) == inner.written());
        }
        Adaptor { inner: Some(inner), error: Ok(()), start: Ghost(start) }
    }

    /// Ends the formatted write: gives the sink back and returns the verdict
    /// on what the machinery reported and on the error kept, if any.
    fn finish(self, formatted: Result<(), core::fmt::Error>) -> (res: Result<(), T::Err>)
        requires
            self.holds(),
        ensures
            *final(self.inner->Some_0) == *self.inner->Some_0,
            final(self.inner->Some_0).inv(),
            extends(
                self.origin().written(),
                final(self.inner->Some_0).written(),
                self.origin().room(),
                final(self.inner->Some_0).room(),
            ),
            self.origin().faultless() ==> final(self.inner->Some_0).faultless(),
            forall|e: T::Err| #[trigger]
                final(self.inner->Some_0).raises(e) ==> self.origin().raises(e),
            res matches Err(e) ==> blamed(self.origin(), *final(self.inner->Some_0), e),
            self.origin().faultless() ==> (res matches Err(e) ==> final(self.inner->Some_0).room()
                == 0 || made_from(FormatterError, e)),
            formatted is Ok ==> res is Ok,
            formatted is Err ==> res is Err,
            formatted is Err && self.error is Ok ==> (res matches Err(e) && made_from(
                FormatterError,
                e,
            )),
            formatted is Err && self.error is Ok && <T::Err as FromSpec<
                FormatterError,
            >>::obeys_from_spec() ==> res == Err::<(), T::Err>(formatter_failed::<T::Err>()),
    {
        proof {
            use_type_invariant(&self);
        }
        verdict(formatted, self.error)
    }

    /// Pushes one fragment of text through `write_all`, and keeps the error
    /// if the sink raises one.
    fn push(&mut self, s: &str) -> (r: Result<(), core::fmt::Error>)
        ensures
            final(self).origin() == old(self).origin(),
            final(self).holds() == old(self).holds(),
            *final(final(self).inner->Some_0) == *final(old(self).inner->Some_0),
            old(self).holds() ==> {
                let before = *old(self).inner->Some_0;
                let after = *final(self).inner->Some_0;
                &&& after.inv()
                &&& before.faultless() ==> after.faultless()
                &&& after.written().len() >= before.written().len()
                &&& accepts(
                    before.written(),
                    after.written(),
                    before.room(),
                    after.room(),
                    s.spec_bytes(),
                    (after.written().len() - before.written().len()) as nat,
                )
                &&& r is Ok <==> after.written().len() - before.written().len()
                    == s.spec_bytes().len()
                &&& before.faultless() ==> (r is Ok <==> s.spec_bytes().len() <= before.room())
                &&& r is Ok ==> final(self).error == old(self).error
                &&& r is Err ==> final(self).error is Err
            },
            !old(self).holds() ==> r is Err,
    {
        proof {
            use_type_invariant(&*self);
        }
        // The sink leaves the adaptor for the time of the write and comes back
        // when it is over.
        let mut lent: Option<&'a mut T> = None;
        core::mem::swap(&mut self.inner, &mut lent);
        match lent {
            None => Err(core::fmt::Error),
            Some(sink) => {
                let ghost before = sink.written();
                let pushed = sink.write_all(s.as_bytes());
                proof {
                    let had = self.start@.written().len() as int;
                    assert(sink.written().take(had) == before.take(had));
                }
                match pushed {
                    Ok(()) => {
                        self.inner = Some(sink);
                        Ok(())
                    },
                    Err(e) => {
                        self.error = Err(e);
                        self.inner = Some(sink);
                        Err(core::fmt::Error)
                    },
                }
            },
        }
    }
}

impl<'a, T: WriteCore> core::fmt::Write for Adaptor<'a, T> {
    /// What the formatting machinery calls for every fragment of text: the
    /// fragment is pushed through `write_all`. The answer is a failure
    /// exactly when the sink did not take the whole fragment, and the sink's
    /// error is then kept.
    fn write_str(&mut self, s: &str) -> (r: Result<(), core::fmt::Error>)
        ensures
            final(self).origin() == old(self).origin(),
            final(self).holds() == old(self).holds(),
            old(self).holds() ==> {
                let before = old(self).sink();
                let after = final(self).sink();
                &&& after.inv()
                &&& before.faultless() ==> after.faultless()
                &&& takes(
                    before.written(),
                    after.written(),
                    before.room(),
                    after.room(),
                    s.spec_bytes(),
                    r is Ok,
                )
                &&& before.faultless() ==> (r is Ok <==> s.spec_bytes().len() <= before.room())
                &&& r is Ok ==> final(self).kept() == old(self).kept()
                &&& r is Err ==> final(self).kept() is Err
            },
            !old(self).holds() ==> r is Err,
    {
        self.push(s)
    }
}

/// `core::fmt::write`: runs the formatting machinery on `args`, which hands
/// every fragment of text to `out`. Whether it succeeds depends on `args` and
/// on `out`. The machinery reaches `out` only through its `write_str`: the
/// adaptor's origin stays what it was, and it holds the same sink as before.
#[verifier::external_body]
fn format_into<'a, T: WriteCore>(out: &mut Adaptor<'a, T>, args: core::fmt::Arguments<'_>) -> (r:
    Result<(), core::fmt::Error>)
    ensures
        final(out).origin() == old(out).origin(),
        final(out).holds() == old(out).holds(),
        *final(final(out).inner->Some_0) == *final(old(out).inner->Some_0),
{
    core::fmt::write(out, args)
}

} // verus!
