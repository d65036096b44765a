//! Byte sinks: where a response is written to.

use vstd::prelude::*;

verus! {

/// `std::io::Error`: why a write or a read failed. It is handed on as it
/// is, and nothing in it is looked at.
#[verifier::external_type_specification]
#[verifier::external_body]
pub struct ExIoError(std::io::Error);

/// What a write of `bytes` does to the bytes a sink holds: a write that
/// succeeds appends all of them, and one that fails appends some prefix of
/// them, which stays written.
pub open spec fn appended(before: Seq<u8>, after: Seq<u8>, ok: bool, bytes: Seq<u8>) -> bool {
    if ok {
        after == before + bytes
    } else {
        exists|n: int| 0 <= n <= bytes.len() && after == before + #[trigger] bytes.take(n)
    }
}

/// A destination for bytes, such as a connection or a buffer.
///
/// A sink may keep track of the bytes it has accepted and of the failure
/// that a write ended in, and it may be known never to refuse a write. A
/// buffer in memory keeps track and never refuses; of a sink that does
/// neither, nothing is said.
pub trait Sink: Sized {
    /// Every byte the sink has accepted so far, in order, where the sink
    /// keeps track of them.
    open spec fn written(&self) -> Option<Seq<u8>> {
        None
    }

    /// The failure that the last write ended in, where the sink keeps track
    /// of its bytes and that write failed; after a write that went well
    /// there is none.
    open spec fn failure(&self) -> Option<std::io::Error> {
        None
    }

    /// Whether the sink is one that never refuses a write.
    open spec fn reliable(&self) -> bool {
        false
    }

    /// Writes all of `bytes` to the sink, or fails part of the way.
    fn write_all(&mut self, bytes: &[u8]) -> (r: Result<(), std::io::Error>)
        ensures
            old(self).written() matches Some(held) ==> final(self).written() matches Some(holds)
                && appended(held, holds, r is Ok, bytes@),
            old(self).written() is Some ==> final(self).failure() == failed(r),
            old(self).reliable() ==> r is Ok && final(self).reliable(),
    ;
}

/// The failure in the result of a write, if it has one.
pub open spec fn failed(r: Result<(), std::io::Error>) -> Option<std::io::Error> {
    match r {
        Ok(_) => None,
        Err(error) => Some(error),
    }
}

/// What a write of `bytes` does to a sink, `failure` being the failure it
/// ended in, if any. Where the sink keeps track of its bytes, they grow as
/// `appended` says, and the failure is the one the sink has kept; a
/// reliable sink accepts the write and stays reliable.
pub open spec fn wrote<S: Sink>(
    before: S,
    after: S,
    failure: Option<std::io::Error>,
    bytes: Seq<u8>,
) -> bool {
    &&& before.written() matches Some(held) ==> {
        &&& after.written() matches Some(holds)
        &&& appended(held, holds, failure is None, bytes)
        &&& failure is Some ==> after.failure() == failure
    }
    &&& before.reliable() ==> failure is None && after.reliable()
}

impl Sink for Vec<u8> {
    open spec fn written(&self) -> Option<Seq<u8>> {
        Some(self@)
    }

    open spec fn reliable(&self) -> bool {
        true
    }

    fn write_all(&mut self, bytes: &[u8]) -> (r: Result<(), std::io::Error>) {
        self.extend_from_slice(bytes);
        assert(self@ =~= old(self)@ + bytes@);
        Ok(())
    }
}

/// A successful write followed by another write amounts to one write of
/// both byte strings, which fails as the second did.
pub proof fn lemma_wrote_then<S: Sink>(
    start: S,
    mid: S,
    end: S,
    first: Seq<u8>,
    second: Seq<u8>,
    failure: Option<std::io::Error>,
)
    requires
        wrote(start, mid, None, first),
        wrote(mid, end, failure, second),
    ensures
        wrote(start, end, failure, first + second),
{
    if start.written() is Some {
        let a = start.written()->0;
        let b = mid.written()->0;
        let c = end.written()->0;
        if failure is None {
            assert(c =~= a + (first + second));
        } else {
            let n = choose|n: int| 0 <= n <= second.len() && c == b + #[trigger] second.take(n);
            assert(c =~= a + (first + second).take(first.len() + n));
        }
    }
}

/// A write that failed also counts as a failed write of any longer byte
/// string that starts with the bytes it was given.
pub proof fn lemma_wrote_cut<S: Sink>(
    start: S,
    end: S,
    failure: Option<std::io::Error>,
    bytes: Seq<u8>,
    more: Seq<u8>,
)
    requires
        failure is Some,
        wrote(start, end, failure, bytes),
    ensures
        wrote(start, end, failure, bytes + more),
{
    if start.written() is Some {
        let a = start.written()->0;
        let c = end.written()->0;
        let n = choose|n: int| 0 <= n <= bytes.len() && c == a + #[trigger] bytes.take(n);
        assert(bytes.take(n) =~= (bytes + more).take(n));
    }
}

/// A write that failed also counts as a failed write of any byte string
/// that the bytes it was given are a prefix of.
pub proof fn lemma_wrote_prefix<S: Sink>(
    start: S,
    end: S,
    failure: Option<std::io::Error>,
    bytes: Seq<u8>,
    whole: Seq<u8>,
)
    requires
        failure is Some,
        wrote(start, end, failure, bytes),
        bytes.is_prefix_of(whole),
    ensures
        wrote(start, end, failure, whole),
{
    let more = whole.skip(bytes.len() as int);
    assert(bytes + more =~= whole);
    lemma_wrote_cut(start, end, failure, bytes, more);
}

/// Writing nothing leaves a sink as it is.
pub proof fn lemma_wrote_nothing<S: Sink>(sink: S)
    ensures
        wrote(sink, sink, None, Seq::empty()),
{
    if sink.written() is Some {
        assert(sink.written()->0 =~= sink.written()->0 + Seq::<u8>::empty());
    }
}

} // verus!
