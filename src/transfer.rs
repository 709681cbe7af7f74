//! The two binary sub-protocols: an upload is cut into frames of at most
//! [`CHUNK_SIZE`] bytes; a download gathers binary frames of any size until
//! the requested number of bytes has arrived.

use vstd::prelude::*;

verus! {

/// Largest payload of one upload frame.
pub const CHUNK_SIZE: usize = 1024;

/// Number of upload frames for `n` bytes: `n / 1024` rounded up.
pub open spec fn chunk_count(n: nat) -> nat {
    ((n + 1023) / 1024) as nat
}

/// Frame `i` of an upload of `data`.
pub open spec fn chunk_of(data: Seq<u8>, i: int) -> Seq<u8> {
    let end = if 1024 * (i + 1) < data.len() {
        1024 * (i + 1)
    } else {
        data.len() as int
    };
    data.subrange(1024 * i, end)
}

/// The frames of an upload of `data`, in order.
pub open spec fn chunks_of(data: Seq<u8>) -> Seq<Seq<u8>> {
    Seq::new(chunk_count(data.len()), |i: int| chunk_of(data, i))
}

pub open spec fn bytes_view(frames: Seq<Vec<u8>>) -> Seq<Seq<u8>> {
    frames.map_values(|f: Vec<u8>| f@)
}

/// Cuts `data` into consecutive frames of [`CHUNK_SIZE`] bytes; only the
/// last may be shorter.
pub fn split_chunks(data: &[u8]) -> (r: Vec<Vec<u8>>)
    ensures
        bytes_view(r@) == chunks_of(data@),
{
    let ghost want = chunks_of(data@);
    let n = data.len();
    let mut out: Vec<Vec<u8>> = Vec::new();
    let mut start: usize = 0;
    let mut k: usize = 0;
    while start < n
        invariant
            n == data@.len(),
            want == chunks_of(data@),
            start <= n,
            start < n ==> start == 1024 * k && k < chunk_count(n as nat),
            start == n ==> k == chunk_count(n as nat),
            bytes_view(out@) =~= want.take(k as int),
        decreases n - start,
    {
        let end: usize = if n - start > CHUNK_SIZE {
            start + CHUNK_SIZE
        } else {
            n
        };
        let mut chunk: Vec<u8> = Vec::new();
        let mut j: usize = start;
        while j < end
            invariant
                start <= j <= end <= n == data@.len(),
                chunk@ =~= data@.subrange(start as int, j as int),
            decreases end - j,
        {
            chunk.push(data[j]);
            j = j + 1;
        }
        out.push(chunk);
        proof {
            assert(want[k as int] == chunk_of(data@, k as int));
            assert(want.take(k as int + 1) =~= want.take(k as int).push(want[k as int]));
            assert(bytes_view(out@) =~= want.take(k as int + 1));
        }
        proof {
            if end == n {
                assert(n - 1024 * k <= 1024);
                assert((n + 1023) / 1024 == k + 1);
            } else {
                assert(end == 1024 * (k + 1));
                assert(k + 1 < chunk_count(n as nat));
            }
        }
        start = end;
        k = k + 1;
    }
    assert(want.take(k as int) =~= want);
    out
}

/// Frames of an upload put back together give the data; there are `n / 1024`
/// of them rounded up, none empty and none longer than [`CHUNK_SIZE`].
pub proof fn lemma_chunks_reassemble(data: Seq<u8>)
    ensures
        chunks_of(data).len() == (data.len() + 1023) / 1024,
        forall|i: int|
            0 <= i < chunks_of(data).len() ==> 0 < #[trigger] chunks_of(data)[i].len() <= 1024,
        chunks_of(data).flatten() == data,
    decreases data.len(),
{
    let cs = chunks_of(data);
    assert forall|i: int| 0 <= i < cs.len() implies 0 < #[trigger] cs[i].len() <= 1024 by {
        assert(1024 * i < data.len());
    }
    if data.len() == 0 {
        assert(cs.len() == 0);
        assert(data =~= Seq::<u8>::empty());
    } else {
        let m: int = if data.len() < 1024 { data.len() as int } else { 1024 };
        let rest = data.subrange(m, data.len() as int);
        lemma_chunks_reassemble(rest);
        let rs = chunks_of(rest);
        if data.len() <= 1024 {
            assert(rest.len() == 0);
            assert(rs.len() == 0);
            assert(cs.drop_first() =~= rs);
        } else {
            assert(rs.len() == cs.len() - 1);
            assert forall|i: int| 0 <= i < rs.len() implies #[trigger] rs[i] == cs.drop_first()[i] by {
                assert(rs[i] =~= chunk_of(data, i + 1));
            }
            assert(cs.drop_first() =~= rs);
        }
        assert(cs.first() =~= data.subrange(0, m));
        assert(cs.flatten() == cs.first() + cs.drop_first().flatten());
        assert(data =~= data.subrange(0, m) + rest);
    }
}

/// What one binary frame does to a download that expects `expected` bytes
/// and has `received` so far: it is appended, unless it would run past the end.
pub open spec fn download_step(received: Seq<u8>, expected: nat, frame: Seq<u8>) -> Option<Seq<u8>> {
    if received.len() + frame.len() <= expected {
        Some(received + frame)
    } else {
        None
    }
}

/// The bytes gathered after a sequence of binary frames, or `None` once
/// one of them runs past the end.
pub open spec fn accumulate(expected: nat, frames: Seq<Seq<u8>>) -> Option<Seq<u8>>
    decreases frames.len(),
{
    if frames.len() == 0 {
        Some(Seq::empty())
    } else {
        match accumulate(expected, frames.drop_last()) {
            Some(r) => download_step(r, expected, frames.last()),
            None => None,
        }
    }
}

/// Why a download failed.
#[derive(Clone, Copy, Debug, PartialEq, Eq, Structural)]
pub enum TransferError {
    /// A frame carried more bytes than were still owed.
    Overrun,
}

/// A download in progress: the bytes gathered so far and how many are owed in all.
#[derive(Debug)]
pub struct Download {
    buf: Vec<u8>,
    expected: usize,
}

impl Download {
    pub closed spec fn received(&self) -> Seq<u8> {
        self.buf@
    }

    pub closed spec fn expected(&self) -> nat {
        self.expected as nat
    }

    pub closed spec fn wf(&self) -> bool {
        self.buf@.len() <= self.expected
    }

    pub open spec fn complete(&self) -> bool {
        self.received().len() == self.expected()
    }

    /// A download of `len` bytes with nothing gathered yet.
    pub fn new(len: usize) -> (r: Download)
        ensures
            r.wf(),
            r.received() == Seq::<u8>::empty(),
            r.expected() == len,
    {
        Download { buf: Vec::new(), expected: len }
    }

    pub fn expected_len(&self) -> (r: usize)
        ensures
            r == self.expected(),
    {
        self.expected
    }

    /// Whether every owed byte has arrived.
    pub fn is_complete(&self) -> (r: bool)
        requires
            self.wf(),
        ensures
            r == self.complete(),
    {
        self.buf.len() == self.expected
    }

    /// Appends one binary frame, refusing one that runs past the end.
    pub fn push_frame(&mut self, frame: &[u8]) -> (r: Result<(), TransferError>)
        requires
            old(self).wf(),
        ensures
            final(self).wf(),
            final(self).expected() == old(self).expected(),
            r is Ok <==> download_step(old(self).received(), old(self).expected(), frame@) is Some,
            r is Ok ==> Some(final(self).received()) == download_step(
                old(self).received(),
                old(self).expected(),
                frame@,
            ),
            r is Err ==> final(self).received() == old(self).received(),
    {
        if frame.len() > self.expected - self.buf.len() {
            return Err(TransferError::Overrun);
        }
        let ghost before = self.buf@;
        let ghost exp = self.expected;
        let mut i: usize = 0;
        while i < frame.len()
            invariant
                i <= frame@.len(),
                self.expected == exp,
                before.len() + frame@.len() <= exp,
                self.buf@ =~= before + frame@.take(i as int),
            decreases frame@.len() - i,
        {
            self.buf.push(frame[i]);
            i = i + 1;
        }
        assert(frame@.take(i as int) =~= frame@);
        Ok(())
    }

    /// The bytes gathered.
    pub fn into_bytes(self) -> (r: Vec<u8>)
        ensures
            r@ == self.received(),
    {
        self.buf
    }
}

/// However the payload is fragmented, a download of `expected` bytes that
/// receives frames totalling exactly that many ends up holding their
/// concatenation: exactly `expected` bytes, in order.
pub proof fn lemma_any_fragmentation(expected: nat, frames: Seq<Seq<u8>>)
    requires
        frames.flatten().len() == expected,
    ensures
        accumulate(expected, frames) == Some(frames.flatten()),
        frames.flatten().len() == expected,
{
    frames.lemma_flatten_and_flatten_alt_are_equivalent();
    lemma_accumulate_within(expected, frames);
}

proof fn lemma_accumulate_within(expected: nat, frames: Seq<Seq<u8>>)
    requires
        frames.flatten_alt().len() <= expected,
    ensures
        accumulate(expected, frames) == Some(frames.flatten_alt()),
    decreases frames.len(),
{
    if frames.len() > 0 {
        lemma_accumulate_within(expected, frames.drop_last());
    }
}

} // verus!
