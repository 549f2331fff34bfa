use vstd::prelude::*;

use crate::error::Error;
use crate::model::{body_rank, body_run, ext_run, BodyReaderState, ExtOut, HeaderReaderState};
use crate::source::ByteSource;

verus! {

pub const BUF_SIZE: usize = 1024;

/// Locates the first line-feed byte in `data`, if any.
pub fn find_newline(data: &[u8]) -> (r: Option<usize>)
    ensures
        match r {
            Some(i) => {
                &&& i < data@.len()
                &&& data@[i as int] == 10u8
                &&& forall|j: int| 0 <= j < i ==> data@[j] != 10u8
            },
            None => forall|j: int| 0 <= j < data@.len() ==> data@[j] != 10u8,
        },
{
    let mut i: usize = 0;
    while i < data.len()
        invariant
            i <= data.len(),
            forall|j: int| 0 <= j < i ==> data@[j] != 10u8,
        decreases data.len() - i,
    {
        if data[i] == 10u8 {
            return Some(i);
        }
        i += 1;
    }
    None
}

/// A byte-stream transformer over a raw source: consumes the leading
/// comment-prefixed header lines, strips the two-byte `"# "` prefix,
/// and yields only the payload bytes.  It stops, without consuming it,
/// at the first line that does not begin with the comment marker.
pub struct HeaderReader<R: ByteSource> {
    inner: R,
    buf: Vec<u8>,
    read_pos: usize,
    filled: usize,
    state: HeaderReaderState,
}

impl<R: ByteSource> HeaderReader<R> {
    /// The whole underlying stream, from its very beginning.
    pub closed spec fn stream(self) -> Seq<u8> {
        self.inner.stream()
    }

    /// How many bytes of the stream this transformer has classified so
    /// far; bytes pulled into the window but not yet classified do not
    /// count.
    pub closed spec fn consumed(self) -> int {
        self.inner.pos() - (self.filled - self.read_pos)
    }

    /// What a complete run from the current state over the rest of the
    /// stream will emit and consume.
    pub open spec fn future(self) -> ExtOut {
        ext_run(self.state_spec(), self.stream().skip(self.consumed()))
    }

    pub closed spec fn state_spec(self) -> HeaderReaderState {
        self.state
    }

    /// Window discipline: `read_pos <= filled <= capacity`, and the
    /// unclassified window bytes are exactly the stream bytes between
    /// `consumed()` and the source cursor.
    pub closed spec fn wf(self) -> bool {
        &&& self.read_pos <= self.filled <= self.buf.len()
        &&& self.buf.len() >= 1
        &&& self.filled - self.read_pos <= self.inner.pos()
        &&& 0 <= self.inner.pos() <= self.inner.stream().len()
        &&& forall|j: int|
            self.read_pos <= j < self.filled ==> self.buf@[j] == self.inner.stream()[
                self.inner.pos() - (self.filled - j)
            ]
    }

    pub fn new(inner: R) -> (r: Self)
        requires
            0 <= inner.pos() <= inner.stream().len(),
        ensures
            r.wf(),
            r.stream() == inner.stream(),
            r.consumed() == inner.pos(),
            r.state_spec() == HeaderReaderState::Read0,
    {
        let mut buf: Vec<u8> = Vec::new();
        while buf.len() < BUF_SIZE
            invariant
                buf.len() <= BUF_SIZE,
            decreases BUF_SIZE - buf.len(),
        {
            buf.push(0u8);
        }
        HeaderReader { inner, buf, read_pos: 0, filled: 0, state: HeaderReaderState::Read0 }
    }

    /// One read step: either delivers 1+ payload bytes of the current
    /// header line into `dest`, or 0 bytes at end-of-header, or fails
    /// on a malformed header line.  The bytes delivered over a whole
    /// run, concatenated, are exactly `future().emitted`.
    pub fn read_internal(&mut self, dest: &mut Vec<u8>) -> (r: Result<usize, Error>)
        requires
            old(self).wf(),
            old(dest).len() >= 1,
        ensures
            final(self).wf(),
            final(self).stream() == old(self).stream(),
            final(dest).len() == old(dest).len(),
            match r {
                Ok(n) => {
                    &&& n <= final(dest).len()
                    &&& forall|i: int|
                        n <= i < final(dest)@.len() ==> final(dest)@[i] == old(dest)@[i]
                    &&& old(self).future().emitted == final(dest)@.take(n as int)
                        + final(self).future().emitted
                    &&& final(self).future().ok == old(self).future().ok
                    &&& final(self).consumed() + final(self).future().consumed == old(self).consumed() + old(self).future().consumed
                    &&& (n == 0) <==> (old(self).future().emitted.len() == 0)
                    &&& n == 0 ==> final(self).future().emitted.len() == 0 && final(self).future().consumed == 0 && final(self).future().ok
                },
                Err(e) => {
                    &&& e == Error::MalformedHeaderLine
                    &&& !old(self).future().ok
                    &&& final(dest)@ == old(dest)@
                    &&& final(self).consumed() + final(self).future().consumed == old(self).consumed() + old(self).future().consumed
                    &&& final(self).future().emitted == old(self).future().emitted
                    &&& old(self).future().emitted.len() == 0
                },
            },
    {
        loop
            invariant
                self.wf(),
                dest@ == old(dest)@,
                dest.len() >= 1,
                self.stream() == old(self).stream(),
                self.future().ok == old(self).future().ok,
                self.future().emitted == old(self).future().emitted,
                self.consumed() + self.future().consumed == old(self).consumed() + old(self).future().consumed,
            decreases self.stream().len() - self.consumed(),
        {
            if self.read_pos == self.filled {
                let ghost pre = *self;
                let n = self.inner.read(&mut self.buf);
                self.filled = n;
                self.read_pos = 0;
                proof {
                    assert(self.consumed() == pre.consumed());
                    assert(self.wf());
                }
                if self.filled == 0 {
                    proof {
                        assert(self.consumed() == self.stream().len());
                        assert(self.stream().skip(self.consumed()).len() == 0);
                    }
                    self.state = HeaderReaderState::End;
                    proof {
                        assert(self.future().emitted =~= dest@.take(0));
                        assert(old(self).future().emitted =~= dest@.take(0)
                            + self.future().emitted);
                    }
                    return Ok(0);
                }
            }
            let ghost t = self.stream().skip(self.consumed());
            proof {
                assert(self.read_pos < self.filled);
                assert(self.buf@[self.read_pos as int] == self.stream()[self.consumed()]);
                assert(t.len() > 0);
                assert(t[0] == self.buf@[self.read_pos as int]);
                assert(self.stream().skip(self.consumed() + 1) =~= t.skip(1));
            }
            let b = self.buf[self.read_pos];
            match self.state {
                HeaderReaderState::Read0 => {
                    if b == 35u8 {
                        self.read_pos = self.read_pos + 1;
                        self.state = HeaderReaderState::Read1;
                    } else {
                        self.state = HeaderReaderState::End;
                        proof {
                            assert(self.future().emitted =~= dest@.take(0)
                                + self.future().emitted);
                        }
                        return Ok(0);
                    }
                },
                HeaderReaderState::Read1 => {
                    if b == 35u8 {
                        self.read_pos = self.read_pos + 1;
                        self.state = HeaderReaderState::IgnoreLine;
                    } else if b == 32u8 {
                        self.read_pos = self.read_pos + 1;
                        self.state = HeaderReaderState::ReadLine;
                    } else {
                        return Err(Error::MalformedHeaderLine);
                    }
                },
                HeaderReaderState::ReadLine => {
                    let mut n: usize = 0;
                    let mut hit_nl = false;
                    proof {
                        assert(dest@.take(0) + self.future().emitted =~= self.future().emitted);
                    }
                    while !hit_nl && self.read_pos < self.filled && n < dest.len()
                        invariant
                            self.wf(),
                            dest.len() == old(dest).len(),
                            dest.len() >= 1,
                            n <= dest.len(),
                            self.stream() == old(self).stream(),
                            self.future().ok == old(self).future().ok,
                            forall|i: int| n <= i < dest@.len() ==> dest@[i] == old(dest)@[i],
                            old(self).future().emitted == dest@.take(n as int)
                                + self.future().emitted,
                            self.consumed() + self.future().consumed == old(self).consumed()
                                + old(self).future().consumed,
                            hit_nl ==> self.state_spec() == HeaderReaderState::Read0,
                            !hit_nl ==> self.state_spec() == HeaderReaderState::ReadLine,
                            n == 0 ==> !hit_nl && self.read_pos < self.filled,
                        decreases self.filled - self.read_pos,
                    {
                        let ghost t2 = self.stream().skip(self.consumed());
                        proof {
                            assert(self.buf@[self.read_pos as int] == self.stream()[
                                self.consumed()
                            ]);
                            assert(t2.len() > 0);
                            assert(self.stream().skip(self.consumed() + 1) =~= t2.skip(1));
                        }
                        let b2 = self.buf[self.read_pos];
                        let ghost dest_pre = dest@;
                        dest.set(n, b2);
                        self.read_pos = self.read_pos + 1;
                        if b2 == 10u8 {
                            self.state = HeaderReaderState::Read0;
                            hit_nl = true;
                        }
                        proof {
                            assert(dest@.take(n + 1) =~= dest_pre.take(n as int) + seq![b2]);
                            assert(dest_pre.take(n as int) + (seq![b2] + self.future().emitted)
                                =~= dest@.take(n + 1) + self.future().emitted);
                        }
                        n = n + 1;
                    }
                    return Ok(n);
                },
                HeaderReaderState::IgnoreLine => {
                    let ghost c0 = self.consumed();
                    let mut hit_nl = false;
                    while !hit_nl && self.read_pos < self.filled
                        invariant
                            self.wf(),
                            dest.len() == old(dest).len(),
                            dest.len() >= 1,
                            self.stream() == old(self).stream(),
                            self.future().ok == old(self).future().ok,
                            self.future().emitted == old(self).future().emitted,
                            self.consumed() + self.future().consumed == old(self).consumed()
                                + old(self).future().consumed,
                            hit_nl ==> self.state_spec() == HeaderReaderState::Read0,
                            !hit_nl ==> self.state_spec() == HeaderReaderState::IgnoreLine,
                            c0 <= self.consumed(),
                            c0 < self.consumed() || (self.read_pos < self.filled && !hit_nl),
                        decreases self.filled - self.read_pos,
                    {
                        let ghost t2 = self.stream().skip(self.consumed());
                        proof {
                            assert(self.buf@[self.read_pos as int] == self.stream()[
                                self.consumed()
                            ]);
                            assert(t2.len() > 0);
                            assert(self.stream().skip(self.consumed() + 1) =~= t2.skip(1));
                        }
                        let b2 = self.buf[self.read_pos];
                        self.read_pos = self.read_pos + 1;
                        if b2 == 10u8 {
                            self.state = HeaderReaderState::Read0;
                            hit_nl = true;
                        }
                    }
                },
                HeaderReaderState::End => {
                    proof {
                        assert(self.future().emitted =~= dest@.take(0) + self.future().emitted);
                    }
                    return Ok(0);
                },
            }
        }
    }

    /// Drives the extractor to exhaustion, discarding any payload
    /// bytes that were not read out before.
    pub fn read_to_end(&mut self) -> (r: Result<(), Error>)
        requires
            old(self).wf(),
        ensures
            final(self).wf(),
            final(self).stream() == old(self).stream(),
            match r {
                Ok(_) => {
                    &&& old(self).future().ok
                    &&& final(self).consumed() == old(self).consumed() + old(self).future().consumed
                    &&& final(self).future().emitted.len() == 0
                    &&& final(self).future().consumed == 0
                    &&& final(self).future().ok
                },
                Err(e) => {
                    &&& e == Error::MalformedHeaderLine
                    &&& !old(self).future().ok
                },
            },
    {
        let mut scratch: Vec<u8> = Vec::new();
        scratch.push(0u8);
        loop
            invariant
                self.wf(),
                scratch.len() == 1,
                self.stream() == old(self).stream(),
                self.future().ok == old(self).future().ok,
                self.consumed() + self.future().consumed == old(self).consumed() + old(self).future().consumed,
            decreases self.future().emitted.len(),
        {
            match self.read_internal(&mut scratch) {
                Err(e) => {
                    return Err(e);
                },
                Ok(n) => {
                    if n == 0 {
                        return Ok(());
                    }
                },
            }
        }
    }

    /// Finalize: drain the remaining header lines, then hand the
    /// underlying source, together with every byte already pulled into
    /// the window but belonging to the body, over to a body filter.
    /// No byte of the stream is duplicated or lost: the body filter
    /// sees exactly the stream from the end of the header block on.
    pub fn into_body_reader(self) -> (r: Result<BodyReader<R>, Error>)
        requires
            self.wf(),
        ensures
            match r {
                Ok(b) => {
                    &&& self.future().ok
                    &&& b.wf()
                    &&& 0 <= self.consumed() + self.future().consumed <= self.stream().len()
                    &&& b.future() == body_run(
                        BodyReaderState::Read0,
                        self.stream().skip(self.consumed() + self.future().consumed),
                    )
                },
                Err(e) => e == Error::MalformedHeaderLine && !self.future().ok,
            },
    {
        let mut this = self;
        match this.read_to_end() {
            Err(e) => {
                return Err(e);
            },
            Ok(_) => {},
        }
        let ghost th = this;
        let already = if this.read_pos < this.filled {
            Some(
                AlreadyReadPart {
                    buf: this.buf,
                    start: this.read_pos,
                    end: this.filled,
                },
            )
        } else {
            None
        };
        proof {
            assert(carry_bytes(already) + th.inner.stream().skip(th.inner.pos())
                =~= th.stream().skip(th.consumed()));
        }
        Ok(BodyReader::new(this.inner, already))
    }
}

/// Bytes the header extractor had already pulled from the source but
/// that belong to the data body: a window and the two cursors that
/// bound its still-valid part.
pub struct AlreadyReadPart {
    pub buf: Vec<u8>,
    pub start: usize,
    pub end: usize,
}

/// The bytes a carry-over part still holds.
pub open spec fn carry_bytes(ar: Option<AlreadyReadPart>) -> Seq<u8> {
    match ar {
        Some(p) => p.buf@.subrange(p.start as int, p.end as int),
        None => Seq::empty(),
    }
}

/// The body filter's underlying source: first drains the carry-over
/// part, then reads directly from the original source.  The switch is
/// one-way and happens exactly once, when the part is exhausted and
/// dropped.
pub struct RawBodyReader<R: ByteSource> {
    inner: R,
    already_read: Option<AlreadyReadPart>,
}

impl<R: ByteSource> RawBodyReader<R> {
    /// The bytes this source will still deliver: the carry-over first,
    /// then the unread rest of the original stream.
    pub closed spec fn remaining(self) -> Seq<u8> {
        carry_bytes(self.already_read) + self.inner.stream().skip(self.inner.pos())
    }

    pub closed spec fn wf(self) -> bool {
        &&& 0 <= self.inner.pos() <= self.inner.stream().len()
        &&& match self.already_read {
            Some(p) => p.start < p.end <= p.buf.len(),
            None => true,
        }
    }

    /// How many carry-over bytes are still to be drained before the
    /// switch to the original source.
    pub closed spec fn carry_left(self) -> int {
        carry_bytes(self.already_read).len() as int
    }

    pub fn new(inner: R, already_read: Option<AlreadyReadPart>) -> (r: Self)
        requires
            0 <= inner.pos() <= inner.stream().len(),
            already_read matches Some(p) ==> p.start < p.end <= p.buf.len(),
        ensures
            r.wf(),
            r.remaining() == carry_bytes(already_read) + inner.stream().skip(inner.pos()),
    {
        RawBodyReader { inner, already_read }
    }

    /// Reads the next bytes of `remaining()` into a prefix of `dest`;
    /// returns 0 exactly when nothing is left.
    pub fn read(&mut self, dest: &mut Vec<u8>) -> (n: usize)
        requires
            old(self).wf(),
            old(dest).len() >= 1,
        ensures
            final(self).wf(),
            final(dest).len() == old(dest).len(),
            n <= final(dest).len(),
            n <= old(self).remaining().len(),
            old(self).carry_left() > 0 ==> n as int == (if old(self).carry_left() <= old(dest).len() as int {
                old(self).carry_left()
            } else {
                old(dest).len() as int
            }),
            forall|i: int| 0 <= i < n ==> final(dest)@[i] == old(self).remaining()[i],
            final(self).remaining() == old(self).remaining().skip(n as int),
            (n == 0) <==> (old(self).remaining().len() == 0),
    {
        let mut ar: Option<AlreadyReadPart> = None;
        core::mem::swap(&mut ar, &mut self.already_read);
        match ar {
            Some(mut p) => {
                let avail = p.end - p.start;
                let cap = if dest.len() < avail {
                    dest.len()
                } else {
                    avail
                };
                let ghost p0 = p;
                let mut i: usize = 0;
                while i < cap
                    invariant
                        i <= cap,
                        cap <= dest.len(),
                        dest.len() == old(dest).len(),
                        p == p0,
                        p.start + cap <= p.end <= p.buf.len(),
                        forall|j: int| 0 <= j < i ==> dest@[j] == p.buf@[p.start + j],
                    decreases cap - i,
                {
                    let b = p.buf[p.start + i];
                    dest.set(i, b);
                    i = i + 1;
                }
                let ghost old_rem = old(self).remaining();
                p.start = p.start + cap;
                if p.start < p.end {
                    self.already_read = Some(p);
                }
                proof {
                    assert(forall|j: int| 0 <= j < cap ==> dest@[j] == old_rem[j]);
                    assert(self.remaining() =~= old_rem.skip(cap as int));
                    assert(old_rem.len() > 0);
                }
                cap
            },
            None => {
                let n = self.inner.read(dest);
                proof {
                    assert(old(self).remaining() =~= self.inner.stream().skip(
                        old(self).inner.pos(),
                    ));
                    assert(self.remaining() =~= old(self).remaining().skip(n as int));
                }
                n
            },
        }
    }
}

/// The second byte-stream transformer: passes data lines through
/// verbatim and silently drops every line whose first byte is the
/// comment marker.  A line consisting only of whitespace is not
/// dropped; only the first byte decides.
pub struct BodyReader<R: ByteSource> {
    inner: RawBodyReader<R>,
    buf: Vec<u8>,
    read_pos: usize,
    filled: usize,
    state: BodyReaderState,
}

impl<R: ByteSource> BodyReader<R> {
    pub closed spec fn window(self) -> Seq<u8> {
        self.buf@.subrange(self.read_pos as int, self.filled as int)
    }

    /// The bytes still ahead of the filter: the unclassified window,
    /// then whatever the underlying two-phase source will deliver.
    pub closed spec fn input_left(self) -> Seq<u8> {
        self.window() + self.inner.remaining()
    }

    pub closed spec fn state_spec(self) -> BodyReaderState {
        self.state
    }

    /// Everything a complete run from here on will emit.
    pub open spec fn future(self) -> Seq<u8> {
        body_run(self.state_spec(), self.input_left())
    }

    pub closed spec fn wf(self) -> bool {
        &&& self.read_pos <= self.filled <= self.buf.len()
        &&& self.buf.len() >= 1
        &&& self.inner.wf()
    }

    pub fn new(inner: R, already_read: Option<AlreadyReadPart>) -> (b: Self)
        requires
            0 <= inner.pos() <= inner.stream().len(),
            already_read matches Some(p) ==> p.start < p.end <= p.buf.len(),
        ensures
            b.wf(),
            b.future() == body_run(
                BodyReaderState::Read0,
                carry_bytes(already_read) + inner.stream().skip(inner.pos()),
            ),
    {
        let raw = RawBodyReader::new(inner, already_read);
        let mut buf: Vec<u8> = Vec::new();
        while buf.len() < BUF_SIZE
            invariant
                buf.len() <= BUF_SIZE,
            decreases BUF_SIZE - buf.len(),
        {
            buf.push(0u8);
        }
        let b = BodyReader { inner: raw, buf, read_pos: 0, filled: 0, state: BodyReaderState::Read0 };
        proof {
            assert(b.input_left() =~= carry_bytes(already_read) + inner.stream().skip(
                inner.pos(),
            ));
        }
        b
    }

    /// Reads the next filtered body bytes into a prefix of `dest`;
    /// the bytes delivered over a whole run, concatenated, are exactly
    /// `future()`.  Returns 0 exactly when nothing is left.
    pub fn read(&mut self, dest: &mut Vec<u8>) -> (n: usize)
        requires
            old(self).wf(),
            old(dest).len() >= 1,
        ensures
            final(self).wf(),
            final(dest).len() == old(dest).len(),
            n <= final(dest).len(),
            forall|i: int| n <= i < final(dest)@.len() ==> final(dest)@[i] == old(dest)@[i],
            old(self).future() == final(dest)@.take(n as int) + final(self).future(),
            (n == 0) <==> (old(self).future().len() == 0),
    {
        loop
            invariant
                self.wf(),
                dest@ == old(dest)@,
                dest.len() >= 1,
                self.future() == old(self).future(),
            decreases self.input_left().len(), body_rank(self.state_spec()),
        {
            if self.read_pos == self.filled {
                let ghost pre = *self;
                let n = self.inner.read(&mut self.buf);
                self.filled = n;
                self.read_pos = 0;
                proof {
                    assert(self.window() =~= pre.inner.remaining().take(n as int));
                    assert(self.input_left() =~= pre.input_left());
                }
                if self.filled == 0 {
                    proof {
                        assert(self.input_left().len() == 0);
                    }
                    self.state = BodyReaderState::End;
                    proof {
                        assert(old(self).future() =~= dest@.take(0) + self.future());
                    }
                    return 0;
                }
            }
            let ghost t = self.input_left();
            proof {
                assert(self.read_pos < self.filled);
                assert(t[0] == self.buf@[self.read_pos as int]);
                assert(t.len() > 0);
            }
            let b = self.buf[self.read_pos];
            match self.state {
                BodyReaderState::Read0 => {
                    if b == 35u8 {
                        self.read_pos = self.read_pos + 1;
                        self.state = BodyReaderState::IgnoreLine;
                        proof {
                            assert(self.input_left() =~= t.skip(1));
                        }
                    } else {
                        self.state = BodyReaderState::ReadLine;
                    }
                },
                BodyReaderState::ReadLine => {
                    let mut n: usize = 0;
                    let mut hit_nl = false;
                    proof {
                        assert(dest@.take(0) + self.future() =~= self.future());
                    }
                    while !hit_nl && self.read_pos < self.filled && n < dest.len()
                        invariant
                            self.wf(),
                            dest.len() == old(dest).len(),
                            dest.len() >= 1,
                            n <= dest.len(),
                            forall|i: int| n <= i < dest@.len() ==> dest@[i] == old(dest)@[i],
                            old(self).future() == dest@.take(n as int) + self.future(),
                            hit_nl ==> self.state_spec() == BodyReaderState::Read0,
                            !hit_nl ==> self.state_spec() == BodyReaderState::ReadLine,
                            n == 0 ==> !hit_nl && self.read_pos < self.filled,
                        decreases self.filled - self.read_pos,
                    {
                        let ghost t2 = self.input_left();
                        proof {
                            assert(t2[0] == self.buf@[self.read_pos as int]);
                            assert(t2.len() > 0);
                        }
                        let b2 = self.buf[self.read_pos];
                        let ghost dest_pre = dest@;
                        dest.set(n, b2);
                        self.read_pos = self.read_pos + 1;
                        if b2 == 10u8 {
                            self.state = BodyReaderState::Read0;
                            hit_nl = true;
                        }
                        proof {
                            assert(self.input_left() =~= t2.skip(1));
                            assert(dest@.take(n + 1) =~= dest_pre.take(n as int) + seq![b2]);
                            assert(dest_pre.take(n as int) + (seq![b2] + self.future())
                                =~= dest@.take(n + 1) + self.future());
                        }
                        n = n + 1;
                    }
                    return n;
                },
                BodyReaderState::IgnoreLine => {
                    let ghost l0 = self.input_left().len();
                    let mut hit_nl = false;
                    while !hit_nl && self.read_pos < self.filled
                        invariant
                            self.wf(),
                            dest.len() == old(dest).len(),
                            dest.len() >= 1,
                            self.future() == old(self).future(),
                            self.input_left().len() <= l0,
                            hit_nl ==> self.state_spec() == BodyReaderState::Read0,
                            !hit_nl ==> self.state_spec() == BodyReaderState::IgnoreLine,
                            self.input_left().len() < l0 || (self.read_pos < self.filled
                                && !hit_nl),
                        decreases self.filled - self.read_pos,
                    {
                        let ghost t2 = self.input_left();
                        proof {
                            assert(t2[0] == self.buf@[self.read_pos as int]);
                            assert(t2.len() > 0);
                        }
                        let b2 = self.buf[self.read_pos];
                        self.read_pos = self.read_pos + 1;
                        if b2 == 10u8 {
                            self.state = BodyReaderState::Read0;
                            hit_nl = true;
                        }
                        proof {
                            assert(self.input_left() =~= t2.skip(1));
                        }
                    }
                },
                BodyReaderState::End => {
                    proof {
                        assert(old(self).future() =~= dest@.take(0) + self.future());
                    }
                    return 0;
                },
            }
        }
    }
}

} // verus!
