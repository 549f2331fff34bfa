use vstd::prelude::*;

verus! {

/// A sequential byte source supporting repeated bounded reads.
///
/// `stream()` is the whole content the source will ever deliver and
/// `pos()` is how many bytes of it have been handed out so far.  A
/// `read` fills a prefix of the caller's buffer with the next bytes of
/// the stream; it returns 0 exactly when the stream is exhausted.
pub trait ByteSource: Sized {
    spec fn stream(&self) -> Seq<u8>;

    spec fn pos(&self) -> int;

    fn read(&mut self, buf: &mut Vec<u8>) -> (n: usize)
        requires
            0 <= old(self).pos() <= old(self).stream().len(),
            old(buf).len() >= 1,
        ensures
            final(self).stream() == old(self).stream(),
            final(self).pos() == old(self).pos() + n,
            final(self).pos() <= final(self).stream().len(),
            final(buf).len() == old(buf).len(),
            n <= final(buf).len(),
            forall|i: int|
                0 <= i < n ==> final(buf)@[i] == old(self).stream()[old(self).pos() + i],
            (n == 0) <==> (old(self).pos() == old(self).stream().len()),
    ;
}

/// An in-memory byte source: the whole input held as one vector, read
/// out in bounded chunks.
pub struct SliceSource {
    data: Vec<u8>,
    cursor: usize,
}

impl SliceSource {
    pub fn new(data: Vec<u8>) -> (s: Self)
        ensures
            s.stream() == data@,
            s.pos() == 0,
    {
        SliceSource { data, cursor: 0 }
    }
}

impl ByteSource for SliceSource {
    closed spec fn stream(&self) -> Seq<u8> {
        self.data@
    }

    closed spec fn pos(&self) -> int {
        self.cursor as int
    }

    fn read(&mut self, buf: &mut Vec<u8>) -> (n: usize) {
        let mut i: usize = 0;
        while i < buf.len() && self.cursor < self.data.len()
            invariant
                i <= buf.len(),
                buf.len() == old(buf).len(),
                self.cursor <= self.data.len(),
                self.cursor == old(self).cursor + i,
                self.data@ == old(self).data@,
                forall|j: int|
                    0 <= j < i ==> buf@[j] == self.data@[old(self).cursor + j],
            decreases buf.len() - i,
        {
            let b = self.data[self.cursor];
            buf.set(i, b);
            self.cursor = self.cursor + 1;
            i = i + 1;
        }
        i
    }
}

} // verus!
