//! Writing all of some data through a system that may take less of it at a time.
use vstd::prelude::*;

verus! {

/// Data on its way out: what was written, and what is left.
pub struct Outgoing {
    data: Vec<u8>,
    written: usize,
}

impl Outgoing {
    /// The number of bytes that were written does not exceed what there is.
    pub closed spec fn wf(&self) -> bool {
        self.written <= self.data@.len()
    }

    /// All of the data.
    pub closed spec fn all(&self) -> Seq<u8> {
        self.data@
    }

    /// What was written.
    pub closed spec fn sent(&self) -> Seq<u8> {
        self.data@.take(self.written as int)
    }

    /// What is left to write.
    pub closed spec fn left(&self) -> Seq<u8> {
        self.data@.skip(self.written as int)
    }

    /// Data of which nothing was written.
    pub fn new(data: Vec<u8>) -> (r: Self)
        ensures
            r.wf(),
            r.all() == data@,
            r.sent() == Seq::<u8>::empty(),
            r.left() == data@,
    {
        let r = Outgoing { data, written: 0 };
        assert(r.sent() =~= Seq::<u8>::empty());
        assert(r.left() =~= data@);
        r
    }

    /// Whether all of it was written.
    pub fn is_done(&self) -> (b: bool)
        requires
            self.wf(),
        ensures
            b == (self.left().len() == 0),
    {
        self.written == self.data.len()
    }

    /// What to hand to the next write.
    pub fn rest(&self) -> (bytes: &[u8])
        requires
            self.wf(),
        ensures
            bytes@ == self.left(),
    {
        let bytes = vstd::slice::slice_subrange(self.data.as_slice(), self.written, self.data.len());
        assert(bytes@ =~= self.left());
        bytes
    }

    /// Takes note that the next `n` bytes were written.
    pub fn advance(&mut self, n: usize)
        requires
            old(self).wf(),
            n <= old(self).left().len(),
        ensures
            final(self).wf(),
            final(self).all() == old(self).all(),
            final(self).sent() == old(self).sent() + old(self).left().take(n as int),
            final(self).left() == old(self).left().skip(n as int),
    {
        let len: usize = self.data.len();
        assert(self.written + n <= len);
        self.written = self.written + n;
        assert(self.sent() =~= old(self).sent() + old(self).left().take(n as int));
        assert(self.left() =~= old(self).left().skip(n as int));
    }
}

/// Whatever the writes take, what was written and what is left make up the data, in order.
pub proof fn nothing_is_lost_or_repeated(o: Outgoing)
    requires
        o.wf(),
    ensures
        o.sent() + o.left() == o.all(),
        o.left().len() == 0 ==> o.sent() == o.all(),
{
    assert(o.sent() + o.left() =~= o.all());
    if o.left().len() == 0 {
        assert(o.sent() =~= o.all());
    }
}

} // verus!
