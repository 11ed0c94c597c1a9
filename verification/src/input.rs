//! An in-memory source of bytes read front to back, with the failures that reading it
//! can meet.
use vstd::prelude::*;

verus! {

/// The kind of a failure to read input.
#[derive(Debug, Clone, Copy, PartialEq, Eq, Structural)]
pub enum IoErrorKind {
    /// The input ended before the bytes that were asked for.
    UnexpectedEof,
    /// Any other failure of the source the bytes came from.
    Other,
}

/// A failure to read input.
#[derive(Debug, Clone, Copy, PartialEq, Eq, Structural)]
pub struct IoError {
    pub kind: IoErrorKind,
}

/// The failure of asking for more bytes than the input still holds.
pub open spec fn eof_error() -> IoError {
    IoError { kind: IoErrorKind::UnexpectedEof }
}

impl IoError {
    /// What kind of failure this is.
    pub fn kind(&self) -> (k: IoErrorKind)
        ensures
            k == self.kind,
    {
        self.kind
    }
}

/// A buffered reader over bytes held in memory. Its view is the sequence of bytes not
/// read yet.
pub struct ByteReader {
    data: Vec<u8>,
    pos: usize,
}

impl ByteReader {
    #[verifier::type_invariant]
    spec fn inv(self) -> bool {
        self.pos <= self.data.len()
    }

    /// Reads `data` from its first byte.
    pub fn new(data: Vec<u8>) -> (r: ByteReader)
        ensures
            r@ == data@,
    {
        let r = ByteReader { data, pos: 0 };
        assert(r.data@.skip(0) =~= r.data@);
        r
    }

    /// The bytes not read yet, as a slice; nothing is consumed.
    pub fn fill_buf(&self) -> (b: &[u8])
        ensures
            b@ == self@,
    {
        proof {
            use_type_invariant(self);
        }
        let all = self.data.as_slice();
        let rest = vstd::slice::slice_subrange(all, self.pos, self.data.len());
        assert(rest@ =~= self@);
        rest
    }

    /// How many bytes are not read yet.
    pub fn remaining(&self) -> (n: usize)
        ensures
            n == self@.len(),
    {
        proof {
            use_type_invariant(self);
        }
        self.data.len() - self.pos
    }

    /// Marks the first `n` unread bytes as read.
    pub fn consume(&mut self, n: usize)
        requires
            n <= old(self)@.len(),
        ensures
            final(self)@ == old(self)@.skip(n as int),
    {
        proof {
            use_type_invariant(&*self);
        }
        self.pos = self.pos + n;
        assert(self@ =~= old(self)@.skip(n as int));
    }

    /// Reads exactly `n` bytes. Where fewer remain, nothing is read and the error is
    /// `UnexpectedEof`.
    pub fn read_exact(&mut self, n: usize) -> (r: Result<Vec<u8>, IoError>)
        ensures
            n <= old(self)@.len() ==> (r matches Ok(bytes) && bytes@ == old(self)@.take(n as int)
                && final(self)@ == old(self)@.skip(n as int)),
            n > old(self)@.len() ==> r == Err::<Vec<u8>, IoError>(eof_error()) && final(self)@
                == old(self)@,
    {
        proof {
            use_type_invariant(&*self);
        }
        if n > self.data.len() - self.pos {
            return Err(IoError { kind: IoErrorKind::UnexpectedEof });
        }
        let all = self.data.as_slice();
        let part = vstd::slice::slice_subrange(all, self.pos, self.pos + n);
        let bytes = vstd::slice::slice_to_vec(part);
        self.consume(n);
        assert(bytes@ =~= old(self)@.take(n as int));
        Ok(bytes)
    }
}

impl View for ByteReader {
    type V = Seq<u8>;

    closed spec fn view(&self) -> Seq<u8> {
        self.data@.skip(self.pos as int)
    }
}

} // verus!
