use vstd::prelude::*;

verus! {

/// An error that is returned when reading from a slice.
#[derive(Debug, Clone, Copy, PartialEq, Eq)]
pub enum SliceReadError {
    /// Tried reading more bytes than the slice contains.
    EndOfSlice,
}

/// A source of bytes that deserialization reads from.
///
/// This plays the part of `std::io::Read` where std is not available. Because deserialization
/// is done in place, the slices that `read_range` returns must borrow from storage that lives
/// for `'a`, not from a buffer scoped to the call; this lets a consumer turn them into `&str`
/// or `&[u8]` without copying. Reads are blocking. The trait is implemented for `&[u8]`.
pub trait CoreRead<'a> {
    /// The error that this source can encounter.
    type Error: core::fmt::Debug;

    /// The bytes that this source has not handed out yet, in order.
    spec fn unread(&self) -> Seq<u8>;

    /// Holds of a source type whose reads fail only when fewer bytes remain than were asked
    /// for, and whose failed reads leave it where it was (a source backed by a device may fail
    /// for other reasons too, and may have moved when it does).
    spec fn fails_only_at_end() -> bool;

    /// Reads a single byte.
    ///
    /// By default this reads a slice of one byte and returns its only element. A source may
    /// override it, for example to read through a small scratch buffer: unlike the slices of
    /// `read_range`, the byte is returned by value and need not stay stored anywhere.
    fn read(&mut self) -> (r: Result<u8, Self::Error>)
        ensures
            old(self).unread().len() == 0 ==> r is Err,
            Self::fails_only_at_end() && old(self).unread().len() > 0 ==> r is Ok,
            Self::fails_only_at_end() && r is Err ==> final(self).unread() == old(self).unread(),
            r matches Ok(b) ==> {
                &&& old(self).unread().len() > 0
                &&& b == old(self).unread()[0]
                &&& final(self).unread() == old(self).unread().skip(1)
            },
    {
        match self.read_range(1) {
            Ok(buff) => Ok(buff[0]),
            Err(e) => Err(e),
        }
    }

    /// Reads a slice of exactly `len` bytes, advancing past them.
    ///
    /// The slice must be a reference to persistent storage valid for `'a`, and must have exactly
    /// the requested length; a source that cannot supply that many bytes fails instead. Where the
    /// source stands after a failure is up to the source, so a failed source should not be read
    /// again unless its type says otherwise.
    fn read_range(&mut self, len: usize) -> (r: Result<&'a [u8], Self::Error>)
        ensures
            len > old(self).unread().len() ==> r is Err,
            Self::fails_only_at_end() && len <= old(self).unread().len() ==> r is Ok,
            Self::fails_only_at_end() && r is Err ==> final(self).unread() == old(self).unread(),
            r matches Ok(s) ==> {
                &&& s@ == old(self).unread().take(len as int)
                &&& final(self).unread() == old(self).unread().skip(len as int)
            },
    ;

    /// Reads `len` bytes into a newly allocated vector, one byte at a time.
    ///
    /// Only `read` is used, so the bytes need not be stored persistently by the source. On
    /// failure the bytes copied so far are dropped and the first error is returned; the bytes
    /// read before it stay consumed.
    fn read_vec(&mut self, len: usize) -> (r: Result<Vec<u8>, Self::Error>)
        ensures
            len > old(self).unread().len() ==> r is Err,
            len == 0 ==> (r matches Ok(v) && v@.len() == 0 && final(self).unread()
                == old(self).unread()),
            Self::fails_only_at_end() && len <= old(self).unread().len() ==> r is Ok,
            Self::fails_only_at_end() && r is Err ==> final(self).unread().len() == 0,
            r matches Ok(v) ==> {
                &&& v@ == old(self).unread().take(len as int)
                &&& final(self).unread() == old(self).unread().skip(len as int)
            },
    {
        let ghost start = self.unread();
        let mut vec: Vec<u8> = Vec::with_capacity(len);
        let mut i: usize = 0;
        while i < len
            invariant
                start == old(self).unread(),
                i <= len,
                i <= start.len(),
                vec@ == start.take(i as int),
                self.unread() == start.skip(i as int),
            decreases len - i,
        {
            match self.read() {
                Ok(b) => {
                    proof {
                        assert(start.skip(i as int).skip(1) =~= start.skip(i + 1));
                        assert(start.take(i + 1) =~= start.take(i as int).push(b));
                    }
                    vec.push(b);
                },
                Err(e) => {
                    return Err(e);
                },
            }
            i = i + 1;
        }
        Ok(vec)
    }
}

/// A slice reads from its own front, shrinking as it goes; the slices it returns borrow from the
/// same storage.
///
/// Verified callers name the implementation in full, as in
/// `<&'a [u8] as CoreRead<'a>>::read_range(&mut src, n)` with `src: &'a [u8]`, since Verus does
/// not resolve the method-call form of these calls.
impl<'a> CoreRead<'a> for &'a [u8] {
    type Error = SliceReadError;

    open spec fn unread(&self) -> Seq<u8> {
        self@
    }

    open spec fn fails_only_at_end() -> bool {
        true
    }

    /// Splits the first `len` bytes off the slice; the slice is left unchanged on failure.
    fn read_range(&mut self, len: usize) -> (r: Result<&'a [u8], SliceReadError>)
        ensures
            r is Ok <==> len <= old(self)@.len(),
            r matches Ok(s) ==> {
                &&& s@ == old(self)@.take(len as int)
                &&& final(self)@ == old(self)@.skip(len as int)
            },
            r matches Err(e) ==> e == SliceReadError::EndOfSlice && *final(self) == *old(self),
            len == 0 ==> (r matches Ok(s) && s@.len() == 0 && *final(self) == *old(self)),
    {
        if len > self.len() {
            return Err(SliceReadError::EndOfSlice);
        }
        let (front, back) = self.split_at(len);
        *self = back;
        Ok(front)
    }
}

/// `outs` are the bytes handed out by successive successful single-byte reads of a source
/// whose unread bytes were `states[0]`, then `states[1]`, and so on: each read returns the
/// first unread byte and drops it, as `CoreRead::read` promises.
pub open spec fn single_byte_reads(states: Seq<Seq<u8>>, outs: Seq<u8>) -> bool {
    &&& states.len() == outs.len() + 1
    &&& forall|k: int|
        0 <= k < outs.len() ==> {
            &&& #[trigger] states[k].len() > 0
            &&& outs[k] == states[k][0]
            &&& states[k + 1] == states[k].skip(1)
        }
}

/// Reading a source one byte at a time until nothing is left reproduces its unread bytes
/// exactly, in order.
pub proof fn lemma_single_byte_reads_reproduce_input(states: Seq<Seq<u8>>, outs: Seq<u8>)
    requires
        single_byte_reads(states, outs),
        states.last().len() == 0,
    ensures
        outs == states[0],
    decreases outs.len(),
{
    if outs.len() > 0 {
        let rest_states = states.drop_first();
        let rest_outs = outs.drop_first();
        assert forall|k: int| 0 <= k < rest_outs.len() implies {
            &&& #[trigger] rest_states[k].len() > 0
            &&& rest_outs[k] == rest_states[k][0]
            &&& rest_states[k + 1] == rest_states[k].skip(1)
        } by {
            assert(states[k + 1].len() > 0);
        }
        lemma_single_byte_reads_reproduce_input(rest_states, rest_outs);
        assert(states[0].len() > 0);
        assert(outs =~= seq![outs[0]] + rest_outs);
        assert(states[0] =~= seq![states[0][0]] + states[0].skip(1));
    } else {
        assert(states[0].len() == 0);
        assert(outs =~= states[0]);
    }
}

} // verus!
