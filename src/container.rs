//! Storage for variable-length byte buffers: growable or of fixed capacity.
use vstd::prelude::*;

use crate::error::Error;

verus! {

/// `n` as a `usize`, or the largest `usize` where `n` exceeds it.
pub open spec fn saturated(n: int) -> usize {
    if n <= usize::MAX {
        n as usize
    } else {
        usize::MAX
    }
}

/// Interface to a variable length storage container of bytes.
///
/// Codec and assembler are written against this interface, so that a
/// growable and a fixed-capacity container can back them alike.
pub trait Ws6in1Container: Sized {
    /// The bytes held.
    spec fn contents(&self) -> Seq<u8>;

    /// The largest number of bytes the container can hold.
    spec fn capacity() -> nat;

    /// Constructs a container from a slice.
    fn from_slice(value: &[u8]) -> (r: Self)
        requires
            value@.len() <= Self::capacity(),
        ensures
            r.contents() == value@,
    ;

    /// Appends the content of a container to another.
    fn append(&mut self, other: &[u8]) -> (r: Result<(), Error>)
        requires
            old(self).contents().len() <= Self::capacity(),
        ensures
            old(self).contents().len() + other@.len() <= Self::capacity() ==> {
                &&& r is Ok
                &&& final(self).contents() == old(self).contents() + other@
            },
            old(self).contents().len() + other@.len() > Self::capacity() ==> {
                &&& r == Err::<(), Error>(
                    Error::MessageTooLarge {
                        len: saturated(old(self).contents().len() + other@.len() as int),
                    },
                )
                &&& final(self).contents() == old(self).contents()
            },
    ;

    /// Clears the content of a container.
    fn clear(&mut self)
        ensures
            final(self).contents() == Seq::<u8>::empty(),
    ;

    /// The bytes held, as a slice.
    fn as_slice(&self) -> (r: &[u8])
        ensures
            r@ == self.contents(),
    ;

    /// Number of bytes held.
    fn len(&self) -> (r: usize)
        ensures
            r == self.contents().len(),
    ;
}

impl Ws6in1Container for Vec<u8> {
    open spec fn contents(&self) -> Seq<u8> {
        self@
    }

    open spec fn capacity() -> nat {
        usize::MAX as nat
    }

    fn from_slice(value: &[u8]) -> (r: Self) {
        let mut v: Vec<u8> = Vec::new();
        let mut i: usize = 0;
        while i < value.len()
            invariant
                i <= value@.len(),
                v@ == value@.take(i as int),
            decreases value@.len() - i,
        {
            v.push(value[i]);
            i = i + 1;
        }
        assert(v@ == value@.take(value@.len() as int));
        v
    }

    fn append(&mut self, other: &[u8]) -> (r: Result<(), Error>) {
        if other.len() > usize::MAX - self.len() {
            return Err(Error::MessageTooLarge { len: usize::MAX });
        }
        let ghost start = self@;
        let mut i: usize = 0;
        while i < other.len()
            invariant
                i <= other@.len(),
                self@ == start + other@.take(i as int),
            decreases other@.len() - i,
        {
            self.push(other[i]);
            i = i + 1;
        }
        assert(other@.take(other@.len() as int) == other@);
        Ok(())
    }

    fn clear(&mut self) {
        Vec::clear(self);
    }

    fn as_slice(&self) -> (r: &[u8]) {
        Vec::as_slice(self)
    }

    fn len(&self) -> (r: usize) {
        Vec::len(self)
    }
}

} // verus!

verus! {

// The fixed-capacity container comes in the two capacities the protocol
// uses: 54 bytes for a payload and 256 bytes for an assembled message. Each
// has its own name for the bytes held, since such a name takes no generics.
#[verifier::external_type_specification]
#[verifier::external_body]
#[verifier::reject_recursive_types(T)]
pub struct ExHeaplessVec<T, const N: usize>(heapless::Vec<T, N>);

/// The bytes a fixed-capacity vector of 54 bytes holds.
pub uninterp spec fn fixed54_items(v: heapless::Vec<u8, 54>) -> Seq<u8>;

/// Relies on `heapless::Vec::new`: an empty vector.
#[verifier::external_body]
fn fixed54_new() -> (r: heapless::Vec<u8, 54>)
    ensures
        fixed54_items(r) == Seq::<u8>::empty(),
{
    heapless::Vec::new()
}

/// Relies on `heapless::Vec::extend_from_slice`: appends all of `other` if it
/// fits in the capacity, else changes nothing and fails.
#[verifier::external_body]
fn fixed54_extend(v: &mut heapless::Vec<u8, 54>, other: &[u8]) -> (r: core::result::Result<(), ()>)
    requires
        fixed54_items(*old(v)).len() + other@.len() <= usize::MAX,
    ensures
        fixed54_items(*old(v)).len() + other@.len() <= 54 ==> r is Ok && fixed54_items(*final(v))
            == fixed54_items(*old(v)) + other@,
        fixed54_items(*old(v)).len() + other@.len() > 54 ==> r is Err && fixed54_items(*final(v))
            == fixed54_items(*old(v)),
{
    v.extend_from_slice(other)
}

/// Relies on `heapless::Vec::clear`: removes every element.
#[verifier::external_body]
fn fixed54_clear(v: &mut heapless::Vec<u8, 54>)
    ensures
        fixed54_items(*final(v)) == Seq::<u8>::empty(),
{
    v.clear()
}

/// Relies on `heapless::Vec::as_slice`: the elements held, at most the capacity.
#[verifier::external_body]
fn fixed54_as_slice(v: &heapless::Vec<u8, 54>) -> (r: &[u8])
    ensures
        r@ == fixed54_items(*v),
        r@.len() <= 54,
{
    v.as_slice()
}

impl Ws6in1Container for heapless::Vec<u8, 54> {
    open spec fn contents(&self) -> Seq<u8> {
        fixed54_items(*self)
    }

    open spec fn capacity() -> nat {
        54
    }

    fn from_slice(value: &[u8]) -> (r: Self) {
        let mut v = fixed54_new();
        let _ = fixed54_extend(&mut v, value);
        assert(Seq::<u8>::empty() + value@ == value@);
        v
    }

    fn append(&mut self, other: &[u8]) -> (r: Result<(), Error>) {
        let len = fixed54_as_slice(self).len();
        if other.len() > usize::MAX - len {
            return Err(Error::MessageTooLarge { len: usize::MAX });
        }
        match fixed54_extend(self, other) {
            Ok(()) => Ok(()),
            Err(()) => Err(Error::MessageTooLarge { len: len + other.len() }),
        }
    }

    fn clear(&mut self) {
        fixed54_clear(self)
    }

    fn as_slice(&self) -> (r: &[u8]) {
        fixed54_as_slice(self)
    }

    fn len(&self) -> (r: usize) {
        fixed54_as_slice(self).len()
    }
}

/// The bytes a fixed-capacity vector of 256 bytes holds.
pub uninterp spec fn fixed256_items(v: heapless::Vec<u8, 256>) -> Seq<u8>;

/// Relies on `heapless::Vec::new`: an empty vector.
#[verifier::external_body]
fn fixed256_new() -> (r: heapless::Vec<u8, 256>)
    ensures
        fixed256_items(r) == Seq::<u8>::empty(),
{
    heapless::Vec::new()
}

/// Relies on `heapless::Vec::extend_from_slice`: appends all of `other` if it
/// fits in the capacity, else changes nothing and fails.
#[verifier::external_body]
fn fixed256_extend(v: &mut heapless::Vec<u8, 256>, other: &[u8]) -> (r: core::result::Result<(), ()>)
    requires
        fixed256_items(*old(v)).len() + other@.len() <= usize::MAX,
    ensures
        fixed256_items(*old(v)).len() + other@.len() <= 256 ==> r is Ok && fixed256_items(*final(v))
            == fixed256_items(*old(v)) + other@,
        fixed256_items(*old(v)).len() + other@.len() > 256 ==> r is Err && fixed256_items(*final(v))
            == fixed256_items(*old(v)),
{
    v.extend_from_slice(other)
}

/// Relies on `heapless::Vec::clear`: removes every element.
#[verifier::external_body]
fn fixed256_clear(v: &mut heapless::Vec<u8, 256>)
    ensures
        fixed256_items(*final(v)) == Seq::<u8>::empty(),
{
    v.clear()
}

/// Relies on `heapless::Vec::as_slice`: the elements held, at most the capacity.
#[verifier::external_body]
fn fixed256_as_slice(v: &heapless::Vec<u8, 256>) -> (r: &[u8])
    ensures
        r@ == fixed256_items(*v),
        r@.len() <= 256,
{
    v.as_slice()
}

impl Ws6in1Container for heapless::Vec<u8, 256> {
    open spec fn contents(&self) -> Seq<u8> {
        fixed256_items(*self)
    }

    open spec fn capacity() -> nat {
        256
    }

    fn from_slice(value: &[u8]) -> (r: Self) {
        let mut v = fixed256_new();
        let _ = fixed256_extend(&mut v, value);
        assert(Seq::<u8>::empty() + value@ == value@);
        v
    }

    fn append(&mut self, other: &[u8]) -> (r: Result<(), Error>) {
        let len = fixed256_as_slice(self).len();
        if other.len() > usize::MAX - len {
            return Err(Error::MessageTooLarge { len: usize::MAX });
        }
        match fixed256_extend(self, other) {
            Ok(()) => Ok(()),
            Err(()) => Err(Error::MessageTooLarge { len: len + other.len() }),
        }
    }

    fn clear(&mut self) {
        fixed256_clear(self)
    }

    fn as_slice(&self) -> (r: &[u8]) {
        fixed256_as_slice(self)
    }

    fn len(&self) -> (r: usize) {
        fixed256_as_slice(self).len()
    }
}

} // verus!
