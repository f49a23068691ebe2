//! The arena: one owned byte buffer and a cursor into it.
//!
//! Allocations are handed out as offsets into the buffer, so every access
//! is bounds-checked; alignment is measured from the start of the buffer.
use vstd::arithmetic::div_mod::{lemma_fundamental_div_mod, lemma_mod_multiples_basic};
use vstd::arithmetic::power2::is_pow2;
use vstd::layout::{align_of, size_of};
use vstd::prelude::*;

use crate::plain::Plain;

verus! {

/// The only error the arena reports: the request does not fit in the
/// space that is left.
#[derive(Debug, Clone, Copy, PartialEq, Eq, Structural)]
pub enum ArenaError {
    OutOfMemory,
}

/// The smallest multiple of `align` that is at least `offset`.
pub open spec fn align_up(offset: nat, align: nat) -> nat
    recommends
        align > 0,
{
    if offset % align == 0 {
        offset
    } else {
        offset + (align - offset % align) as nat
    }
}

/// The rounded cursor is aligned, and lies less than one `align` past the
/// cursor.
pub proof fn lemma_align_up(offset: nat, align: nat)
    requires
        align > 0,
    ensures
        align_up(offset, align) % align == 0,
        offset <= align_up(offset, align) < offset + align,
{
    let q = offset as int / align as int;
    lemma_fundamental_div_mod(offset as int, align as int);
    lemma_mod_multiples_basic(q + 1, align as int);
    assert((q + 1) * align == align * q + align) by (nonlinear_arith);
}

/// Where a request of `size` bytes aligned to `align` starts, on an arena of
/// `capacity` bytes whose cursor stands at `used`; `None` when it does not fit.
pub open spec fn placement(capacity: nat, used: nat, size: nat, align: nat) -> Option<nat> {
    let start = align_up(used, align);
    if start + size <= capacity {
        Some(start)
    } else {
        None
    }
}

/// The cursor after that request: past the new block, or unchanged on failure.
pub open spec fn used_after(capacity: nat, used: nat, size: nat, align: nat) -> nat {
    match placement(capacity, used, size, align) {
        Some(start) => start + size,
        None => used,
    }
}

/// `bytes` with the stretch from `at` on replaced by `part`.
pub open spec fn overwrite(bytes: Seq<u8>, at: nat, part: Seq<u8>) -> Seq<u8> {
    bytes.subrange(0, at as int) + part + bytes.subrange((at + part.len()) as int, bytes.len() as int)
}

/// The value of type `T` held in `bytes` from `at` on.
pub open spec fn value_at<T: Plain>(bytes: Seq<u8>, at: nat) -> T {
    T::value_of(bytes.subrange(at as int, (at + size_of::<T>()) as int))
}

/// A value written over the bytes from `at` on is what those bytes then hold.
pub proof fn lemma_value_at_overwrite<T: Plain>(bytes: Seq<u8>, at: nat, v: T)
    requires
        at + size_of::<T>() <= bytes.len(),
    ensures
        value_at::<T>(overwrite(bytes, at, T::bytes_of(v)), at) == v,
{
    T::lemma_bytes_round_trip(v);
    let after = overwrite(bytes, at, T::bytes_of(v));
    assert(after.subrange(at as int, (at + size_of::<T>()) as int) =~= T::bytes_of(v));
}

/// What an arena is, abstractly: its bytes (whose number is the capacity)
/// and how many of them, from the start, are in use.
pub ghost struct ArenaModel {
    pub bytes: Seq<u8>,
    pub used: nat,
}

impl ArenaModel {
    pub open spec fn capacity(self) -> nat {
        self.bytes.len()
    }
}

/// A bump allocator over a buffer of fixed length.
pub struct Arena {
    buf: Vec<u8>,
    offset: usize,
}

impl View for Arena {
    type V = ArenaModel;

    closed spec fn view(&self) -> ArenaModel {
        ArenaModel { bytes: self.buf@, used: self.offset as nat }
    }
}

impl Arena {
    /// The cursor never passes the end of the buffer.
    pub open spec fn wf(&self) -> bool {
        self@.used <= self@.capacity()
    }

    /// An arena of `capacity` bytes with nothing in use.
    pub fn new(capacity: usize) -> (a: Arena)
        ensures
            a.wf(),
            a@.capacity() == capacity,
            a@.used == 0,
    {
        let buf: Vec<u8> = vec![0u8; capacity];
        Arena { buf, offset: 0 }
    }

    /// The fixed length of the buffer.
    pub fn capacity(&self) -> (c: usize)
        ensures
            c == self@.capacity(),
    {
        self.buf.len()
    }

    /// How many bytes, from the start of the buffer, are in use.
    pub fn used(&self) -> (u: usize)
        ensures
            u == self@.used,
    {
        self.offset
    }

    /// Reserves `size` bytes whose start is a multiple of `align`, and
    /// returns that start as an offset into the buffer. On failure nothing
    /// changes.
    pub fn alloc_layout(&mut self, size: usize, align: usize) -> (r: Result<usize, ArenaError>)
        requires
            old(self).wf(),
            is_pow2(align as int),
        ensures
            final(self).wf(),
            final(self)@.bytes == old(self)@.bytes,
            final(self)@.used == used_after(
                old(self)@.capacity(),
                old(self)@.used,
                size as nat,
                align as nat,
            ),
            match placement(old(self)@.capacity(), old(self)@.used, size as nat, align as nat) {
                Some(start) => r == Ok::<usize, ArenaError>(start as usize),
                None => r == Err::<usize, ArenaError>(ArenaError::OutOfMemory),
            },
            r matches Ok(start) ==> {
                &&& start as nat % align as nat == 0
                &&& old(self)@.used <= start
                &&& final(self)@.used == start + size
            },
    {
        proof {
            reveal(is_pow2);
            lemma_align_up(self.offset as nat, align as nat);
        }
        let cap = self.buf.len();
        let rem = self.offset % align;
        // A start past usize::MAX lies past the end of the buffer too.
        let start = if rem == 0 {
            Some(self.offset)
        } else {
            self.offset.checked_add(align - rem)
        };
        let start = match start {
            Some(start) => start,
            None => return Err(ArenaError::OutOfMemory),
        };
        if start > cap || size > cap - start {
            return Err(ArenaError::OutOfMemory);
        }
        self.offset = start + size;
        Ok(start)
    }

    /// Copies `part` into the buffer from `at` on.
    fn write_bytes(&mut self, at: usize, part: &Vec<u8>)
        requires
            old(self).wf(),
            at + part@.len() <= old(self)@.capacity(),
        ensures
            final(self).wf(),
            final(self)@.used == old(self)@.used,
            final(self)@.bytes == overwrite(old(self)@.bytes, at as nat, part@),
    {
        let n = part.len();
        assert(self.buf@.len() == self.buf.len());
        let mut i: usize = 0;
        while i < n
            invariant
                self.wf(),
                self@.used == old(self)@.used,
                n == part@.len(),
                at + n <= self@.capacity() <= usize::MAX,
                i <= n,
                self@.bytes.len() == old(self)@.bytes.len(),
                forall|k: int|
                    0 <= k < self@.bytes.len() ==> #[trigger] self@.bytes[k] == if at <= k < at
                        + i {
                        part@[k - at]
                    } else {
                        old(self)@.bytes[k]
                    },
            decreases n - i,
        {
            self.buf.set(at + i, part[i]);
            i = i + 1;
        }
        assert(self@.bytes =~= overwrite(old(self)@.bytes, at as nat, part@));
    }

    /// Reserves a slot sized and aligned for a `T`, stores `value` in it, and
    /// returns the slot's offset. On failure nothing changes.
    pub fn alloc_value<T: Plain>(&mut self, value: T) -> (r: Result<usize, ArenaError>)
        requires
            old(self).wf(),
        ensures
            final(self).wf(),
            final(self)@.used == used_after(
                old(self)@.capacity(),
                old(self)@.used,
                size_of::<T>(),
                align_of::<T>(),
            ),
            match placement(old(self)@.capacity(), old(self)@.used, size_of::<T>(), align_of::<T>()) {
                Some(start) => {
                    &&& r == Ok::<usize, ArenaError>(start as usize)
                    &&& final(self)@.bytes == overwrite(old(self)@.bytes, start, T::bytes_of(value))
                },
                None => {
                    &&& r == Err::<usize, ArenaError>(ArenaError::OutOfMemory)
                    &&& final(self)@ == old(self)@
                },
            },
            r matches Ok(start) ==> {
                &&& start as nat % align_of::<T>() == 0
                &&& final(self)@.used == start + size_of::<T>()
                &&& value_at::<T>(final(self)@.bytes, start as nat) == value
            },
    {
        let size = core::mem::size_of::<T>();
        let align = core::mem::align_of::<T>();
        proof {
            broadcast use vstd::layout::group_align_properties;

            T::lemma_bytes_round_trip(value);
        }
        let start = match self.alloc_layout(size, align) {
            Ok(start) => start,
            Err(e) => return Err(e),
        };
        let bytes = value.to_bytes();
        self.write_bytes(start, &bytes);
        proof {
            lemma_value_at_overwrite::<T>(old(self)@.bytes, start as nat, value);
        }
        Ok(start)
    }

    /// The `T` stored in the slot at offset `at`, or `None` where such a
    /// slot would run past the end of the buffer.
    pub fn read<T: Plain>(&self, at: usize) -> (r: Option<T>)
        ensures
            r == if at + size_of::<T>() <= self@.capacity() {
                Some(value_at::<T>(self@.bytes, at as nat))
            } else {
                None::<T>
            },
    {
        let size = core::mem::size_of::<T>();
        let cap = self.buf.len();
        if at > cap || size > cap - at {
            None
        } else {
            Some(T::from_bytes(&self.buf, at))
        }
    }

    /// Rewinds the cursor to the start of the buffer. The bytes stay as they
    /// are.
    pub fn reset(&mut self)
        requires
            old(self).wf(),
        ensures
            final(self).wf(),
            final(self)@.bytes == old(self)@.bytes,
            final(self)@.used == 0,
    {
        self.offset = 0;
    }
}

} // verus!
