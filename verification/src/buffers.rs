//! The buffer lifecycle of the foreign-call protocol, as a verified model.
//!
//! The native component owns the memory that carries composite values
//! across the boundary. Generated code acquires a buffer from the native
//! allocation entry point with the precomputed encoding size, writes the
//! encoding into it, and passes it by value; on the receiving side it
//! decodes the buffer and then asks the native free entry point to release
//! it. Two rules are correctness bugs if broken:
//! - if encoding fails after allocation, the buffer is released before the
//!   failure propagates — no leak on the error path;
//! - on decode, the buffer is released exactly once whether or not
//!   decoding succeeded, and trailing bytes surface as a fatal failure.
//!
//! `BufferHost` models the native side's allocator: a slot per allocated
//! buffer, emptied when the buffer is freed. The two protocol functions
//! below are proved to keep the slot accounting exact.

use vstd::prelude::*;
use crate::codec::{
    Value, compute_size, conforms, decode, decode_value, encode_value, encoding,
    lemma_encoding_size, size_of,
};
use crate::errors::CodecError;
use crate::interface::{ComponentInterface, TypeReference, wf_interface};

verus! {

/// The number of live buffers among the slots.
pub open spec fn live_in(slots: Seq<Option<Vec<u8>>>) -> nat
    decreases slots,
{
    if slots.len() == 0 {
        0
    } else {
        (if slots[0] is Some {
            1nat
        } else {
            0nat
        }) + live_in(slots.drop_first())
    }
}

/// A model of the native component's buffer allocator: one slot per
/// allocation ever made, holding the buffer's bytes while it is live and
/// nothing once it was freed.
pub struct BufferHost {
    pub slots: Vec<Option<Vec<u8>>>,
}

impl BufferHost {
    /// Whether the buffer with this id is currently allocated.
    pub open spec fn is_live(self, id: int) -> bool {
        0 <= id < self.slots@.len() && self.slots@[id] is Some
    }

    /// The bytes of a live buffer.
    pub open spec fn contents(self, id: int) -> Seq<u8> {
        match self.slots@[id] {
            Some(data) => data@,
            None => Seq::empty(),
        }
    }

    /// A fresh host with no allocations.
    pub fn new() -> (h: BufferHost)
        ensures
            h.slots@.len() == 0,
    {
        BufferHost { slots: Vec::new() }
    }

    /// Allocates a zero-filled buffer of the given size and returns its id.
    pub fn allocate(&mut self, size: usize) -> (id: usize)
        ensures
            id == old(self).slots@.len(),
            final(self).slots@.len() == old(self).slots@.len() + 1,
            forall|j: int|
                0 <= j < old(self).slots@.len() ==> final(self).slots@[j] == old(self).slots@[j],
            final(self).is_live(id as int),
            final(self).contents(id as int).len() == size,
            forall|j: int| 0 <= j < size ==> final(self).contents(id as int)[j] == 0u8,
    {
        let mut data: Vec<u8> = Vec::new();
        let mut k: usize = 0;
        while k < size
            invariant
                k <= size,
                data@.len() == k,
                forall|j: int| 0 <= j < k ==> data@[j] == 0u8,
            decreases size - k,
        {
            data.push(0u8);
            k = k + 1;
        }
        let id = self.slots.len();
        self.slots.push(Some(data));
        id
    }

    /// Releases the buffer with this id.
    pub fn free(&mut self, id: usize)
        requires
            old(self).is_live(id as int),
        ensures
            final(self).slots@.len() == old(self).slots@.len(),
            final(self).slots@[id as int] is None,
            forall|j: int|
                0 <= j < old(self).slots@.len() && j != id ==> final(self).slots@[j] == old(
                    self,
                ).slots@[j],
    {
        self.slots[id] = None;
    }

    /// Overwrites the bytes of a live buffer; the new bytes must fill it
    /// exactly.
    pub fn write(&mut self, id: usize, data: &Vec<u8>)
        requires
            old(self).is_live(id as int),
            old(self).contents(id as int).len() == data@.len(),
        ensures
            final(self).slots@.len() == old(self).slots@.len(),
            final(self).is_live(id as int),
            final(self).contents(id as int) == data@,
            forall|j: int|
                0 <= j < old(self).slots@.len() && j != id ==> final(self).slots@[j] == old(
                    self,
                ).slots@[j],
    {
        let copy = copy_bytes(data);
        self.slots[id] = Some(copy);
    }

    /// A copy of the bytes of a live buffer.
    pub fn read(&self, id: usize) -> (data: Vec<u8>)
        requires
            self.is_live(id as int),
        ensures
            data@ == self.contents(id as int),
    {
        match &self.slots[id] {
            Some(data) => copy_bytes(data),
            None => Vec::new(),
        }
    }

    /// The number of buffers currently live: what a leak check observes.
    pub fn live_count(&self) -> (n: usize)
        ensures
            n == live_in(self.slots@),
    {
        let n = live_count_from(&self.slots, 0);
        proof {
            assert(self.slots@.skip(0) =~= self.slots@);
        }
        n
    }
}

/// Copies a byte vector.
fn copy_bytes(data: &Vec<u8>) -> (r: Vec<u8>)
    ensures
        r@ == data@,
{
    let mut out: Vec<u8> = Vec::new();
    let n = data.len();
    let mut k: usize = 0;
    while k < n
        invariant
            k <= n,
            n == data@.len(),
            out@ =~= data@.take(k as int),
        decreases n - k,
    {
        out.push(data[k]);
        proof {
            assert(out@ =~= data@.take(k as int + 1));
        }
        k = k + 1;
    }
    proof {
        assert(data@.take(n as int) =~= data@);
    }
    out
}

/// Counts the live buffers among the slots from position `i` on.
fn live_count_from(slots: &Vec<Option<Vec<u8>>>, i: usize) -> (n: usize)
    requires
        i <= slots@.len(),
    ensures
        n == live_in(slots@.skip(i as int)),
        n <= slots@.len() - i,
    decreases slots@.len() - i,
{
    let ghost tail = slots@.skip(i as int);
    if i == slots.len() {
        proof {
            assert(tail =~= Seq::<Option<Vec<u8>>>::empty());
        }
        0
    } else {
        proof {
            assert(tail[0] == slots@[i as int]);
            assert(tail.drop_first() =~= slots@.skip(i as int + 1));
        }
        let rest = live_count_from(slots, i + 1);
        let here: usize = match &slots[i] {
            Some(_) => 1,
            None => 0,
        };
        here + rest
    }
}

/// Lowers a composite value for a foreign call: computes the exact size,
/// acquires one buffer of that size from the host, and writes the encoding
/// into it. If the value does not conform to the schema, the one buffer
/// that was acquired is released before the failure propagates: the host
/// ends with exactly the live buffers it had.
pub fn lower_via_buffer(
    host: &mut BufferHost,
    ci: &ComponentInterface,
    t: &TypeReference,
    v: &Value,
) -> (r: Result<usize, CodecError>)
    requires
        wf_interface(*ci),
        size_of(v@) <= usize::MAX,
    ensures
        final(host).slots@.len() == old(host).slots@.len() + 1,
        forall|j: int|
            0 <= j < old(host).slots@.len() ==> final(host).slots@[j] == old(host).slots@[j],
        match r {
            Ok(id) => {
                &&& conforms(*ci, *t, v@)
                &&& id == old(host).slots@.len()
                &&& final(host).is_live(id as int)
                &&& final(host).contents(id as int) == encoding(*ci, *t, v@)
            },
            Err(e) => {
                &&& !conforms(*ci, *t, v@)
                &&& e == CodecError::Unencodable
                &&& final(host).slots@[old(host).slots@.len() as int] is None
            },
        },
{
    let size = compute_size(v);
    let id = host.allocate(size);
    let mut out: Vec<u8> = Vec::new();
    match encode_value(ci, t, v, &mut out) {
        Ok(()) => {
            proof {
                lemma_encoding_size(*ci, *t, v@);
            }
            host.write(id, &out);
            Ok(id)
        },
        Err(e) => {
            host.free(id);
            Err(e)
        },
    }
}

/// Lifts a received buffer back into a value: decodes its bytes against
/// the schema type, verifies that no byte remains unread, and releases the
/// buffer through the host exactly once whether or not decoding
/// succeeded.
pub fn lift_via_buffer(
    host: &mut BufferHost,
    ci: &ComponentInterface,
    t: &TypeReference,
    id: usize,
) -> (r: Result<Value, CodecError>)
    requires
        wf_interface(*ci),
        old(host).is_live(id as int),
    ensures
        final(host).slots@.len() == old(host).slots@.len(),
        final(host).slots@[id as int] is None,
        forall|j: int|
            0 <= j < old(host).slots@.len() && j != id ==> final(host).slots@[j] == old(
                host,
            ).slots@[j],
        match decode(*ci, *t, old(host).contents(id as int), 0) {
            Some(pair) => match r {
                Ok(v) => v@ == pair.0 && pair.1 == old(host).contents(id as int).len(),
                Err(e) => e == CodecError::TrailingBytes && pair.1 != old(host).contents(
                    id as int,
                ).len(),
            },
            None => match r {
                Ok(_) => false,
                Err(e) => e == CodecError::MalformedBuffer,
            },
        },
{
    let data = host.read(id);
    let mut pos: usize = 0;
    let outcome = decode_value(ci, t, &data, &mut pos);
    host.free(id);
    match outcome {
        Ok(v) => {
            if pos == data.len() {
                Ok(v)
            } else {
                Err(CodecError::TrailingBytes)
            }
        },
        Err(_) => Err(CodecError::MalformedBuffer),
    }
}

} // verus!
