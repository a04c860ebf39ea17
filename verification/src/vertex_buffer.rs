//! Fixed-capacity device byte buffers.
//!
//! A [`GLByteBuffer`] is a fixed-capacity, append/overwrite/remove device
//! memory region addressed in bytes.  The struct keeps a local model of the
//! region's live bytes, so every mutation is specified and verified down to
//! the byte; the unverified device layer mirrors each mutation onto the
//! device with the offsets this library computes.  Exceeding the capacity on
//! `push` is the one recoverable condition, reported through a boolean; all
//! other range violations are caller bugs and are reported as errors the
//! caller must treat as fatal.

use vstd::prelude::*;

use crate::gl_context::{GLContext, GLContextExistence};

verus! {

/// Why a handle could not be constructed: the device reports allocation
/// failure by generating the id zero.
#[derive(Clone, Copy, PartialEq, Eq, Structural, Debug)]
pub enum HandleError {
    /// The device returned the id zero, which signals allocation failure.
    ZeroId,
}

/// A caller contract violation on a buffer operation.  Each of these is an
/// unrecoverable bug in the caller; the unverified layer terminates on them
/// rather than risk corrupting device state.
#[derive(Clone, Copy, PartialEq, Eq, Structural, Debug)]
pub enum BufferError {
    /// An `update` addressed bytes beyond the live length.
    RangeOutOfBounds,
    /// A `swap_remove` asked to remove more bytes than are live.
    CountExceedsLength,
    /// A `swap_remove` index lies beyond the live region left after removal.
    IndexOutOfBounds,
    /// The source and destination ranges of the `swap_remove` relocation
    /// would overlap; an overlapping device-to-device copy is disallowed.
    OverlappingCopy,
}

/// A device-to-device copy of `len` bytes from `src_offset` to `dst_offset`,
/// which the caller must mirror onto the device.  The ranges never overlap.
#[derive(Clone, Copy, PartialEq, Eq, Structural, Debug)]
pub struct DeviceCopy {
    /// First byte of the source range.
    pub src_offset: usize,
    /// First byte of the destination range.
    pub dst_offset: usize,
    /// Number of bytes to copy.
    pub len: usize,
}

/// Owns one device buffer object.  Exactly one owner ever deletes a given
/// device id, when this handle's owner reaches its end of life.
#[derive(Debug)]
pub struct BufferHandle {
    /// The device id of the buffer object.
    pub gl_id: u32,
}

impl BufferHandle {
    /// Wraps the id a device "generate buffers" call produced.  The id zero
    /// signals allocation failure and is rejected.
    pub fn new(_gl: &GLContextExistence, gl_id: u32) -> (r: Result<BufferHandle, HandleError>)
        ensures
            r matches Ok(h) ==> h.gl_id == gl_id && gl_id != 0,
            r is Err <==> gl_id == 0,
    {
        if gl_id == 0 {
            Err(HandleError::ZeroId)
        } else {
            Ok(BufferHandle { gl_id })
        }
    }
}

/// The sequence after overwriting the range `[idx, idx + vs.len())` of `b`
/// in place with `vs`.
pub open spec fn spliced<A>(b: Seq<A>, idx: int, vs: Seq<A>) -> Seq<A> {
    b.subrange(0, idx) + vs + b.subrange(idx + vs.len(), b.len() as int)
}

/// The sequence after removing the `count` items at `idx` by moving the last
/// `count` live items into the hole and shrinking the live region.  Removing
/// the tail (`idx == b.len() - count`) is a plain truncation.
pub open spec fn swap_removed<A>(b: Seq<A>, idx: int, count: int) -> Seq<A> {
    if idx == b.len() - count {
        b.subrange(0, idx)
    } else {
        b.subrange(0, idx) + b.subrange(b.len() - count, b.len() as int) + b.subrange(
            idx + count,
            b.len() - count,
        )
    }
}

/// Swap-removing a single item at `idx` from `b` keeps every item before
/// `idx`, replaces the item at `idx` with the last item (unless the removed
/// item is the last, in which case the sequence is just truncated), and
/// keeps every item between `idx` and the removed tail untouched.
pub proof fn lemma_swap_removed_single<A>(b: Seq<A>, idx: int)
    requires
        0 <= idx < b.len(),
    ensures
        swap_removed(b, idx, 1).len() == b.len() - 1,
        forall|j: int| 0 <= j < idx ==> swap_removed(b, idx, 1)[j] == b[j],
        idx < b.len() - 1 ==> swap_removed(b, idx, 1)[idx] == b[b.len() - 1],
        forall|j: int| idx < j < b.len() - 1 ==> swap_removed(b, idx, 1)[j] == b[j],
{
}

/// Reading back the byte range a successful `push` appended yields exactly
/// the pushed bytes.
pub proof fn lemma_push_read_back(pre: Seq<u8>, vs: Seq<u8>)
    ensures
        (pre + vs).subrange(pre.len() as int, pre.len() as int + vs.len() as int) =~= vs,
{
}

/// Fixed-capacity device memory region addressed in bytes.
///
/// `data` models the live bytes of the region, `[0, length)` in device
/// terms; `capacity` is fixed at construction and never grows.  Callers are
/// responsible for binding the buffer on the device before mirroring a
/// mutation; the operations themselves never re-bind.
pub struct GLByteBuffer {
    /// Owns the device buffer object backing this region.
    pub handle: BufferHandle,
    /// The live bytes of the device region.
    pub data: Vec<u8>,
    /// Maximum number of bytes in the buffer.
    pub capacity: usize,
}

impl View for GLByteBuffer {
    type V = Seq<u8>;

    open spec fn view(&self) -> Seq<u8> {
        self.data@
    }
}

impl GLByteBuffer {
    /// The capacity invariant: the live length never exceeds the capacity.
    pub open spec fn wf(self) -> bool {
        self@.len() <= self.capacity
    }

    /// Creates a buffer of `capacity` bytes over a freshly generated handle.
    /// The caller must mirror this with a device storage allocation of
    /// `capacity` bytes under a dynamic-usage hint, then poll the device
    /// error flag: an out-of-memory report is fatal.
    pub fn new(
        _gl: &GLContextExistence,
        _gl_context: &mut GLContext,
        handle: BufferHandle,
        capacity: usize,
    ) -> (r: GLByteBuffer)
        ensures
            r.wf(),
            r@ =~= Seq::<u8>::empty(),
            r.capacity == capacity,
            r.handle == handle,
    {
        GLByteBuffer { handle, data: Vec::new(), capacity }
    }

    /// Number of live bytes in the buffer.
    pub fn length(&self) -> (r: usize)
        ensures
            r == self@.len(),
    {
        self.data.len()
    }

    /// Appends `vs` at the tail of the live region.  Returns `false` and
    /// changes nothing if that would exceed the capacity; the caller may
    /// grow, flush or retry.  On success the caller must mirror the append
    /// onto the device at byte offset `old(self)@.len()`.
    pub fn push(&mut self, _gl: &mut GLContext, vs: &[u8]) -> (r: bool)
        requires
            old(self).wf(),
        ensures
            final(self).wf(),
            final(self).handle == old(self).handle,
            final(self).capacity == old(self).capacity,
            r <==> old(self)@.len() + vs@.len() <= old(self).capacity,
            r ==> final(self)@ == old(self)@ + vs@,
            !r ==> final(self)@ == old(self)@,
    {
        if vs.len() > self.capacity - self.data.len() {
            // This would overflow the buffer.
            return false;
        }

        let ghost pre = self.data@;
        let mut j: usize = 0;
        while j < vs.len()
            invariant
                j <= vs@.len(),
                self.data@ =~= pre + vs@.subrange(0, j as int),
                self.handle == old(self).handle,
                self.capacity == old(self).capacity,
            decreases vs@.len() - j,
        {
            self.data.push(vs[j]);
            j += 1;
        }
        proof {
            assert(self.data@ =~= pre + vs@);
        }
        true
    }

    /// Overwrites the live range `[idx, idx + vs.len())` in place.  A range
    /// reaching beyond the live length is a caller bug, reported as an
    /// error the caller must treat as fatal; nothing is changed then.  On
    /// success the caller must mirror the write onto the device at byte
    /// offset `idx`.
    pub fn update(&mut self, _gl: &mut GLContext, idx: usize, vs: &[u8]) -> (r: Result<
        (),
        BufferError,
    >)
        requires
            old(self).wf(),
        ensures
            final(self).wf(),
            final(self).handle == old(self).handle,
            final(self).capacity == old(self).capacity,
            r is Err <==> idx + vs@.len() > old(self)@.len(),
            r is Err ==> r == Err::<(), BufferError>(BufferError::RangeOutOfBounds) && final(self)@
                == old(self)@,
            r is Ok ==> final(self)@ == spliced(old(self)@, idx as int, vs@),
    {
        if vs.len() > self.data.len() || idx > self.data.len() - vs.len() {
            return Err(BufferError::RangeOutOfBounds);
        }

        let ghost pre = self.data@;
        let mut j: usize = 0;
        while j < vs.len()
            invariant
                j <= vs@.len(),
                idx + vs@.len() <= pre.len(),
                pre.len() <= usize::MAX,
                self.data@.len() == pre.len(),
                forall|k: int| 0 <= k < idx ==> self.data@[k] == pre[k],
                forall|k: int| idx <= k < idx + j ==> self.data@[k] == vs@[k - idx],
                forall|k: int| idx + j <= k < pre.len() ==> self.data@[k] == pre[k],
                self.handle == old(self).handle,
                self.capacity == old(self).capacity,
            decreases vs@.len() - j,
        {
            self.data[idx + j] = vs[j];
            j += 1;
        }
        proof {
            assert(self.data@ =~= spliced(pre, idx as int, vs@));
        }
        Ok(())
    }

    /// Removes `count` live bytes at `idx` by moving the last `count` live
    /// bytes into the hole, then shrinking the live region by `count`.  This
    /// is not a stable remove: the removed range is refilled with what was
    /// previously the tail.  Out-of-range arguments, and arguments that
    /// would make the relocation's source and destination ranges overlap,
    /// are caller bugs, reported as errors the caller must treat as fatal;
    /// nothing is changed then.  On success the caller must mirror the
    /// returned copy, if any, onto the device; removing the tail needs no
    /// device work.
    pub fn swap_remove(&mut self, _gl: &mut GLContext, idx: usize, count: usize) -> (r: Result<
        Option<DeviceCopy>,
        BufferError,
    >)
        requires
            old(self).wf(),
        ensures
            final(self).wf(),
            final(self).handle == old(self).handle,
            final(self).capacity == old(self).capacity,
            r is Err ==> final(self)@ == old(self)@,
            r is Err <==> count > old(self)@.len() || idx > old(self)@.len() - count || (idx < old(
                self,
            )@.len() - count && idx + count > old(self)@.len() - count),
            r == Err::<Option<DeviceCopy>, BufferError>(BufferError::CountExceedsLength) <==> count
                > old(self)@.len(),
            r == Err::<Option<DeviceCopy>, BufferError>(BufferError::IndexOutOfBounds) <==> count
                <= old(self)@.len() && idx > old(self)@.len() - count,
            r == Err::<Option<DeviceCopy>, BufferError>(BufferError::OverlappingCopy) <==> count
                <= old(self)@.len() && idx < old(self)@.len() - count && idx + count > old(self)@.len() - count,
            r is Ok ==> final(self)@ == swap_removed(old(self)@, idx as int, count as int)
                && final(self)@.len() == old(self)@.len() - count,
            r == Ok::<Option<DeviceCopy>, BufferError>(None) <==> count <= old(self)@.len() && idx
                == old(self)@.len() - count,
            r matches Ok(Some(c)) ==> c == (DeviceCopy {
                src_offset: (old(self)@.len() - count) as usize,
                dst_offset: idx,
                len: count,
            }) && c.dst_offset + c.len <= c.src_offset,
    {
        if count > self.data.len() {
            return Err(BufferError::CountExceedsLength);
        }
        let new_len = self.data.len() - count;
        if idx > new_len {
            return Err(BufferError::IndexOutOfBounds);
        }

        // In the `idx == new_len` case, no bytes move; shrinking the live
        // region is enough.

        if idx < new_len {
            if idx + count > new_len {
                return Err(BufferError::OverlappingCopy);
            }

            let ghost pre = self.data@;
            let mut j: usize = 0;
            while j < count
                invariant
                    j <= count,
                    idx + count <= new_len,
                    new_len + count == pre.len(),
                    pre.len() <= usize::MAX,
                    self.data@.len() == pre.len(),
                    forall|k: int| 0 <= k < idx ==> self.data@[k] == pre[k],
                    forall|k: int| idx <= k < idx + j ==> self.data@[k] == pre[new_len + (k - idx)],
                    forall|k: int| idx + j <= k < pre.len() ==> self.data@[k] == pre[k],
                    self.handle == old(self).handle,
                    self.capacity == old(self).capacity,
                decreases count - j,
            {
                let b = self.data[new_len + j];
                self.data[idx + j] = b;
                j += 1;
            }
            self.data.truncate(new_len);
            proof {
                assert(self.data@ =~= swap_removed(pre, idx as int, count as int));
            }
            Ok(Some(DeviceCopy { src_offset: new_len, dst_offset: idx, len: count }))
        } else {
            self.data.truncate(new_len);
            proof {
                assert(self.data@ =~= swap_removed(old(self)@, idx as int, count as int));
            }
            Ok(None)
        }
    }

    /// Reads back `count` live bytes starting at `idx`.
    pub fn read(&self, idx: usize, count: usize) -> (r: Vec<u8>)
        requires
            idx + count <= self@.len(),
        ensures
            r@ == self@.subrange(idx as int, idx + count),
    {
        let n = self.data.len();
        let mut out: Vec<u8> = Vec::new();
        let mut j: usize = 0;
        while j < count
            invariant
                j <= count,
                idx + count <= self@.len(),
                self@.len() == n,
                out@ =~= self@.subrange(idx as int, idx + j),
            decreases count - j,
        {
            out.push(self.data[idx + j]);
            j += 1;
        }
        out
    }
}

/// The byte sequences of a sequence of element records.
pub open spec fn elem_views(vs: Seq<Vec<u8>>) -> Seq<Seq<u8>> {
    vs.map_values(|v: Vec<u8>| v@)
}

/// The flattening of a sequence of uniform `k`-item chunks has `k` items per
/// chunk.
pub proof fn lemma_flatten_len_uniform<A>(e: Seq<Seq<A>>, k: int)
    requires
        forall|i: int| 0 <= i < e.len() ==> (#[trigger] e[i]).len() == k,
    ensures
        e.flatten().len() == e.len() * k,
    decreases e.len(),
{
    if e.len() == 0 {
        assert(e.flatten() =~= Seq::<A>::empty());
    } else {
        assert(forall|i: int|
            0 <= i < e.drop_first().len() ==> (#[trigger] e.drop_first()[i]).len() == k);
        lemma_flatten_len_uniform(e.drop_first(), k);
        assert(e.flatten().len() == k + (e.len() - 1) * k);
        assert(k + (e.len() - 1) * k == e.len() * k) by (nonlinear_arith);
    }
}

/// Flattening commutes with taking a subrange of whole chunks, for uniform
/// chunk sequences: the chunks `[a, b)` flatten to the items
/// `[a * k, b * k)`.
pub proof fn lemma_flatten_subrange_uniform<A>(e: Seq<Seq<A>>, k: int, a: int, b: int)
    requires
        k >= 0,
        forall|i: int| 0 <= i < e.len() ==> (#[trigger] e[i]).len() == k,
        0 <= a <= b <= e.len(),
    ensures
        e.subrange(a, b).flatten() == e.flatten().subrange(a * k, b * k),
{
    let s1 = e.subrange(0, a);
    let s2 = e.subrange(a, b);
    let s3 = e.subrange(b, e.len() as int);
    assert(e =~= (s1 + s2) + s3);
    vstd::seq_lib::lemma_flatten_concat(s1, s2);
    vstd::seq_lib::lemma_flatten_concat(s1 + s2, s3);
    lemma_flatten_len_uniform(s1, k);
    lemma_flatten_len_uniform(s2, k);
    lemma_flatten_len_uniform(e, k);
    assert(e.flatten() == ((s1 + s2) + s3).flatten());
    assert(s1.flatten().len() == a * k);
    assert(s2.flatten().len() == (b - a) * k);
    assert((b - a) * k == b * k - a * k) by (nonlinear_arith);
    assert(a * k <= b * k <= e.len() * k) by {
        vstd::arithmetic::mul::lemma_mul_inequality(a, b, k);
        vstd::arithmetic::mul::lemma_mul_inequality(b, e.len() as int, k);
    }
    assert(e.flatten().subrange(a * k, b * k) =~= s2.flatten());
}

/// Fixed-capacity typed device buffer: a thin unit-conversion layer that
/// addresses a [`GLByteBuffer`] in whole elements of `elem_size` bytes each.
/// Element counts and indices are converted to byte counts and offsets; the
/// byte buffer does the rest.
///
/// `elems` is the ghost sequence of element records the buffer holds; its
/// flattening always equals the byte buffer's live bytes.
pub struct GLBuffer {
    /// The underlying byte region.
    pub byte_buffer: GLByteBuffer,
    /// Size in bytes of one element; fixed at construction and positive.
    pub elem_size: usize,
    /// The element records the live bytes spell, in order.
    pub elems: Ghost<Seq<Seq<u8>>>,
}

impl GLBuffer {
    /// Well-formedness: the byte buffer is well-formed, elements have a
    /// fixed positive size, the capacity is a whole number of elements, and
    /// the element records tile the live bytes exactly.
    pub open spec fn wf(self) -> bool {
        &&& self.byte_buffer.wf()
        &&& self.elem_size > 0
        &&& self.byte_buffer.capacity as int % self.elem_size as int == 0
        &&& forall|i: int|
            0 <= i < self.elems@.len() ==> (#[trigger] self.elems@[i]).len() == self.elem_size
        &&& self.elems@.flatten() == self.byte_buffer@
        &&& self.elems@.len() * self.elem_size == self.byte_buffer@.len()
    }

    /// Creates a buffer for `capacity` elements of `elem_size` bytes each,
    /// over a freshly generated handle.  The caller obligations of
    /// [`GLByteBuffer::new`] apply, with `capacity * elem_size` bytes of
    /// device storage.
    pub fn new(
        gl: &GLContextExistence,
        gl_context: &mut GLContext,
        handle: BufferHandle,
        capacity: usize,
        elem_size: usize,
    ) -> (r: GLBuffer)
        requires
            elem_size > 0,
            capacity * elem_size <= usize::MAX,
        ensures
            r.wf(),
            r.elems@ =~= Seq::<Seq<u8>>::empty(),
            r.elem_size == elem_size,
            r.byte_buffer.capacity == capacity * elem_size,
            r.byte_buffer.handle == handle,
            r.byte_buffer@ =~= Seq::<u8>::empty(),
    {
        let byte_capacity = capacity * elem_size;
        let byte_buffer = GLByteBuffer::new(gl, gl_context, handle, byte_capacity);
        proof {
            vstd::arithmetic::div_mod::lemma_mod_multiples_basic(
                capacity as int,
                elem_size as int,
            );
            assert(Seq::<Seq<u8>>::empty().flatten() =~= Seq::<u8>::empty());
        }
        GLBuffer { byte_buffer, elem_size, elems: Ghost(Seq::empty()) }
    }

    /// Number of live elements in the buffer.
    pub fn length(&self) -> (r: usize)
        requires
            self.wf(),
        ensures
            r == self.elems@.len(),
    {
        let r = self.byte_buffer.length() / self.elem_size;
        proof {
            let k = self.elem_size as int;
            let n_e = self.elems@.len() as int;
            vstd::arithmetic::div_mod::lemma_div_multiples_vanish(n_e, k);
            assert((k * n_e) / k == n_e);
            assert(k * n_e == n_e * k) by (nonlinear_arith);
            assert(self.byte_buffer@.len() == n_e * k);
        }
        r
    }

    /// Appends the element records `vs` at the tail.  Returns `false` and
    /// changes nothing if they would not fit; on success the caller must
    /// mirror the append onto the device at byte offset
    /// `old(self).byte_buffer@.len()`.
    pub fn push(&mut self, gl: &mut GLContext, vs: &[Vec<u8>]) -> (r: bool)
        requires
            old(self).wf(),
            forall|i: int|
                0 <= i < vs@.len() ==> (#[trigger] vs@[i])@.len() == old(self).elem_size,
        ensures
            final(self).wf(),
            final(self).elem_size == old(self).elem_size,
            final(self).byte_buffer.capacity == old(self).byte_buffer.capacity,
            final(self).byte_buffer.handle == old(self).byte_buffer.handle,
            r <==> (old(self).elems@.len() + vs@.len()) * old(self).elem_size <= old(self).byte_buffer.capacity,
            r ==> final(self).elems@ == old(self).elems@ + elem_views(vs@) && final(self).byte_buffer@ == old(self).byte_buffer@ + elem_views(vs@).flatten(),
            !r ==> final(self).elems@ == old(self).elems@ && final(self).byte_buffer@ == old(self).byte_buffer@,
    {
        let ghost k = self.elem_size as int;
        let ghost pre_elems = self.elems@;
        let ghost pre_bytes = self.byte_buffer@;
        let n_bytes = self.byte_buffer.length();
        let free_bytes = self.byte_buffer.capacity - n_bytes;
        let free_elems = free_bytes / self.elem_size;
        proof {
            // The free region is a whole number of elements, so comparing
            // element counts is the same as comparing byte counts.
            let n_e = pre_elems.len() as int;
            let m = vs@.len() as int;
            let fb = free_bytes as int;
            let fe = free_elems as int;
            vstd::arithmetic::div_mod::lemma_mod_multiples_vanish(n_e, fb, k);
            assert(k * n_e == n_e * k) by (nonlinear_arith);
            assert(self.byte_buffer.capacity as int == k * n_e + fb);
            assert(fb % k == 0);
            vstd::arithmetic::div_mod::lemma_fundamental_div_mod(fb, k);
            assert(fb == k * fe);
            assert(k * fe == fe * k) by (nonlinear_arith);
            assert((n_e + m) * k == n_e * k + m * k) by (nonlinear_arith);
        }
        if vs.len() > free_elems {
            proof {
                // vs.len() >= free_elems + 1, so vs.len() * k > free_bytes.
                vstd::arithmetic::mul::lemma_mul_inequality(
                    free_elems as int + 1,
                    vs@.len() as int,
                    k,
                );
                assert((free_elems as int + 1) * k == free_elems as int * k + k)
                    by (nonlinear_arith);
            }
            return false;
        }
        proof {
            vstd::arithmetic::mul::lemma_mul_inequality(vs@.len() as int, free_elems as int, k);
        }

        let mut j: usize = 0;
        while j < vs.len()
            invariant
                j <= vs@.len(),
                self.wf(),
                self.elem_size == old(self).elem_size,
                self.byte_buffer.capacity == old(self).byte_buffer.capacity,
                self.byte_buffer.handle == old(self).byte_buffer.handle,
                forall|i: int|
                    0 <= i < vs@.len() ==> (#[trigger] vs@[i])@.len() == self.elem_size,
                self.elems@ =~= pre_elems + elem_views(vs@).subrange(0, j as int),
                self.byte_buffer@ =~= pre_bytes + elem_views(vs@).subrange(0, j as int).flatten(),
                (pre_elems.len() + vs@.len()) * self.elem_size <= self.byte_buffer.capacity,
            decreases vs@.len() - j,
        {
            let ghost k = self.elem_size as int;
            proof {
                // The next element still fits: the buffer holds
                // pre_elems.len() + j elements and gains one more.
                assert(self.elems@.len() == pre_elems.len() + j);
                vstd::arithmetic::mul::lemma_mul_inequality(
                    pre_elems.len() + j as int + 1,
                    pre_elems.len() + vs@.len() as int,
                    k,
                );
                assert((pre_elems.len() + j as int + 1) * k == (pre_elems.len() + j as int) * k
                    + k) by (nonlinear_arith);
            }
            let ghost elems_before = self.elems@;
            let ghost bytes_before = self.byte_buffer@;
            let ok = self.byte_buffer.push(gl, vs[j].as_slice());
            proof {
                assert(ok);
                self.elems@ = elems_before.push(vs[j as int]@);
                elems_before.lemma_flatten_push(vs[j as int]@);
                assert(elems_before.push(vs[j as int]@) =~= pre_elems + elem_views(vs@).subrange(
                    0,
                    j as int + 1,
                ));
                assert(elem_views(vs@).subrange(0, j as int).push(vs[j as int]@) =~= elem_views(
                    vs@,
                ).subrange(0, j as int + 1));
                elem_views(vs@).subrange(0, j as int).lemma_flatten_push(vs[j as int]@);
                assert((pre_elems.len() + j as int + 1) * k == (pre_elems.len() + j as int) * k
                    + k) by (nonlinear_arith);
            }
            j += 1;
        }
        proof {
            assert(elem_views(vs@).subrange(0, vs@.len() as int) =~= elem_views(vs@));
        }
        true
    }

    /// Overwrites the `vs.len()` elements starting at element `idx` in
    /// place, touching exactly the byte range
    /// `[idx * elem_size, (idx + vs.len()) * elem_size)` and no other bytes.
    /// A range reaching beyond the live elements is a caller bug, reported
    /// as an error the caller must treat as fatal; nothing is changed then.
    /// On success the caller must mirror the write onto the device at byte
    /// offset `idx * elem_size`.
    pub fn update(&mut self, gl: &mut GLContext, idx: usize, vs: &[Vec<u8>]) -> (r: Result<
        (),
        BufferError,
    >)
        requires
            old(self).wf(),
            forall|i: int|
                0 <= i < vs@.len() ==> (#[trigger] vs@[i])@.len() == old(self).elem_size,
        ensures
            final(self).wf(),
            final(self).elem_size == old(self).elem_size,
            final(self).byte_buffer.capacity == old(self).byte_buffer.capacity,
            final(self).byte_buffer.handle == old(self).byte_buffer.handle,
            r is Err <==> idx + vs@.len() > old(self).elems@.len(),
            r is Err ==> r == Err::<(), BufferError>(BufferError::RangeOutOfBounds) && final(self).elems@ == old(self).elems@ && final(self).byte_buffer@ == old(self).byte_buffer@,
            r is Ok ==> final(self).elems@ == spliced(old(self).elems@, idx as int, elem_views(vs@))
                && final(self).byte_buffer@ == spliced(
                old(self).byte_buffer@,
                idx * old(self).elem_size,
                elem_views(vs@).flatten(),
            ),
            r is Ok ==> final(self).byte_buffer@.len() == old(self).byte_buffer@.len() && final(self).byte_buffer@.subrange(
                idx * old(self).elem_size,
                (idx + vs@.len()) * old(self).elem_size,
            ) == elem_views(vs@).flatten() && forall|t: int|
                0 <= t < old(self).byte_buffer@.len() && !(idx * old(self).elem_size <= t < (idx
                    + vs@.len()) * old(self).elem_size) ==> final(self).byte_buffer@[t] == old(self).byte_buffer@[t],
    {
        let ghost k = self.elem_size as int;
        let ghost pre_elems = self.elems@;
        let ghost pre_bytes = self.byte_buffer@;
        let m = vs.len();
        let n_e = self.length();
        if m > n_e || idx > n_e - m {
            return Err(BufferError::RangeOutOfBounds);
        }

        // Gather the element records into one contiguous byte write.
        let mut flat: Vec<u8> = Vec::new();
        let mut j: usize = 0;
        while j < m
            invariant
                j <= m,
                m == vs@.len(),
                self == old(self),
                self.wf(),
                forall|i: int|
                    0 <= i < vs@.len() ==> (#[trigger] vs@[i])@.len() == self.elem_size,
                flat@ =~= elem_views(vs@).subrange(0, j as int).flatten(),
                flat@.len() == j * self.elem_size,
            decreases m - j,
        {
            let ghost flat_pre = flat@;
            let mut t: usize = 0;
            let elem = &vs[j];
            while t < elem.len()
                invariant
                    t <= elem@.len(),
                    flat@ =~= flat_pre + elem@.subrange(0, t as int),
                decreases elem@.len() - t,
            {
                flat.push(elem[t]);
                t += 1;
            }
            proof {
                assert(flat@ =~= flat_pre + vs@[j as int]@);
                elem_views(vs@).subrange(0, j as int).lemma_flatten_push(vs@[j as int]@);
                assert(elem_views(vs@).subrange(0, j as int).push(vs@[j as int]@) =~= elem_views(
                    vs@,
                ).subrange(0, j as int + 1));
                assert((j as int + 1) * self.elem_size as int == j as int * self.elem_size as int
                    + self.elem_size as int) by (nonlinear_arith);
            }
            j += 1;
        }
        proof {
            assert(elem_views(vs@).subrange(0, m as int) =~= elem_views(vs@));
        }

        proof {
            // idx * k stays within the live bytes.
            vstd::arithmetic::mul::lemma_mul_inequality(idx as int, n_e as int, k);
            vstd::arithmetic::mul::lemma_mul_inequality(idx as int + m as int, n_e as int, k);
            assert((idx as int + m as int) * k == idx as int * k + m as int * k)
                by (nonlinear_arith);
        }
        let off = idx * self.elem_size;
        let r = self.byte_buffer.update(gl, off, flat.as_slice());
        match r {
            Ok(_) => {
                proof {
                    self.elems@ = spliced(pre_elems, idx as int, elem_views(vs@));
                    lemma_flatten_subrange_uniform(pre_elems, k, 0, idx as int);
                    lemma_flatten_subrange_uniform(
                        pre_elems,
                        k,
                        idx as int + m as int,
                        pre_elems.len() as int,
                    );
                    vstd::seq_lib::lemma_flatten_concat(
                        pre_elems.subrange(0, idx as int),
                        elem_views(vs@),
                    );
                    vstd::seq_lib::lemma_flatten_concat(
                        pre_elems.subrange(0, idx as int) + elem_views(vs@),
                        pre_elems.subrange(idx as int + m as int, pre_elems.len() as int),
                    );
                    assert(self.elems@ =~= (pre_elems.subrange(0, idx as int) + elem_views(vs@))
                        + pre_elems.subrange(idx as int + m as int, pre_elems.len() as int));
                    assert(self.elems@.flatten() =~= spliced(
                        pre_bytes,
                        idx as int * k,
                        elem_views(vs@).flatten(),
                    ));
                    assert(self.elems@.len() * k == self.byte_buffer@.len()) by {
                        lemma_flatten_len_uniform(self.elems@, k);
                    }
                    assert(self.byte_buffer@.subrange(idx as int * k, (idx as int + m as int) * k)
                        =~= elem_views(vs@).flatten());
                }
                Ok(())
            },
            Err(e) => {
                proof {
                    assert(false);
                }
                Err(e)
            },
        }
    }

    /// Removes `count` elements at element `idx` by moving the last `count`
    /// live elements into the hole, then shrinking the buffer by `count`
    /// elements.  Out-of-range or overlapping arguments are caller bugs,
    /// reported as errors the caller must treat as fatal; nothing is changed
    /// then.  On success the caller must mirror the returned byte copy, if
    /// any, onto the device.
    pub fn swap_remove(&mut self, gl: &mut GLContext, idx: usize, count: usize) -> (r: Result<
        Option<DeviceCopy>,
        BufferError,
    >)
        requires
            old(self).wf(),
        ensures
            final(self).wf(),
            final(self).elem_size == old(self).elem_size,
            final(self).byte_buffer.capacity == old(self).byte_buffer.capacity,
            final(self).byte_buffer.handle == old(self).byte_buffer.handle,
            r is Err ==> final(self).elems@ == old(self).elems@ && final(self).byte_buffer@ == old(self).byte_buffer@,
            r is Err <==> count > old(self).elems@.len() || idx > old(self).elems@.len() - count
                || (idx < old(self).elems@.len() - count && idx + count > old(self).elems@.len()
                - count),
            r == Err::<Option<DeviceCopy>, BufferError>(BufferError::CountExceedsLength) <==> count
                > old(self).elems@.len(),
            r == Err::<Option<DeviceCopy>, BufferError>(BufferError::IndexOutOfBounds) <==> count
                <= old(self).elems@.len() && idx > old(self).elems@.len() - count,
            r == Err::<Option<DeviceCopy>, BufferError>(BufferError::OverlappingCopy) <==> count
                <= old(self).elems@.len() && idx < old(self).elems@.len() - count && idx + count
                > old(self).elems@.len() - count,
            r is Ok ==> final(self).elems@ == swap_removed(old(self).elems@, idx as int,
                count as int,
            ) && final(self).elems@.len() == old(self).elems@.len() - count && final(self).byte_buffer@ == swap_removed(
                old(self).byte_buffer@,
                idx * old(self).elem_size,
                count * old(self).elem_size,
            ),
            r == Ok::<Option<DeviceCopy>, BufferError>(None) <==> count <= old(self).elems@.len()
                && idx == old(self).elems@.len() - count,
            r matches Ok(Some(c)) ==> c.src_offset == (old(self).elems@.len() - count) * old(self).elem_size && c.dst_offset == idx * old(self).elem_size && c.len == count * old(self).elem_size && c.dst_offset + c.len <= c.src_offset,
    {
        let ghost k = self.elem_size as int;
        let ghost pre_elems = self.elems@;
        let ghost pre_bytes = self.byte_buffer@;
        let n_e = self.length();
        if count > n_e {
            return Err(BufferError::CountExceedsLength);
        }
        let new_n = n_e - count;
        if idx > new_n {
            return Err(BufferError::IndexOutOfBounds);
        }
        if idx < new_n && idx + count > new_n {
            return Err(BufferError::OverlappingCopy);
        }

        proof {
            // Elementwise bounds translate to the byte level.
            vstd::arithmetic::mul::lemma_mul_inequality(count as int, n_e as int, k);
            vstd::arithmetic::mul::lemma_mul_inequality(idx as int, new_n as int, k);
            assert(k * n_e as int == n_e as int * k) by (nonlinear_arith);
            assert((n_e as int - count as int) * k == n_e as int * k - count as int * k)
                by (nonlinear_arith);
            assert((idx as int + count as int) * k == idx as int * k + count as int * k)
                by (nonlinear_arith);
            if idx < new_n {
                // The element checks passed, so `idx + count <= new_n`.
                vstd::arithmetic::mul::lemma_mul_inequality(
                    idx as int + count as int,
                    new_n as int,
                    k,
                );
                vstd::arithmetic::mul::lemma_mul_strict_inequality(idx as int, new_n as int, k);
            }
        }
        let off = idx * self.elem_size;
        let cnt = count * self.elem_size;
        let r = self.byte_buffer.swap_remove(gl, off, cnt);
        match r {
            Ok(copy) => {
                proof {
                    self.elems@ = swap_removed(pre_elems, idx as int, count as int);
                    lemma_flatten_subrange_uniform(pre_elems, k, 0, idx as int);
                    if idx < new_n {
                        lemma_flatten_subrange_uniform(
                            pre_elems,
                            k,
                            new_n as int,
                            pre_elems.len() as int,
                        );
                        lemma_flatten_subrange_uniform(
                            pre_elems,
                            k,
                            idx as int + count as int,
                            new_n as int,
                        );
                        vstd::seq_lib::lemma_flatten_concat(
                            pre_elems.subrange(0, idx as int),
                            pre_elems.subrange(new_n as int, pre_elems.len() as int),
                        );
                        vstd::seq_lib::lemma_flatten_concat(
                            pre_elems.subrange(0, idx as int) + pre_elems.subrange(
                                new_n as int,
                                pre_elems.len() as int,
                            ),
                            pre_elems.subrange(idx as int + count as int, new_n as int),
                        );
                        assert(self.elems@ =~= (pre_elems.subrange(0, idx as int)
                            + pre_elems.subrange(new_n as int, pre_elems.len() as int))
                            + pre_elems.subrange(idx as int + count as int, new_n as int));
                    }
                    assert(self.elems@.flatten() =~= swap_removed(
                        pre_bytes,
                        idx as int * k,
                        count as int * k,
                    ));
                    assert(self.elems@.len() * k == self.byte_buffer@.len()) by {
                        lemma_flatten_len_uniform(self.elems@, k);
                    }
                }
                Ok(copy)
            },
            Err(e) => {
                proof {
                    assert(false);
                }
                Err(e)
            },
        }
    }

    /// Reads back the element record at element `idx`.
    pub fn read_element(&self, idx: usize) -> (r: Vec<u8>)
        requires
            self.wf(),
            idx < self.elems@.len(),
        ensures
            r@ == self.elems@[idx as int],
    {
        let ghost k = self.elem_size as int;
        proof {
            vstd::arithmetic::mul::lemma_mul_inequality(
                idx as int + 1,
                self.elems@.len() as int,
                k,
            );
            assert((idx as int + 1) * k == idx as int * k + k) by (nonlinear_arith);
            lemma_flatten_subrange_uniform(self.elems@, k, idx as int, idx as int + 1);
            assert(self.elems@.subrange(idx as int, idx as int + 1).flatten() == self.elems@[
                idx as int
            ]) by {
                self.elems@.subrange(idx as int, idx as int + 1).lemma_flatten_singleton();
            }
        }
        let off = idx * self.elem_size;
        self.byte_buffer.read(off, self.elem_size)
    }
}

} // verus!
