//! Vertex arrays: binding a typed buffer's memory layout to a compiled
//! program's input attributes, and issuing draw calls over it.
//!
//! Construction checks that the attribute layout exactly tiles the buffer's
//! element type — the sum of the attribute byte widths must equal the element
//! size, with no padding and no gap — and computes, for each attribute, the
//! exact slot configuration the device layer must apply.  A missing shader
//! input and a tiling mismatch are fatal configuration errors, caught at
//! construction rather than at draw time.

use vstd::prelude::*;

use crate::gl_context::{GLContext, GLContextExistence};
use crate::vertex_buffer::{
    swap_removed, elem_views, BufferError, DeviceCopy, GLBuffer, HandleError,
};

verus! {

/// How the vertices of a draw call are assembled into primitives.
#[derive(Clone, Copy, PartialEq, Eq, Structural, Debug)]
pub enum DrawMode {
    /// Pairs of vertices form lines.
    Lines,
    /// Triples of vertices form triangles.
    Triangles,
    /// Each vertex is a point.
    Points,
}

/// The component types a shader input attribute can read.
#[derive(Clone, Copy, PartialEq, Eq, Structural, Debug)]
pub enum GLType {
    /// A 32-bit floating-point component.
    Float,
    /// A 32-bit unsigned integer component.
    UInt,
    /// A 32-bit signed integer component.
    Int,
}

impl GLType {
    /// Size in bytes of one component of this type.
    pub open spec fn spec_size(self) -> int {
        match self {
            GLType::Float => 4,
            GLType::UInt => 4,
            GLType::Int => 4,
        }
    }

    /// Whether the integer binding path must be used for this type.
    pub open spec fn spec_is_integral(self) -> bool {
        match self {
            GLType::Float => false,
            GLType::UInt => true,
            GLType::Int => true,
        }
    }

    /// Size in bytes of one component of this type.
    pub fn size(&self) -> (r: u32)
        ensures
            r == self.spec_size(),
    {
        match self {
            GLType::Float => 4,
            GLType::UInt => 4,
            GLType::Int => 4,
        }
    }

    /// Whether the integer binding path must be used for this type.
    pub fn is_integral(&self) -> (r: bool)
        ensures
            r == self.spec_is_integral(),
    {
        match self {
            GLType::Float => false,
            GLType::UInt => true,
            GLType::Int => true,
        }
    }
}

/// Specifies how to pass data to one input of the vertex shader.
pub struct VertexAttribData {
    /// Corresponds to the shader's input variable name.
    pub name: String,
    /// The number of components of this attribute, in units of `unit`.
    pub size: u32,
    /// The component type.
    pub unit: GLType,
}

/// The width in bytes of one attribute: its component count times the
/// component size.
pub open spec fn attrib_width(a: VertexAttribData) -> int {
    a.size * a.unit.spec_size()
}

/// The sum of the byte widths of `attribs`, in order: the stride of one
/// whole element once the attributes tile it.
pub open spec fn attrib_span(attribs: Seq<VertexAttribData>) -> int
    decreases attribs.len(),
{
    if attribs.len() == 0 {
        0
    } else {
        attrib_span(attribs.drop_last()) + attrib_width(attribs.last())
    }
}

/// Every attribute has nonnegative width, so the span is nonnegative.
pub proof fn lemma_attrib_span_nonneg(attribs: Seq<VertexAttribData>)
    ensures
        attrib_span(attribs) >= 0,
    decreases attribs.len(),
{
    if attribs.len() > 0 {
        lemma_attrib_span_nonneg(attribs.drop_last());
        let a = attribs.last();
        assert(a.size * a.unit.spec_size() >= 0) by (nonlinear_arith);
    }
}

/// Extending a prefix by one attribute adds that attribute's width.
pub proof fn lemma_attrib_span_take_succ(attribs: Seq<VertexAttribData>, j: int)
    requires
        0 <= j < attribs.len(),
    ensures
        attrib_span(attribs.take(j + 1)) == attrib_span(attribs.take(j)) + attrib_width(
            attribs[j],
        ),
{
    assert(attribs.take(j + 1).drop_last() =~= attribs.take(j));
    assert(attribs.take(j + 1).last() == attribs[j]);
}

/// A prefix of the attribute list never spans more than the whole list.
pub proof fn lemma_attrib_span_take_le(attribs: Seq<VertexAttribData>, j: int)
    requires
        0 <= j <= attribs.len(),
    ensures
        attrib_span(attribs.take(j)) <= attrib_span(attribs),
    decreases attribs.len() - j,
{
    if j == attribs.len() {
        assert(attribs.take(j) =~= attribs);
    } else {
        lemma_attrib_span_take_succ(attribs, j);
        lemma_attrib_span_take_le(attribs, j + 1);
        let a = attribs[j];
        assert(a.size * a.unit.spec_size() >= 0) by (nonlinear_arith);
    }
}

/// Owns one device vertex-array object.  Exactly one owner ever deletes a
/// given device id, when this handle's owner reaches its end of life.
#[derive(Debug)]
pub struct ArrayHandle {
    /// The device id of the vertex-array object.
    pub gl_id: u32,
}

impl ArrayHandle {
    /// Wraps the id a device "generate vertex arrays" call produced.  The id
    /// zero signals allocation failure and is rejected.
    pub fn new(_gl: &GLContextExistence, gl_id: u32) -> (r: Result<ArrayHandle, HandleError>)
        ensures
            r matches Ok(h) ==> h.gl_id == gl_id && gl_id != 0,
            r is Err <==> gl_id == 0,
    {
        if gl_id == 0 {
            Err(HandleError::ZeroId)
        } else {
            Ok(ArrayHandle { gl_id })
        }
    }
}

/// A fatal vertex-array configuration or draw error: each of these is a
/// caller bug, and the unverified layer terminates on it.
#[derive(Clone, Copy, PartialEq, Eq, Structural, Debug)]
pub enum ArrayError {
    /// The attribute at this position names no input of the bound program.
    AttribNotFound {
        /// Position of the unresolved attribute in the supplied list.
        index: usize,
    },
    /// The attribute widths do not sum to the element size: the layout must
    /// tile each element exactly, with no padding and no gap.
    SpanMismatch,
    /// A draw call addressed elements beyond the live length.
    DrawOutOfBounds,
}

/// One configured shader input slot: the device layer must enable slot
/// `location` and point it at `component_count` components of type `unit`,
/// reading every `stride` bytes starting at byte `offset`, through the
/// integer path iff `integral`.
#[derive(Clone, Copy, PartialEq, Eq, Structural, Debug)]
pub struct AttribBinding {
    /// The shader input slot.
    pub location: u32,
    /// Number of components read per element.
    pub component_count: u32,
    /// The component type.
    pub unit: GLType,
    /// Whether the integer binding path is used (no float conversion).
    pub integral: bool,
    /// Byte stride from one element to the next: the whole element size.
    pub stride: u32,
    /// Byte offset of this attribute inside one element.
    pub offset: u32,
}

/// The draw call the device layer must issue: `len` elements starting at
/// element `start`, assembled according to `mode`.
#[derive(Clone, Copy, PartialEq, Eq, Structural, Debug)]
pub struct DrawCommand {
    /// How the vertices are assembled.
    pub mode: DrawMode,
    /// First element drawn.
    pub start: usize,
    /// Number of elements drawn.
    pub len: usize,
}

/// Whether every attribute resolved to an input slot of the bound program.
/// The device reports a missing name with a negative sentinel.
pub open spec fn all_found(locations: Seq<i32>) -> bool {
    forall|i: int| 0 <= i < locations.len() ==> locations[i] >= 0
}

/// A typed buffer bound to a compiled program's input attributes, drawable
/// as a whole or in slices.
///
/// `length` counts live elements and stays in lockstep with the buffer on
/// every path, including the failing `push`.
pub struct GLArray {
    /// The typed buffer this array draws from.
    pub buffer: GLBuffer,
    /// Owns the device vertex-array object.
    pub handle: ArrayHandle,
    /// How to draw the elements.
    pub mode: DrawMode,
    /// Number of live elements in the buffer.
    pub length: usize,
}

impl GLArray {
    /// Well-formedness: the buffer is well-formed and `length` equals the
    /// number of live elements in it.
    pub open spec fn wf(self) -> bool {
        &&& self.buffer.wf()
        &&& self.length == self.buffer.elems@.len()
    }

    /// Builds a vertex array over `buffer`, binding each attribute, in
    /// order, to the input slot the bound program resolved for its name.
    /// `locations` holds those resolved slots, one per attribute, with a
    /// negative sentinel where the name has no input; the caller resolves
    /// them against the bound program before calling.
    ///
    /// A missing input is fatal, as is an attribute layout whose widths do
    /// not sum exactly to the buffer's element size.  On success the caller
    /// must apply the returned slot configurations to the device, in order,
    /// with the freshly bound array object active.  The buffer may already
    /// be partially populated; the array starts at its current length.
    pub fn new(
        _gl: &GLContextExistence,
        _gl_context: &mut GLContext,
        handle: ArrayHandle,
        attribs: &[VertexAttribData],
        locations: &[i32],
        mode: DrawMode,
        buffer: GLBuffer,
    ) -> (r: Result<(GLArray, Vec<AttribBinding>), ArrayError>)
        requires
            buffer.wf(),
            locations@.len() == attribs@.len(),
            attrib_span(attribs@) <= u32::MAX,
        ensures
            r is Ok <==> all_found(locations@) && attrib_span(attribs@)
                == buffer.elem_size as int,
            !all_found(locations@) ==> (r matches Err(ArrayError::AttribNotFound { index })
                && 0 <= index < locations@.len() && locations@[index as int] < 0 && (forall|i: int|
                0 <= i < index ==> locations@[i] >= 0)),
            all_found(locations@) && attrib_span(attribs@) != buffer.elem_size as int ==> r
                == Err::<(GLArray, Vec<AttribBinding>), ArrayError>(ArrayError::SpanMismatch),
            r matches Ok((array, bindings)) ==> array.wf() && array.buffer == buffer
                && array.handle == handle && array.mode == mode && array.length
                == buffer.elems@.len() && bindings@.len() == attribs@.len() && (forall|j: int|
                0 <= j < attribs@.len() ==> bindings@[j] == (AttribBinding {
                    location: locations@[j] as u32,
                    component_count: attribs@[j].size,
                    unit: attribs@[j].unit,
                    integral: attribs@[j].unit.spec_is_integral(),
                    stride: attrib_span(attribs@) as u32,
                    offset: attrib_span(attribs@.take(j)) as u32,
                })),
    {
        // Total byte width of one element's attributes, in list order.
        let mut span: u32 = 0;
        let mut j: usize = 0;
        while j < attribs.len()
            invariant
                j <= attribs@.len(),
                attrib_span(attribs@) <= u32::MAX,
                span == attrib_span(attribs@.take(j as int)),
            decreases attribs@.len() - j,
        {
            let a = &attribs[j];
            proof {
                lemma_attrib_span_take_succ(attribs@, j as int);
                lemma_attrib_span_take_le(attribs@, j as int + 1);
                lemma_attrib_span_nonneg(attribs@.take(j as int));
                assert(a.size * a.unit.spec_size() >= 0) by (nonlinear_arith);
            }
            span = span + a.size * a.unit.size();
            j += 1;
        }
        proof {
            assert(attribs@.take(attribs@.len() as int) =~= attribs@);
        }

        // Resolve and configure each attribute, in order, at its running
        // byte offset.
        let mut bindings: Vec<AttribBinding> = Vec::new();
        let mut offset: u32 = 0;
        let mut i: usize = 0;
        while i < attribs.len()
            invariant
                i <= attribs@.len(),
                locations@.len() == attribs@.len(),
                attrib_span(attribs@) <= u32::MAX,
                span == attrib_span(attribs@),
                offset == attrib_span(attribs@.take(i as int)),
                bindings@.len() == i,
                forall|t: int| 0 <= t < i ==> locations@[t] >= 0,
                forall|t: int|
                    0 <= t < i ==> bindings@[t] == (AttribBinding {
                        location: locations@[t] as u32,
                        component_count: attribs@[t].size,
                        unit: attribs@[t].unit,
                        integral: attribs@[t].unit.spec_is_integral(),
                        stride: attrib_span(attribs@) as u32,
                        offset: attrib_span(attribs@.take(t)) as u32,
                    }),
            decreases attribs@.len() - i,
        {
            let loc = locations[i];
            if loc < 0 {
                return Err(ArrayError::AttribNotFound { index: i });
            }
            let a = &attribs[i];
            proof {
                lemma_attrib_span_take_succ(attribs@, i as int);
                lemma_attrib_span_take_le(attribs@, i as int + 1);
                lemma_attrib_span_nonneg(attribs@.take(i as int));
                assert(a.size * a.unit.spec_size() >= 0) by (nonlinear_arith);
            }
            bindings.push(
                AttribBinding {
                    location: loc as u32,
                    component_count: a.size,
                    unit: a.unit,
                    integral: a.unit.is_integral(),
                    stride: span,
                    offset,
                },
            );
            offset = offset + a.size * a.unit.size();
            i += 1;
        }

        // The attribute layout must exactly tile the element type.
        if span as usize != buffer.elem_size {
            return Err(ArrayError::SpanMismatch);
        }

        let length = buffer.length();
        Ok((GLArray { buffer, handle, mode, length }, bindings))
    }

    /// Appends the element records `vs`.  Returns `false` and changes
    /// nothing — the length stays in lockstep with the buffer — if they
    /// would not fit.  The caller obligations of [`GLBuffer::push`] apply.
    pub fn push(&mut self, gl: &mut GLContext, vs: &[Vec<u8>]) -> (r: bool)
        requires
            old(self).wf(),
            forall|i: int|
                0 <= i < vs@.len() ==> (#[trigger] vs@[i])@.len() == old(self).buffer.elem_size,
        ensures
            final(self).wf(),
            final(self).handle == old(self).handle,
            final(self).mode == old(self).mode,
            final(self).buffer.elem_size == old(self).buffer.elem_size,
            final(self).buffer.byte_buffer.capacity == old(self).buffer.byte_buffer.capacity,
            final(self).buffer.byte_buffer.handle == old(self).buffer.byte_buffer.handle,
            r <==> (old(self).length + vs@.len()) * old(self).buffer.elem_size <= old(self).buffer.byte_buffer.capacity,
            r ==> final(self).buffer.elems@ == old(self).buffer.elems@ + elem_views(vs@) && final(self).length == old(self).length + vs@.len(),
            !r ==> final(self).buffer.elems@ == old(self).buffer.elems@ && final(self).length
                == old(self).length,
    {
        let r = self.buffer.push(gl, vs);
        if r {
            proof {
                // The new element count fits in the capacity, so it fits in
                // usize as well.
                let n = old(self).length + vs@.len() as int;
                let k = self.buffer.elem_size as int;
                assert(n <= n * k) by (nonlinear_arith)
                    requires
                        k >= 1,
                        n >= 0,
                ;
            }
            self.length = self.length + vs.len();
        }
        r
    }

    /// Removes `count` elements at element `idx` by swap-remove, keeping
    /// `length` in lockstep.  The caller obligations of
    /// [`GLBuffer::swap_remove`] apply.
    pub fn swap_remove(&mut self, gl: &mut GLContext, idx: usize, count: usize) -> (r: Result<
        Option<DeviceCopy>,
        BufferError,
    >)
        requires
            old(self).wf(),
        ensures
            final(self).wf(),
            final(self).handle == old(self).handle,
            final(self).mode == old(self).mode,
            final(self).buffer.elem_size == old(self).buffer.elem_size,
            final(self).buffer.byte_buffer.capacity == old(self).buffer.byte_buffer.capacity,
            final(self).buffer.byte_buffer.handle == old(self).buffer.byte_buffer.handle,
            r is Err ==> final(self).buffer.elems@ == old(self).buffer.elems@ && final(self).length
                == old(self).length,
            r is Err <==> count > old(self).length || idx > old(self).length - count || (idx < old(self).length - count && idx + count > old(self).length - count),
            r == Err::<Option<DeviceCopy>, BufferError>(BufferError::CountExceedsLength) <==> count
                > old(self).length,
            r == Err::<Option<DeviceCopy>, BufferError>(BufferError::IndexOutOfBounds) <==> count
                <= old(self).length && idx > old(self).length - count,
            r == Err::<Option<DeviceCopy>, BufferError>(BufferError::OverlappingCopy) <==> count
                <= old(self).length && idx < old(self).length - count && idx + count > old(self).length - count,
            r is Ok ==> final(self).buffer.elems@ == swap_removed(
                old(self).buffer.elems@,
                idx as int,
                count as int,
            ) && final(self).length == old(self).length - count,
            r == Ok::<Option<DeviceCopy>, BufferError>(None) <==> count <= old(self).length && idx
                == old(self).length - count,
            r matches Ok(Some(c)) ==> c.src_offset == (old(self).length - count) * old(self).buffer.elem_size && c.dst_offset == idx * old(self).buffer.elem_size && c.len == count
                * old(self).buffer.elem_size && c.dst_offset + c.len <= c.src_offset,
    {
        let r = self.buffer.swap_remove(gl, idx, count);
        if r.is_ok() {
            self.length = self.length - count;
        }
        r
    }

    /// The draw call over all live elements.
    pub fn draw(&self, gl: &mut GLContext) -> (r: DrawCommand)
        requires
            self.wf(),
        ensures
            r == (DrawCommand { mode: self.mode, start: 0, len: self.length }),
    {
        let r = self.draw_slice(gl, 0, self.length);
        match r {
            Ok(c) => c,
            Err(_) => {
                proof {
                    assert(false);
                }
                DrawCommand { mode: self.mode, start: 0, len: self.length }
            },
        }
    }

    /// The draw call over the elements `[start, start + len)`.  A slice
    /// reaching beyond the live length is a caller bug, reported as an
    /// error the caller must treat as fatal.
    pub fn draw_slice(&self, _gl: &mut GLContext, start: usize, len: usize) -> (r: Result<
        DrawCommand,
        ArrayError,
    >)
        requires
            self.wf(),
        ensures
            r is Err <==> start + len > self.length,
            r is Err ==> r == Err::<DrawCommand, ArrayError>(ArrayError::DrawOutOfBounds),
            r matches Ok(c) ==> c == (DrawCommand { mode: self.mode, start, len }) && start + len
                <= self.length,
    {
        if len > self.length || start > self.length - len {
            return Err(ArrayError::DrawOutOfBounds);
        }
        Ok(DrawCommand { mode: self.mode, start, len })
    }
}

} // verus!
