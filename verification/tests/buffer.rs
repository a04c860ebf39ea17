use glw::BufferError;
use glw::BufferHandle;
use glw::GLByteBuffer;
use glw::GLBuffer;
use glw::GLContext;
use glw::HandleError;

fn byte_buffer(capacity: usize) -> (glw::GLContextExistence, GLContext, GLByteBuffer) {
    let (gl, mut ctx) = GLContext::new();
    let handle = BufferHandle::new(&gl, 1).unwrap();
    let buf = GLByteBuffer::new(&gl, &mut ctx, handle, capacity);
    (gl, ctx, buf)
}

fn typed_buffer(capacity: usize, elem_size: usize) -> (glw::GLContextExistence, GLContext, GLBuffer) {
    let (gl, mut ctx) = GLContext::new();
    let handle = BufferHandle::new(&gl, 1).unwrap();
    let buf = GLBuffer::new(&gl, &mut ctx, handle, capacity, elem_size);
    (gl, ctx, buf)
}

#[test]
fn handle_rejects_zero_id() {
    let (gl, _ctx) = GLContext::new();
    assert_eq!(BufferHandle::new(&gl, 0).unwrap_err(), HandleError::ZeroId);
    assert_eq!(BufferHandle::new(&gl, 3).unwrap().gl_id, 3);
}

#[test]
fn push_respects_capacity() {
    // Capacity 12: a push of 8 succeeds, a second push of 8 is refused and
    // the length stays at 8.
    let (_gl, mut ctx, mut buf) = byte_buffer(12);
    let first: Vec<u8> = vec![1, 2, 3, 4, 5, 6, 7, 8];
    assert!(buf.push(&mut ctx, first.as_slice()));
    assert_eq!(buf.length(), 8);
    let second: Vec<u8> = vec![9, 10, 11, 12, 13, 14, 15, 16];
    assert!(!buf.push(&mut ctx, second.as_slice()));
    assert_eq!(buf.length(), 8);
}

#[test]
fn push_to_exact_capacity() {
    let (_gl, mut ctx, mut buf) = byte_buffer(4);
    let bytes: Vec<u8> = vec![1, 2, 3, 4];
    assert!(buf.push(&mut ctx, bytes.as_slice()));
    assert_eq!(buf.length(), 4);
    let one: Vec<u8> = vec![5];
    assert!(!buf.push(&mut ctx, one.as_slice()));
    assert_eq!(buf.length(), 4);
}

#[test]
fn push_empty_always_fits() {
    let (_gl, mut ctx, mut buf) = byte_buffer(0);
    let nothing: Vec<u8> = Vec::new();
    assert!(buf.push(&mut ctx, nothing.as_slice()));
    assert_eq!(buf.length(), 0);
}

#[test]
fn push_reads_back_identically() {
    // Round trip: the byte range a push wrote reads back as the pushed
    // bytes.
    let (_gl, mut ctx, mut buf) = byte_buffer(16);
    let prefix: Vec<u8> = vec![9, 9, 9];
    assert!(buf.push(&mut ctx, prefix.as_slice()));
    let vs: Vec<u8> = vec![41, 42, 43, 44, 45];
    assert!(buf.push(&mut ctx, vs.as_slice()));
    assert_eq!(buf.read(3, 5), vs);
    assert_eq!(buf.read(0, 3), prefix);
}

#[test]
fn update_overwrites_range_in_place() {
    let (_gl, mut ctx, mut buf) = byte_buffer(8);
    let bytes: Vec<u8> = vec![1, 2, 3, 4, 5, 6];
    assert!(buf.push(&mut ctx, bytes.as_slice()));
    let patch: Vec<u8> = vec![7, 8];
    buf.update(&mut ctx, 2, patch.as_slice()).unwrap();
    assert_eq!(buf.read(0, 6), vec![1, 2, 7, 8, 5, 6]);
    assert_eq!(buf.length(), 6);
}

#[test]
fn update_beyond_length_is_rejected() {
    let (_gl, mut ctx, mut buf) = byte_buffer(8);
    let bytes: Vec<u8> = vec![1, 2, 3];
    assert!(buf.push(&mut ctx, bytes.as_slice()));
    let patch: Vec<u8> = vec![7, 8];
    assert_eq!(
        buf.update(&mut ctx, 2, patch.as_slice()).unwrap_err(),
        BufferError::RangeOutOfBounds
    );
    assert_eq!(buf.read(0, 3), vec![1, 2, 3]);
}

#[test]
fn swap_remove_moves_tail_into_hole() {
    let (_gl, mut ctx, mut buf) = byte_buffer(8);
    let bytes: Vec<u8> = vec![10, 11, 12, 13, 14, 15];
    assert!(buf.push(&mut ctx, bytes.as_slice()));
    let copy = buf.swap_remove(&mut ctx, 0, 2).unwrap().unwrap();
    assert_eq!(copy.src_offset, 4);
    assert_eq!(copy.dst_offset, 0);
    assert_eq!(copy.len, 2);
    assert_eq!(buf.length(), 4);
    assert_eq!(buf.read(0, 4), vec![14, 15, 12, 13]);
}

#[test]
fn swap_remove_of_tail_needs_no_copy() {
    let (_gl, mut ctx, mut buf) = byte_buffer(8);
    let bytes: Vec<u8> = vec![10, 11, 12, 13, 14, 15];
    assert!(buf.push(&mut ctx, bytes.as_slice()));
    assert_eq!(buf.swap_remove(&mut ctx, 4, 2).unwrap(), None);
    assert_eq!(buf.length(), 4);
    assert_eq!(buf.read(0, 4), vec![10, 11, 12, 13]);
}

#[test]
fn swap_remove_boundary_overlap_is_allowed() {
    // The boundary case `idx == length - 2 * count`: the source range starts
    // exactly where the destination range ends, which is still a
    // non-overlapping copy.
    let (_gl, mut ctx, mut buf) = byte_buffer(8);
    let bytes: Vec<u8> = vec![1, 2, 3, 4];
    assert!(buf.push(&mut ctx, bytes.as_slice()));
    let copy = buf.swap_remove(&mut ctx, 0, 2).unwrap().unwrap();
    assert_eq!(copy.src_offset, 2);
    assert_eq!(copy.dst_offset, 0);
    assert_eq!(buf.read(0, 2), vec![3, 4]);
}

#[test]
fn swap_remove_count_beyond_length_is_rejected() {
    let (_gl, mut ctx, mut buf) = byte_buffer(8);
    let bytes: Vec<u8> = vec![1, 2, 3];
    assert!(buf.push(&mut ctx, bytes.as_slice()));
    assert_eq!(
        buf.swap_remove(&mut ctx, 0, 4).unwrap_err(),
        BufferError::CountExceedsLength
    );
    assert_eq!(buf.length(), 3);
}

#[test]
fn swap_remove_index_beyond_shrunk_length_is_rejected() {
    let (_gl, mut ctx, mut buf) = byte_buffer(8);
    let bytes: Vec<u8> = vec![1, 2, 3, 4];
    assert!(buf.push(&mut ctx, bytes.as_slice()));
    assert_eq!(
        buf.swap_remove(&mut ctx, 3, 2).unwrap_err(),
        BufferError::IndexOutOfBounds
    );
}

#[test]
fn swap_remove_overlapping_copy_is_rejected() {
    // Removing 2 bytes at index 2 of 5 live bytes would copy the source
    // range [3, 5) onto the destination range [2, 4); the two share byte 3,
    // so the removal is refused.
    let (_gl, mut ctx, mut buf) = byte_buffer(8);
    let bytes: Vec<u8> = vec![1, 2, 3, 4, 5];
    assert!(buf.push(&mut ctx, bytes.as_slice()));
    assert_eq!(
        buf.swap_remove(&mut ctx, 2, 2).unwrap_err(),
        BufferError::OverlappingCopy
    );
    assert_eq!(buf.length(), 5);
}

#[test]
fn typed_buffer_scenario() {
    // Elements of 3 four-byte components (12 bytes), capacity 2 elements:
    // push two elements, then swap-remove the first; the remaining element
    // is the former second one.
    let e0: Vec<u8> = 1.0f32
        .to_le_bytes()
        .iter()
        .chain(2.0f32.to_le_bytes().iter())
        .chain(3.0f32.to_le_bytes().iter())
        .copied()
        .collect();
    let e1: Vec<u8> = 4.0f32
        .to_le_bytes()
        .iter()
        .chain(5.0f32.to_le_bytes().iter())
        .chain(6.0f32.to_le_bytes().iter())
        .copied()
        .collect();
    assert_eq!(e0.len(), 12);
    let (_gl, mut ctx, mut buf) = typed_buffer(2, 12);
    let elems: Vec<Vec<u8>> = vec![e0, e1.clone()];
    assert!(buf.push(&mut ctx, elems.as_slice()));
    assert_eq!(buf.length(), 2);
    let copy = buf.swap_remove(&mut ctx, 0, 1).unwrap().unwrap();
    assert_eq!(copy.src_offset, 12);
    assert_eq!(copy.dst_offset, 0);
    assert_eq!(copy.len, 12);
    assert_eq!(buf.length(), 1);
    assert_eq!(buf.read_element(0), e1);
}

#[test]
fn typed_push_respects_element_capacity() {
    let (_gl, mut ctx, mut buf) = typed_buffer(2, 4);
    let a: Vec<u8> = vec![1, 2, 3, 4];
    let b: Vec<u8> = vec![5, 6, 7, 8];
    let c: Vec<u8> = vec![9, 10, 11, 12];
    let two: Vec<Vec<u8>> = vec![a.clone(), b.clone()];
    assert!(buf.push(&mut ctx, two.as_slice()));
    assert_eq!(buf.length(), 2);
    let one: Vec<Vec<u8>> = vec![c];
    assert!(!buf.push(&mut ctx, one.as_slice()));
    assert_eq!(buf.length(), 2);
    assert_eq!(buf.read_element(0), a);
    assert_eq!(buf.read_element(1), b);
}

#[test]
fn typed_update_touches_exactly_the_element_range() {
    // Element size 3: updating one element at index 1 touches exactly the
    // byte range [3, 6) and nothing else.
    let (_gl, mut ctx, mut buf) = typed_buffer(3, 3);
    let elems: Vec<Vec<u8>> = vec![vec![1, 2, 3], vec![4, 5, 6], vec![7, 8, 9]];
    assert!(buf.push(&mut ctx, elems.as_slice()));
    let patch: Vec<Vec<u8>> = vec![vec![40, 50, 60]];
    buf.update(&mut ctx, 1, patch.as_slice()).unwrap();
    assert_eq!(buf.read_element(0), vec![1, 2, 3]);
    assert_eq!(buf.read_element(1), vec![40, 50, 60]);
    assert_eq!(buf.read_element(2), vec![7, 8, 9]);
}

#[test]
fn typed_update_beyond_length_is_rejected() {
    let (_gl, mut ctx, mut buf) = typed_buffer(3, 3);
    let elems: Vec<Vec<u8>> = vec![vec![1, 2, 3]];
    assert!(buf.push(&mut ctx, elems.as_slice()));
    let patch: Vec<Vec<u8>> = vec![vec![4, 5, 6], vec![7, 8, 9]];
    assert_eq!(
        buf.update(&mut ctx, 0, patch.as_slice()).unwrap_err(),
        BufferError::RangeOutOfBounds
    );
}

#[test]
fn typed_swap_remove_tail() {
    let (_gl, mut ctx, mut buf) = typed_buffer(2, 2);
    let elems: Vec<Vec<u8>> = vec![vec![1, 2], vec![3, 4]];
    assert!(buf.push(&mut ctx, elems.as_slice()));
    assert_eq!(buf.swap_remove(&mut ctx, 1, 1).unwrap(), None);
    assert_eq!(buf.length(), 1);
    assert_eq!(buf.read_element(0), vec![1, 2]);
}
