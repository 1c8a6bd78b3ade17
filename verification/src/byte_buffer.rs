//! The parts of `bytebuffer::ByteBuffer` that the library uses, with what
//! its source shows of them.
//!
//! A `ByteBuffer` holds a vector of bytes, a write cursor and a bit cursor.
//! The library only ever appends whole bytes to it, so the contracts speak
//! of the data and of whether the next write goes to its end.
use vstd::prelude::*;
use bytebuffer::ByteBuffer;

verus! {

#[verifier::external_type_specification]
#[verifier::external_body]
pub struct ExByteBuffer(ByteBuffer);

/// The bytes that the buffer holds (its `data` vector).
pub uninterp spec fn byte_buffer_data(b: ByteBuffer) -> Seq<u8>;

/// Whether the next write appends: the write cursor stands at the end of
/// the data and no partly written byte is pending.
pub uninterp spec fn byte_buffer_appends(b: ByteBuffer) -> bool;

/// `ByteBuffer::new`: an empty buffer whose cursors stand at 0.
#[verifier::external_body]
pub(crate) fn byte_buffer_new() -> (b: ByteBuffer)
    ensures
        byte_buffer_data(b) == Seq::<u8>::empty(),
        byte_buffer_appends(b),
{
    ByteBuffer::new()
}

/// `ByteBuffer::resize`: grows the data with zero bytes up to `size`; the
/// cursors stay where they were.  It computes `size - len`, which underflows
/// for a smaller `size`.
#[verifier::external_body]
pub(crate) fn byte_buffer_resize(b: &mut ByteBuffer, size: usize)
    requires
        size >= byte_buffer_data(*old(b)).len(),
    ensures
        byte_buffer_data(*final(b)) == byte_buffer_data(*old(b)) + Seq::new(
            (size - byte_buffer_data(*old(b)).len()) as nat,
            |i: int| 0u8,
        ),
        byte_buffer_appends(*old(b)) ==> (byte_buffer_appends(*final(b)) <==> size
            == byte_buffer_data(*old(b)).len()),
{
    b.resize(size)
}

/// `ByteBuffer::clear`: empties the data and puts every cursor back at 0.
#[verifier::external_body]
pub(crate) fn byte_buffer_clear(b: &mut ByteBuffer)
    ensures
        byte_buffer_data(*final(b)) == Seq::<u8>::empty(),
        byte_buffer_appends(*final(b)),
{
    b.clear()
}

/// `ByteBuffer::write_u8`: writes one byte at the write cursor, growing the
/// data when the cursor is at its end, and moves the cursor past it.
#[verifier::external_body]
pub(crate) fn byte_buffer_write_u8(b: &mut ByteBuffer, v: u8)
    requires
        byte_buffer_appends(*old(b)),
    ensures
        byte_buffer_data(*final(b)) == byte_buffer_data(*old(b)).push(v),
        byte_buffer_appends(*final(b)),
{
    b.write_u8(v)
}

/// `ByteBuffer::write_bytes`: writes the bytes at the write cursor, growing
/// the data when needed, and moves the cursor past them.
#[verifier::external_body]
pub(crate) fn byte_buffer_write_bytes(b: &mut ByteBuffer, bytes: &[u8])
    requires
        byte_buffer_appends(*old(b)),
    ensures
        byte_buffer_data(*final(b)) == byte_buffer_data(*old(b)) + bytes@,
        byte_buffer_appends(*final(b)),
{
    b.write_bytes(bytes)
}

/// `ByteBuffer::as_bytes`: the data.
#[verifier::external_body]
pub(crate) fn byte_buffer_as_bytes(b: &ByteBuffer) -> (r: &[u8])
    ensures
        r@ == byte_buffer_data(*b),
{
    b.as_bytes()
}

} // verus!
