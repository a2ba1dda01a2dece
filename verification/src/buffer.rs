use bytebuffer::{ByteBuffer, Endian};
use vstd::prelude::*;

verus! {

/// The byte buffer of the `bytebuffer` crate, carried through as an opaque
/// value.
#[verifier::external_type_specification]
#[verifier::external_body]
pub struct ExByteBuffer(ByteBuffer);

/// The byte order of the `bytebuffer` crate, with its two variants.
#[verifier::external_type_specification]
pub struct ExEndian(Endian);

/// The bytes that a buffer holds, from its first byte on, read or unread.
pub uninterp spec fn buffer_bytes(buffer: ByteBuffer) -> Seq<u8>;

/// The index, among `buffer_bytes`, of the next whole byte that a read will
/// return.
pub uninterp spec fn buffer_cursor(buffer: ByteBuffer) -> nat;

/// Whether multi-byte numbers are read from the buffer in little-endian
/// order.
pub uninterp spec fn buffer_is_little_endian(buffer: ByteBuffer) -> bool;

/// The bytes that have not been read yet.
pub open spec fn buffer_unread(buffer: ByteBuffer) -> Seq<u8> {
    buffer_bytes(buffer).skip(buffer_cursor(buffer) as int)
}

/// `ByteBuffer::from_vec`: the buffer holds exactly the bytes of `data` and
/// none of them has been read.
#[verifier::external_body]
pub(crate) fn buffer_from_vec(data: Vec<u8>) -> (buffer: ByteBuffer)
    ensures
        buffer_bytes(buffer) == data@,
        buffer_cursor(buffer) == 0,
        !buffer_is_little_endian(buffer),
{
    ByteBuffer::from_vec(data)
}

/// `ByteBuffer::set_endian`: the byte order for later multi-byte reads
/// becomes `endian`; the bytes and the read position stay.
pub assume_specification[ ByteBuffer::set_endian ](buffer: &mut ByteBuffer, endian: Endian)
    ensures
        buffer_bytes(*final(buffer)) == buffer_bytes(*old(buffer)),
        buffer_cursor(*final(buffer)) == buffer_cursor(*old(buffer)),
        buffer_is_little_endian(*final(buffer)) == (endian == Endian::LittleEndian),
;

/// `ByteBuffer::read_u8`: where an unread byte is left, it is returned and
/// the read position moves past it; where none is left, the call fails and
/// the read position stays. The bytes stay in both cases.
#[verifier::external_body]
pub(crate) fn buffer_read_u8(buffer: &mut ByteBuffer) -> (byte: Option<u8>)
    ensures
        buffer_bytes(*final(buffer)) == buffer_bytes(*old(buffer)),
        buffer_is_little_endian(*final(buffer)) == buffer_is_little_endian(*old(buffer)),
        match byte {
            Some(b) => {
                &&& buffer_cursor(*old(buffer)) < buffer_bytes(*old(buffer)).len()
                &&& b == buffer_bytes(*old(buffer))[buffer_cursor(*old(buffer)) as int]
                &&& buffer_cursor(*final(buffer)) == buffer_cursor(*old(buffer)) + 1
            },
            None => {
                &&& buffer_cursor(*old(buffer)) >= buffer_bytes(*old(buffer)).len()
                &&& buffer_cursor(*final(buffer)) == buffer_cursor(*old(buffer))
            },
        },
{
    buffer.read_u8().ok()
}

} // verus!
