use vstd::prelude::*;

verus! {

/// Declares `std::io::Error`, the error type of a byte sink, so that the
/// results of writes can be carried through verified code.
#[verifier::external_type_specification]
#[verifier::external_body]
pub struct ExIoError(std::io::Error);

/// Relies on `<Vec<u8> as Write>::write`: it appends all of `buf` and
/// reports its length.
#[verifier::external_body]
pub(crate) fn vec_write(v: &mut Vec<u8>, buf: &[u8]) -> (r: std::io::Result<usize>)
    ensures
        r is Ok,
        r->Ok_0 == buf@.len(),
        final(v)@ == old(v)@ + buf@,
{
    std::io::Write::write(v, buf)
}

/// Declares `std::io::IoSlice`, a buffer handed to a vectored write.
#[verifier::external_type_specification]
#[verifier::external_body]
pub struct ExIoSlice<'a>(std::io::IoSlice<'a>);

/// Relies on `<Vec<u8> as Write>::write_vectored`: it appends the bytes of
/// every buffer, in order, and reports how many it appended.
#[verifier::external_body]
pub(crate) fn vec_write_vectored(v: &mut Vec<u8>, bufs: &[std::io::IoSlice<'_>]) -> (r: std::io::Result<
    usize,
>)
    ensures
        r is Ok,
        final(v)@.len() == old(v)@.len() + r->Ok_0,
        final(v)@.take(old(v)@.len() as int) == old(v)@,
{
    std::io::Write::write_vectored(v, bufs)
}

} // verus!
