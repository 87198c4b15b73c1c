use vstd::prelude::*;
use bytes::Bytes;

verus! {

/// `bytes::Bytes`, a shared buffer of bytes. Nothing is said of how it holds
/// them.
#[verifier::external_type_specification]
#[verifier::external_body]
pub struct ExBytes(bytes::Bytes);

/// The bytes that a `Bytes` buffer holds, in order. The buffer is opaque to
/// the verifier; what is known of this sequence is what the wrappers below
/// state.
pub uninterp spec fn bytes_contents(buffer: Bytes) -> Seq<u8>;

/// `Bytes::copy_from_slice`. Believed of it: the new buffer holds the bytes
/// of `data`, in order.
#[verifier::external_body]
fn bytes_copy_from_slice(data: &[u8]) -> (buffer: Bytes)
    ensures
        bytes_contents(buffer) == data@,
{
    Bytes::copy_from_slice(data)
}

/// `Bytes::len`. Believed of it: the result is the number of bytes that the
/// buffer holds.
#[verifier::external_body]
fn bytes_len(buffer: &Bytes) -> (len: usize)
    ensures
        len == bytes_contents(*buffer).len(),
{
    buffer.len()
}

/// `Bytes::as_ref`. Believed of it: the slice holds the bytes of the buffer,
/// in order.
#[verifier::external_body]
fn bytes_as_slice(buffer: &Bytes) -> (slice: &[u8])
    ensures
        slice@ == bytes_contents(*buffer),
{
    buffer.as_ref()
}

/// `Bytes::clone`. Believed of it: the new handle holds the same bytes as the
/// buffer it was made from.
#[verifier::external_body]
fn bytes_clone(buffer: &Bytes) -> (copy: Bytes)
    ensures
        bytes_contents(copy) == bytes_contents(*buffer),
{
    buffer.clone()
}

/// A tuple as the storage layer sees it: an immutable string of bytes.
#[derive(Debug, PartialEq, Eq)]
pub struct Tuple {
    data: Bytes,
}

impl View for Tuple {
    type V = Seq<u8>;

    closed spec fn view(&self) -> Seq<u8> {
        bytes_contents(self.data)
    }
}

impl Clone for Tuple {
    fn clone(&self) -> (copy: Self)
        ensures
            copy@ == self@,
    {
        Tuple { data: bytes_clone(&self.data) }
    }
}

impl Tuple {
    /// A tuple that holds the bytes of `data`.
    pub fn new(data: Bytes) -> (tuple: Self)
        ensures
            tuple@ == bytes_contents(data),
    {
        Tuple { data }
    }

    /// A tuple that holds a copy of `data`.
    pub fn from_slice(data: &[u8]) -> (tuple: Self)
        ensures
            tuple@ == data@,
    {
        Tuple { data: bytes_copy_from_slice(data) }
    }

    /// The buffer that holds the tuple's bytes.
    pub fn data(&self) -> (data: &Bytes)
        ensures
            bytes_contents(*data) == self@,
    {
        &self.data
    }

    /// The tuple's bytes.
    pub fn as_slice(&self) -> (slice: &[u8])
        ensures
            slice@ == self@,
    {
        bytes_as_slice(&self.data)
    }

    /// The number of bytes in the tuple.
    pub fn tuple_size(&self) -> (size: usize)
        ensures
            size == self@.len(),
    {
        bytes_len(&self.data)
    }
}

} // verus!
