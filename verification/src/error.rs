//! The errors of the wire formats.

use vstd::prelude::*;

verus! {

/// `std::io::Error`, carried through as it is.
#[verifier::external_type_specification]
#[verifier::external_body]
pub struct ExIoError(std::io::Error);

/// `postcard::Error`, carried through as it is.
#[verifier::external_type_specification]
#[verifier::external_body]
pub struct ExPostcardError(postcard::Error);

/// What can go wrong while a message or a packet is read or written.
#[derive(Debug)]
pub enum SharedError {
    /// A varint did not end within ten bytes.
    VarIntDecode,
    /// A message could not be serialized.
    DataSerialize(postcard::Error),
    /// A message could not be deserialized.
    DataDeserialize(postcard::Error),
    /// Writing to a stream failed.
    Write(std::io::Error),
    /// Reading from a stream failed.
    Read(std::io::Error),
    /// A frame announced more bytes than the receiver has room for.
    BufSize,
    /// A packet does not have the expected form.
    InvalidPacket(String),
}

/// A [`SharedError`] without the errors of other libraries that it carries.
pub enum ErrorView {
    VarIntDecode,
    DataSerialize,
    DataDeserialize,
    Write,
    Read,
    BufSize,
    InvalidPacket(Seq<char>),
}

impl View for SharedError {
    type V = ErrorView;

    open spec fn view(&self) -> ErrorView {
        match *self {
            SharedError::VarIntDecode => ErrorView::VarIntDecode,
            SharedError::DataSerialize(_) => ErrorView::DataSerialize,
            SharedError::DataDeserialize(_) => ErrorView::DataDeserialize,
            SharedError::Write(_) => ErrorView::Write,
            SharedError::Read(_) => ErrorView::Read,
            SharedError::BufSize => ErrorView::BufSize,
            SharedError::InvalidPacket(msg) => ErrorView::InvalidPacket(msg@),
        }
    }
}

/// Builds the `std::io::Error` of a stream that ended early, with
/// `std::io::Error::from` on `std::io::ErrorKind::UnexpectedEof`. Nothing is
/// claimed of the result.
#[verifier::external_body]
fn io_eof() -> std::io::Error {
    std::io::Error::from(std::io::ErrorKind::UnexpectedEof)
}

/// The error of a stream that ended before the bytes that were asked for came.
pub fn end_of_stream() -> (r: SharedError)
    ensures
        r@ == ErrorView::Read,
{
    SharedError::Read(io_eof())
}

/// The error of a packet that does not have the expected form.
pub fn invalid_packet(msg: &str) -> (r: SharedError)
    ensures
        r@ == ErrorView::InvalidPacket(msg@),
{
    SharedError::InvalidPacket(msg.to_owned())
}

} // verus!
