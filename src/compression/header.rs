use vstd::prelude::*;
use vstd::slice::slice_subrange;

use crate::compression::error::CompressionError;
use crate::compression::scheme::Scheme;

verus! {

/// Magic value that marks the start of a compression header, and so of a frame.
pub const HEADER_MAGIC_VALUE: u16 = 0xbeef;

/// High byte of the magic: the first byte of every frame.
pub const MAGIC_HIGH: u8 = 0xbe;

/// Low byte of the magic: the second byte of every frame.
pub const MAGIC_LOW: u8 = 0xef;

/// The header that precedes each compressed payload: a big-endian magic and a scheme byte.
#[derive(Debug, Clone, Copy, PartialEq, Eq, Structural)]
pub struct Header {
    pub magic: u16,
    pub scheme: Scheme,
}

/// Number of bytes in a serialized header.
pub open spec fn header_len() -> nat {
    3
}

/// The header for `scheme`, as a value.
pub open spec fn header_of(scheme: Scheme) -> Header {
    Header { magic: HEADER_MAGIC_VALUE, scheme }
}

/// The serialized header of `scheme`: the magic, high byte first, then the scheme byte.
pub open spec fn header_bytes(scheme: Scheme) -> Seq<u8> {
    seq![MAGIC_HIGH, MAGIC_LOW, scheme.code()]
}

/// Whether the two bytes at `i` of `b` are the magic.
pub open spec fn magic_at(b: Seq<u8>, i: int) -> bool {
    0 <= i && i + 1 < b.len() && b[i] == MAGIC_HIGH && b[i + 1] == MAGIC_LOW
}

/// What parsing the first bytes of `b` as a header gives.
pub open spec fn parse_header(b: Seq<u8>) -> Result<Header, CompressionError> {
    if b.len() < header_len() {
        Err(CompressionError::Short)
    } else if !magic_at(b, 0) {
        Err(CompressionError::MalformedHeader)
    } else {
        match Scheme::from_code(b[2]) {
            Some(s) => Ok(header_of(s)),
            None => Err(CompressionError::UnknownScheme),
        }
    }
}

impl Header {
    /// The bytes of this header: `magic` big-endian, then the scheme byte.
    pub open spec fn spec_bytes(self) -> Seq<u8> {
        seq![(self.magic / 256) as u8, (self.magic % 256) as u8, self.scheme.code()]
    }

    pub fn new(scheme: Scheme) -> (r: Header)
        ensures
            r == header_of(scheme),
    {
        Header { magic: HEADER_MAGIC_VALUE, scheme }
    }

    pub fn to_bytes(&self) -> (r: Option<Vec<u8>>)
        ensures
            r is Some,
            r->0@ == self.spec_bytes(),
    {
        let scheme_bytes = self.scheme.to_bytes();
        let mut v: Vec<u8> = Vec::new();
        v.push((self.magic / 256) as u8);
        v.push((self.magic % 256) as u8);
        match scheme_bytes {
            Some(s) => {
                v.push(s[0]);
            },
            None => {},
        }
        Some(v)
    }

    /// Parses the header at the start of `buf`.
    pub fn from_bytes(buf: &[u8]) -> (r: Result<Header, CompressionError>)
        ensures
            r == parse_header(buf@),
            buf@.len() < header_len() ==> r == Err::<Header, CompressionError>(
                CompressionError::Short,
            ),
            buf@.len() >= header_len() && (buf@[0] != MAGIC_HIGH || buf@[1] != MAGIC_LOW) ==> r
                == Err::<Header, CompressionError>(CompressionError::MalformedHeader),
    {
        if buf.len() < 3 {
            return Err(CompressionError::Short);
        }
        if buf[0] != MAGIC_HIGH || buf[1] != MAGIC_LOW {
            return Err(CompressionError::MalformedHeader);
        }
        match Scheme::from_bytes(slice_subrange(buf, 2, buf.len())) {
            Some(scheme) => Ok(Header::new(scheme)),
            None => Err(CompressionError::UnknownScheme),
        }
    }

    /// Size in bytes when serialized.
    pub fn serialized_size() -> (r: usize)
        ensures
            r == header_len(),
    {
        2 + Scheme::serialized_size()
    }
}

/// Serializing a header yields the magic bytes followed by the scheme's code.
pub proof fn lemma_header_bytes(scheme: Scheme)
    ensures
        header_of(scheme).spec_bytes() == header_bytes(scheme),
{
    assert(header_of(scheme).spec_bytes() =~= header_bytes(scheme));
}

/// Parsing the serialized header of any scheme gives back that header.
pub proof fn lemma_parse_inverts_to_bytes(scheme: Scheme)
    ensures
        parse_header(header_of(scheme).spec_bytes()) == Ok::<Header, CompressionError>(
            header_of(scheme),
        ),
{
    lemma_header_bytes(scheme);
}

/// Every serialized header is `serialized_size` bytes long.
pub proof fn lemma_serialized_size_matches(scheme: Scheme)
    ensures
        header_of(scheme).spec_bytes().len() == header_len(),
{
}

} // verus!
