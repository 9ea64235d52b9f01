use vstd::prelude::*;

verus! {

/// Supported compression schemes, numbered as in IETF RFC 3749.
#[derive(Debug, Clone, Copy, PartialEq, Eq, Structural)]
pub enum Scheme {
    Deflate,
}

impl Scheme {
    /// The byte that stands for the scheme on the wire.
    pub open spec fn code(self) -> u8 {
        match self {
            Scheme::Deflate => 1,
        }
    }

    /// The scheme that a byte stands for, if any.
    pub open spec fn from_code(b: u8) -> Option<Scheme> {
        if b == 1 {
            Some(Scheme::Deflate)
        } else {
            None
        }
    }

    pub fn to_bytes(&self) -> (r: Option<Vec<u8>>)
        ensures
            r is Some,
            r->0@ == seq![self.code()],
    {
        let code: u8 = match self {
            Scheme::Deflate => 1,
        };
        let mut v: Vec<u8> = Vec::new();
        v.push(code);
        Some(v)
    }

    /// Reads the scheme from the first byte of `buffer`.
    pub fn from_bytes(buffer: &[u8]) -> (r: Option<Scheme>)
        ensures
            buffer@.len() == 0 ==> r is None,
            buffer@.len() > 0 ==> r == Scheme::from_code(buffer@[0]),
    {
        if buffer.len() == 0 {
            None
        } else if buffer[0] == 1 {
            Some(Scheme::Deflate)
        } else {
            None
        }
    }

    /// Size in bytes when serialized.
    pub fn serialized_size() -> (r: usize)
        ensures
            r == 1,
    {
        1
    }
}

} // verus!
