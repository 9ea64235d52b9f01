//! Decisions of the reverse proxy, which stands in front of the origin servers.
use vstd::arithmetic::div_mod::lemma_small_mod;
use vstd::prelude::*;

use crate::compression::Direction;

verus! {

/// Default port of the reverse proxy, to which the forward proxy connects.
pub const HTTPS_PORT: u16 = 9443;

/// The transforms of a reverse proxy's relay, as (client to backend, backend to
/// client): the mirror image of the forward proxy's, so that what one side compresses
/// the other decompresses.
pub fn reverse_directions(compress: bool) -> (r: (Option<Direction>, Option<Direction>))
    ensures
        compress ==> r == (Some(Direction::Decompress), Some(Direction::Compress)),
        !compress ==> r == (None::<Direction>, None::<Direction>),
{
    if compress {
        (Some(Direction::Decompress), Some(Direction::Compress))
    } else {
        (None, None)
    }
}

/// Why a key file is not usable.
#[derive(Debug, Clone, Copy, PartialEq, Eq, Structural)]
pub enum KeyError {
    /// The file holds no private key.
    NoKey,
    /// The file holds more than one private key.
    MultipleKeys,
}

/// The one private key of a key file; exactly one is expected.
pub fn select_single_key<T>(keys: Vec<T>) -> (r: Result<T, KeyError>)
    ensures
        keys@.len() == 0 ==> r == Err::<T, KeyError>(KeyError::NoKey),
        keys@.len() == 1 ==> r == Ok::<T, KeyError>(keys@[0]),
        keys@.len() > 1 ==> r == Err::<T, KeyError>(KeyError::MultipleKeys),
{
    let mut keys = keys;
    if keys.len() == 0 {
        Err(KeyError::NoKey)
    } else if keys.len() == 1 {
        Ok(keys.remove(0))
    } else {
        Err(KeyError::MultipleKeys)
    }
}

/// Round-robin over a fixed, ordered list of backends: an endless cycle through it.
pub struct Carousel<T> {
    items: Vec<T>,
    pos: usize,
}

impl<T> View for Carousel<T> {
    type V = (Seq<T>, int);

    /// The list, and the position of the backend that comes next.
    closed spec fn view(&self) -> (Seq<T>, int) {
        (self.items@, self.pos as int)
    }
}

impl<T> Carousel<T> {
    #[verifier::type_invariant]
    spec fn inv(self) -> bool {
        self.items@.len() == 0 || self.pos < self.items@.len()
    }
}

impl<T: Copy> Carousel<T> {
    pub fn new(items: Vec<T>) -> (r: Carousel<T>)
        ensures
            r@ == (items@, 0int),
    {
        Carousel { items, pos: 0 }
    }

    /// The next backend in the cycle, or `None` where the list is empty.
    pub fn next(&mut self) -> (r: Option<T>)
        ensures
            final(self)@.0 == old(self)@.0,
            old(self)@.0.len() == 0 ==> r is None && final(self)@ == old(self)@,
            old(self)@.0.len() > 0 ==> 0 <= old(self)@.1 < old(self)@.0.len() && r == Some(
                old(self)@.0[old(self)@.1],
            ) && final(self)@.1 == (old(self)@.1 + 1) % (old(self)@.0.len() as int),
    {
        proof {
            use_type_invariant(&*self);
        }
        let len = self.items.len();
        if len == 0 {
            return None;
        }
        let item = self.items[self.pos];
        if self.pos + 1 == len {
            assert((len as int) % (len as int) == 0) by (nonlinear_arith)
                requires
                    len > 0,
            ;
            self.pos = 0;
        } else {
            proof {
                lemma_small_mod((self.pos + 1) as nat, len as nat);
            }
            self.pos = self.pos + 1;
        }
        Some(item)
    }
}

} // verus!
