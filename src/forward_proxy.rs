//! Decisions of the forward proxy, which intercepts a client's outbound connections.
use vstd::prelude::*;

use crate::compression::Direction;

verus! {

/// Default port that receives the intercepted client connections.
pub const PROXY_REDIR_PORT: u16 = 8080;

/// The transforms of a forward proxy's relay, as (client to upstream, upstream to
/// client): with compression, what the client sends is compressed and what comes back
/// is decompressed.
pub fn forward_directions(compress: bool) -> (r: (Option<Direction>, Option<Direction>))
    ensures
        compress ==> r == (Some(Direction::Compress), Some(Direction::Decompress)),
        !compress ==> r == (None::<Direction>, None::<Direction>),
{
    if compress {
        (Some(Direction::Compress), Some(Direction::Decompress))
    } else {
        (None, None)
    }
}

} // verus!
