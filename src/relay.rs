//! The decisions of a half relay: what to write to the sink for each batch read from
//! the source, and when to shut the sink down. The I/O itself is left to the caller,
//! which reads, hands the outcome to `HalfRelay::on_event`, and performs the action.
use vstd::prelude::*;

use crate::compression::clients::extend_bytes;
use crate::compression::deflate::deflate_of;
use crate::compression::error::CompressionError;
use crate::compression::{
    compress, decode_frames, decode_frames_spec, is_compressed_frame_of, lemma_chunked_round_trip,
    magic_free, Direction,
};

verus! {

/// Size of the buffer that a half relay reads into: each read is at most this long,
/// and with compression each read becomes one frame.
pub const RELAY_BUFFER_SIZE: usize = 1024;

/// `output` is what a relay with transform `dir` writes for the read batch `input`.
pub open spec fn is_transform_of(dir: Option<Direction>, input: Seq<u8>, output: Seq<u8>) -> bool {
    match dir {
        None => output == input,
        Some(Direction::Compress) => is_compressed_frame_of(output, input),
        Some(Direction::Decompress) => decode_frames_spec(input) == Ok::<
            Seq<u8>,
            CompressionError,
        >(output),
    }
}

/// Applies the transform `dir` to one read batch. Without a transform the batch is
/// passed on unchanged; compressing makes one frame of it; decompressing splits it into
/// frames and concatenates what each decompresses to.
pub fn transform_batch(dir: Option<Direction>, data: &[u8]) -> (r: Result<Vec<u8>, CompressionError>)
    ensures
        match r {
            Ok(out) => is_transform_of(dir, data@, out@),
            Err(e) => match dir {
                None => false,
                Some(Direction::Compress) => false,
                Some(Direction::Decompress) => decode_frames_spec(data@) == Err::<
                    Seq<u8>,
                    CompressionError,
                >(e),
            },
        },
{
    match dir {
        None => {
            let mut out: Vec<u8> = Vec::new();
            extend_bytes(&mut out, data);
            assert(out@ =~= data@);
            Ok(out)
        },
        Some(Direction::Compress) => compress(data),
        Some(Direction::Decompress) => decode_frames(data),
    }
}

/// What happened at the source, or at the sink, of a half relay.
pub enum RelayEvent {
    /// A read returned these bytes; none means the source reached its end.
    Received(Vec<u8>),
    /// The source reached its end.
    Eof,
    /// Reading from the source failed.
    ReadFailed,
    /// Writing to the sink failed.
    WriteFailed,
}

/// What a half relay asks of its caller.
pub enum RelayAction {
    /// Write these bytes to the sink, then read again.
    Write(Vec<u8>),
    /// Shut the sink down; the half relay is over.
    Shutdown,
    /// The half relay is already over: nothing to do.
    Closed,
}

/// The state of a half relay: its transform and whether it still runs.
pub struct HalfRelayView {
    pub direction: Option<Direction>,
    pub open: bool,
}

/// One direction of a relay session: from a source to a sink, with an optional transform.
pub struct HalfRelay {
    direction: Option<Direction>,
    open: bool,
}

impl View for HalfRelay {
    type V = HalfRelayView;

    closed spec fn view(&self) -> HalfRelayView {
        HalfRelayView { direction: self.direction, open: self.open }
    }
}

impl HalfRelay {
    pub fn new(direction: Option<Direction>) -> (r: HalfRelay)
        ensures
            r@ == (HalfRelayView { direction, open: true }),
    {
        HalfRelay { direction, open: true }
    }

    pub fn is_open(&self) -> (r: bool)
        ensures
            r == self@.open,
    {
        self.open
    }

    pub fn direction(&self) -> (r: Option<Direction>)
        ensures
            r == self@.direction,
    {
        self.direction
    }

    /// Decides what to do about `event`. A non-empty batch is transformed and written;
    /// the end of the source, a failed read or write, or a failed transform shuts the
    /// sink down and ends this half relay, and nothing else does.
    pub fn on_event(&mut self, event: RelayEvent) -> (r: RelayAction)
        ensures
            final(self)@.direction == old(self)@.direction,
            !old(self)@.open ==> r is Closed && !final(self)@.open,
            old(self)@.open ==> match event {
                RelayEvent::Received(data) => if data@.len() == 0 {
                    r is Shutdown && !final(self)@.open
                } else {
                    match r {
                        RelayAction::Write(out) => is_transform_of(
                            old(self)@.direction,
                            data@,
                            out@,
                        ) && final(self)@.open,
                        RelayAction::Shutdown => !final(self)@.open && match old(
                            self,
                        )@.direction {
                            None => false,
                            Some(Direction::Compress) => false,
                            Some(Direction::Decompress) => decode_frames_spec(data@) is Err,
                        },
                        RelayAction::Closed => false,
                    }
                },
                _ => r is Shutdown && !final(self)@.open,
            },
    {
        if !self.open {
            return RelayAction::Closed;
        }
        match event {
            RelayEvent::Received(data) => {
                if data.len() == 0 {
                    self.open = false;
                    return RelayAction::Shutdown;
                }
                match transform_batch(self.direction, data.as_slice()) {
                    Ok(out) => RelayAction::Write(out),
                    Err(_) => {
                        self.open = false;
                        RelayAction::Shutdown
                    },
                }
            },
            _ => {
                self.open = false;
                RelayAction::Shutdown
            },
        }
    }
}

/// Without a transform a relay is byte-exact: over any run of reads, what it writes
/// is what it read.
pub proof fn lemma_passthrough_is_exact(reads: Seq<Seq<u8>>, writes: Seq<Seq<u8>>)
    requires
        writes.len() == reads.len(),
        forall|i: int| 0 <= i < reads.len() ==> is_transform_of(None, reads[i], #[trigger] writes[i]),
    ensures
        writes.flatten() == reads.flatten(),
{
    assert(writes =~= reads);
}

/// Concatenating two runs of batches concatenates their contents.
proof fn lemma_flatten_add(a: Seq<Seq<u8>>, b: Seq<Seq<u8>>)
    ensures
        (a + b).flatten() == a.flatten() + b.flatten(),
    decreases a.len(),
{
    if a.len() == 0 {
        assert(a + b =~= b);
    } else {
        assert((a + b).drop_first() =~= a.drop_first() + b);
        lemma_flatten_add(a.drop_first(), b);
    }
}

/// Flattening groups one level at a time or all at once gives the same bytes.
proof fn lemma_flatten_groups(hs: Seq<Seq<Seq<u8>>>)
    ensures
        hs.map_values(|h: Seq<Seq<u8>>| h.flatten()).flatten() == hs.flatten().flatten(),
    decreases hs.len(),
{
    if hs.len() > 0 {
        let t = hs.drop_first();
        lemma_flatten_groups(t);
        assert(hs.map_values(|h: Seq<Seq<u8>>| h.flatten()).drop_first() =~= t.map_values(
            |h: Seq<Seq<u8>>| h.flatten(),
        ));
        lemma_flatten_add(hs[0], t.flatten());
    }
}

/// A compressing relay and a decompressing relay back to back are byte-exact. The
/// first reads the batches of `hs`, grouped by the read of the second relay that takes
/// their frames, and writes the frames `gs`. Where no payload holds the magic, each
/// read of the second relay decodes to the batches whose frames it took, and so all
/// that the second relay writes is all that the first one read.
pub proof fn lemma_compressing_relays_compose(hs: Seq<Seq<Seq<u8>>>, gs: Seq<Seq<Seq<u8>>>)
    requires
        gs.len() == hs.len(),
        forall|j: int| 0 <= j < hs.len() ==> (#[trigger] gs[j]).len() == hs[j].len(),
        forall|j: int, k: int|
            0 <= j < hs.len() && 0 <= k < hs[j].len() ==> is_transform_of(
                Some(Direction::Compress),
                hs[j][k],
                #[trigger] gs[j][k],
            ),
        forall|j: int, k: int|
            0 <= j < hs.len() && 0 <= k < hs[j].len() ==> magic_free(
                deflate_of(#[trigger] hs[j][k]),
            ),
    ensures
        forall|j: int|
            0 <= j < hs.len() ==> decode_frames_spec((#[trigger] gs[j]).flatten()) == Ok::<
                Seq<u8>,
                CompressionError,
            >(hs[j].flatten()),
        hs.map_values(|h: Seq<Seq<u8>>| h.flatten()).flatten() == hs.flatten().flatten(),
{
    assert forall|j: int| 0 <= j < hs.len() implies decode_frames_spec(
        (#[trigger] gs[j]).flatten(),
    ) == Ok::<Seq<u8>, CompressionError>(hs[j].flatten()) by {
        assert forall|k: int| 0 <= k < hs[j].len() implies is_compressed_frame_of(
            #[trigger] gs[j][k],
            hs[j][k],
        ) by {
            assert(is_transform_of(Some(Direction::Compress), hs[j][k], gs[j][k]));
        }
        assert forall|k: int| 0 <= k < hs[j].len() implies magic_free(
            deflate_of(#[trigger] hs[j][k]),
        ) by {}
        lemma_chunked_round_trip(hs[j], gs[j]);
    }
    lemma_flatten_groups(hs);
}

} // verus!
