//! The DEFLATE codec of the flate2 crate: its streaming encoder and decoder, each
//! writing into a `Vec`, held behind wrappers whose contracts speak of named state.
use vstd::prelude::*;

use flate2::write::{DeflateDecoder, DeflateEncoder};
use flate2::Compression;
use std::io::Write;

verus! {

/// std's I/O error, which flate2's calls return: carried, never looked into.
#[verifier::external_type_specification]
#[verifier::external_body]
pub struct ExIoError(std::io::Error);

/// The raw DEFLATE stream that flate2's encoder, at its default level, makes of the
/// input `m` when it is finished without a flush in between, however `m` was split
/// across writes.
pub uninterp spec fn deflate_of(m: Seq<u8>) -> Seq<u8>;

/// What flate2's decoder makes of the stream `d`: the bytes it decodes to, or `None`
/// where it refuses the stream. Decoding is streaming: the outcome depends on the
/// bytes of `d` alone, not on how they were split across writes.
pub uninterp spec fn inflate_of(d: Seq<u8>) -> Option<Seq<u8>>;

/// flate2's `DeflateEncoder` at the default level, writing into a `Vec`.
#[verifier::external_body]
pub struct DeflateWriter {
    inner: DeflateEncoder<Vec<u8>>,
}

/// What the encoder's `Vec` holds now.
pub uninterp spec fn encoder_sink(e: DeflateWriter) -> Seq<u8>;

/// All input the encoder has taken.
pub uninterp spec fn encoder_input(e: DeflateWriter) -> Seq<u8>;

/// What the `Vec` holds in front of the compressed stream.
pub uninterp spec fn encoder_base(e: DeflateWriter) -> Seq<u8>;

/// The encoder has had writes only: no flush, and no access to its `Vec` but appends
/// made before any input.
pub uninterp spec fn encoder_plain(e: DeflateWriter) -> bool;

impl DeflateWriter {
    /// Relies on `DeflateEncoder::new`: nothing is written to `w` before input comes.
    #[verifier::external_body]
    pub(crate) fn new(w: Vec<u8>) -> (r: DeflateWriter)
        ensures
            encoder_sink(r) == w@,
            encoder_base(r) == w@,
            encoder_input(r) == Seq::<u8>::empty(),
            encoder_plain(r),
    {
        DeflateWriter { inner: DeflateEncoder::new(w, Compression::default()) }
    }

    /// Relies on `Write::write_all` of `DeflateEncoder`: into a `Vec` it takes all of
    /// `buf` and does not fail, and the `Vec` only grows, along a prefix of the stream.
    #[verifier::external_body]
    pub(crate) fn write_all(&mut self, buf: &[u8]) -> (r: Result<(), std::io::Error>)
        ensures
            r is Ok,
            encoder_input(*final(self)) == encoder_input(*old(self)) + buf@,
            encoder_base(*final(self)) == encoder_base(*old(self)),
            encoder_plain(*final(self)) == encoder_plain(*old(self)),
            encoder_sink(*old(self)).is_prefix_of(encoder_sink(*final(self))),
            encoder_plain(*final(self)) ==> encoder_sink(*final(self)).is_prefix_of(
                encoder_base(*final(self)) + deflate_of(encoder_input(*final(self))),
            ),
    {
        self.inner.write_all(buf)
    }

    /// Relies on `DeflateEncoder::get_mut`, which lets bytes be appended to the `Vec`:
    /// before any input, the encoder has written nothing there.
    #[verifier::external_body]
    pub(crate) fn append_to_sink(&mut self, bytes: &[u8])
        ensures
            encoder_sink(*final(self)) == encoder_sink(*old(self)) + bytes@,
            encoder_input(*final(self)) == encoder_input(*old(self)),
            encoder_plain(*old(self)) && encoder_input(*old(self)).len() == 0 ==> encoder_plain(
                *final(self),
            ) && encoder_sink(*old(self)) == encoder_base(*old(self)) && encoder_base(
                *final(self),
            ) == encoder_sink(*final(self)),
            !(encoder_plain(*old(self)) && encoder_input(*old(self)).len() == 0) ==> !encoder_plain(
                *final(self),
            ),
    {
        self.inner.get_mut().extend_from_slice(bytes)
    }

    /// Relies on `Write::flush` of `DeflateEncoder`: a sync flush, which into a `Vec`
    /// does not fail, only appends, and changes the stream from then on.
    #[verifier::external_body]
    pub(crate) fn flush(&mut self) -> (r: Result<(), std::io::Error>)
        ensures
            r is Ok,
            encoder_input(*final(self)) == encoder_input(*old(self)),
            encoder_base(*final(self)) == encoder_base(*old(self)),
            !encoder_plain(*final(self)),
            encoder_sink(*old(self)).is_prefix_of(encoder_sink(*final(self))),
    {
        self.inner.flush()
    }

    /// Relies on `DeflateEncoder::finish`: into a `Vec` it does not fail, it appends the
    /// rest of the stream, and flate2's decoder, DEFLATE being lossless, restores the
    /// input from the stream.
    #[verifier::external_body]
    pub(crate) fn finish(self) -> (r: Result<Vec<u8>, std::io::Error>)
        ensures
            r is Ok,
            encoder_sink(self).is_prefix_of(r->Ok_0@),
            encoder_plain(self) ==> r->Ok_0@ == encoder_base(self) + deflate_of(
                encoder_input(self),
            ) && inflate_of(r->Ok_0@.skip(encoder_base(self).len() as int)) == Some(
                encoder_input(self),
            ),
    {
        self.inner.finish()
    }

    /// Relies on `DeflateEncoder::get_ref`: the `Vec` as it stands.
    #[verifier::external_body]
    pub(crate) fn get_ref(&self) -> (r: &Vec<u8>)
        ensures
            r@ == encoder_sink(*self),
    {
        self.inner.get_ref()
    }

    /// Relies on `DeflateEncoder::get_mut`: the `Vec`, to change at will.
    #[verifier::external_body]
    pub(crate) fn get_mut(&mut self) -> (r: &mut Vec<u8>)
        ensures
            r@ == encoder_sink(*old(self)),
            encoder_sink(*final(self)) == final(r)@,
            encoder_input(*final(self)) == encoder_input(*old(self)),
            !encoder_plain(*final(self)),
    {
        self.inner.get_mut()
    }
}

/// flate2's `DeflateDecoder`, writing into a `Vec`.
#[verifier::external_body]
pub struct InflateWriter {
    inner: DeflateDecoder<Vec<u8>>,
}

/// What the decoder's `Vec` holds now.
pub uninterp spec fn decoder_sink(d: InflateWriter) -> Seq<u8>;

/// All input the decoder has taken.
pub uninterp spec fn decoder_input(d: InflateWriter) -> Seq<u8>;

/// What the `Vec` holds in front of the decoded bytes.
pub uninterp spec fn decoder_base(d: InflateWriter) -> Seq<u8>;

/// Every write to the decoder succeeded, and its `Vec` was not touched from outside.
pub uninterp spec fn decoder_plain(d: InflateWriter) -> bool;

impl InflateWriter {
    /// Relies on `DeflateDecoder::new`: nothing is written to `w` before input comes.
    #[verifier::external_body]
    pub(crate) fn new(w: Vec<u8>) -> (r: InflateWriter)
        ensures
            decoder_sink(r) == w@,
            decoder_base(r) == w@,
            decoder_input(r) == Seq::<u8>::empty(),
            decoder_plain(r),
    {
        InflateWriter { inner: DeflateDecoder::new(w) }
    }

    /// Relies on `Write::write_all` of `DeflateDecoder`: it fails where the stream so
    /// far is corrupt or goes on past its end, and then the whole stream is refused;
    /// decoded bytes are appended to the `Vec`.
    #[verifier::external_body]
    pub(crate) fn write_all(&mut self, buf: &[u8]) -> (r: Result<(), std::io::Error>)
        ensures
            r is Ok ==> decoder_input(*final(self)) == decoder_input(*old(self)) + buf@
                && decoder_base(*final(self)) == decoder_base(*old(self)) && decoder_plain(
                *final(self),
            ) == decoder_plain(*old(self)) && decoder_sink(*old(self)).is_prefix_of(
                decoder_sink(*final(self)),
            ),
            r is Err ==> !decoder_plain(*final(self)) && (decoder_plain(*old(self)) ==> inflate_of(
                decoder_input(*old(self)) + buf@,
            ) is None),
    {
        self.inner.write_all(buf)
    }

    /// Relies on `Write::flush` of `DeflateDecoder`: it writes out what can be decoded
    /// so far, and leaves the stream as it is.
    #[verifier::external_body]
    pub(crate) fn flush(&mut self) -> (r: Result<(), std::io::Error>)
        ensures
            r is Ok ==> decoder_input(*final(self)) == decoder_input(*old(self)) && decoder_base(
                *final(self),
            ) == decoder_base(*old(self)) && decoder_plain(*final(self)) == decoder_plain(
                *old(self),
            ) && decoder_sink(*old(self)).is_prefix_of(decoder_sink(*final(self))),
            r is Err ==> !decoder_plain(*final(self)),
    {
        self.inner.flush()
    }

    /// Relies on `DeflateDecoder::finish`: it completes the stream, or fails where the
    /// stream is refused.
    #[verifier::external_body]
    pub(crate) fn finish(self) -> (r: Result<Vec<u8>, std::io::Error>)
        ensures
            r is Ok ==> decoder_sink(self).is_prefix_of(r->Ok_0@),
            decoder_plain(self) ==> match inflate_of(decoder_input(self)) {
                Some(plain) => r is Ok && r->Ok_0@ == decoder_base(self) + plain,
                None => r is Err,
            },
    {
        self.inner.finish()
    }

    /// Relies on `DeflateDecoder::get_ref`: the `Vec` as it stands.
    #[verifier::external_body]
    pub(crate) fn get_ref(&self) -> (r: &Vec<u8>)
        ensures
            r@ == decoder_sink(*self),
    {
        self.inner.get_ref()
    }

    /// Relies on `DeflateDecoder::get_mut`: the `Vec`, to change at will.
    #[verifier::external_body]
    pub(crate) fn get_mut(&mut self) -> (r: &mut Vec<u8>)
        ensures
            r@ == decoder_sink(*old(self)),
            decoder_sink(*final(self)) == final(r)@,
            decoder_input(*final(self)) == decoder_input(*old(self)),
            !decoder_plain(*final(self)),
    {
        self.inner.get_mut()
    }
}

} // verus!
