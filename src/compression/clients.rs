//! Streaming codecs that add the header in front of a DEFLATE stream, or check and
//! strip it.
//!
//! Both hand their input to flate2's streaming codec as it comes, which writes its
//! output to the sink; the header goes to the sink directly, on the first write.
use vstd::prelude::*;
use vstd::slice::slice_subrange;

use crate::compression::deflate::{
    decoder_base, decoder_input, decoder_plain, decoder_sink, deflate_of, encoder_base,
    encoder_input, encoder_plain, encoder_sink, inflate_of, DeflateWriter, InflateWriter,
};
use crate::compression::error::CompressionError;
use crate::compression::header::{header_bytes, header_len, parse_header, Header};
use crate::compression::scheme::Scheme;

verus! {

/// Appends the bytes of `src` to `dst`.
pub(crate) fn extend_bytes(dst: &mut Vec<u8>, src: &[u8])
    ensures
        final(dst)@ == old(dst)@ + src@,
{
    let mut i: usize = 0;
    while i < src.len()
        invariant
            i <= src@.len(),
            dst@ == old(dst)@ + src@.subrange(0, i as int),
        decreases src@.len() - i,
    {
        dst.push(src[i]);
        i += 1;
        assert(dst@ =~= old(dst)@ + src@.subrange(0, i as int));
    }
    assert(src@.subrange(0, i as int) =~= src@);
}

/// The state of a `Compressor`.
pub struct CompressorView {
    /// What the sink holds in front of the compressed stream.
    pub base: Seq<u8>,
    /// What the sink holds now.
    pub sink: Seq<u8>,
    /// All input taken so far.
    pub input: Seq<u8>,
    /// Whether the header has gone to the sink.
    pub wrote_header: bool,
    /// Nothing but writes happened: no flush and no change of the sink from outside.
    /// Input comes after the header, so while it is intact and the header is not there,
    /// no input was taken.
    pub intact: bool,
}

/// Writes a header and then the DEFLATE stream of everything written to it.
pub struct Compressor {
    encoder: DeflateWriter,
    wrote_header: bool,
}

impl View for Compressor {
    type V = CompressorView;

    closed spec fn view(&self) -> CompressorView {
        CompressorView {
            base: encoder_base(self.encoder),
            sink: encoder_sink(self.encoder),
            input: encoder_input(self.encoder),
            wrote_header: self.wrote_header,
            intact: encoder_plain(self.encoder) && (self.wrote_header || encoder_input(
                self.encoder,
            ).len() == 0),
        }
    }
}

/// What stands in the sink in front of the compressed stream once the header is surely
/// there: it goes in at the first write, or at `finish` where nothing was written.
pub open spec fn base_with_header(c: CompressorView) -> Seq<u8> {
    if c.wrote_header {
        c.base
    } else {
        c.base + header_bytes(Scheme::Deflate)
    }
}

/// The state after `buf` is taken as input by a compressor in state `c`: the header in
/// front if it was not there yet, then the input.
pub open spec fn compressor_after_write(c: CompressorView, d: CompressorView, buf: Seq<u8>) -> bool {
    &&& d.input == c.input + buf
    &&& d.wrote_header
    &&& d.intact == c.intact
    &&& c.intact ==> d.base == base_with_header(c)
    &&& (if c.wrote_header {
        c.sink
    } else {
        c.sink + header_bytes(Scheme::Deflate)
    }).is_prefix_of(d.sink)
    &&& d.intact ==> d.sink.is_prefix_of(d.base + deflate_of(d.input))
}

impl Compressor {
    pub fn new(writer: Vec<u8>) -> (r: Compressor)
        ensures
            r@ == (CompressorView {
                base: writer@,
                sink: writer@,
                input: Seq::empty(),
                wrote_header: false,
                intact: true,
            }),
    {
        Compressor { encoder: DeflateWriter::new(writer), wrote_header: false }
    }

    /// Writes the header to the sink, once.
    fn write_header(&mut self) -> (r: Result<usize, CompressionError>)
        ensures
            old(self)@.wrote_header ==> r == Err::<usize, CompressionError>(
                CompressionError::IllegalState,
            ) && final(self)@ == old(self)@,
            !old(self)@.wrote_header ==> r == Ok::<usize, CompressionError>(header_len() as usize)
                && final(self)@.wrote_header && final(self)@.input == old(self)@.input
                && final(self)@.intact == old(self)@.intact && final(self)@.sink == old(self)@.sink
                + header_bytes(Scheme::Deflate) && (old(self)@.intact ==> final(self)@.base
                == old(self)@.base + header_bytes(Scheme::Deflate)),
    {
        if self.wrote_header {
            return Err(CompressionError::IllegalState);
        }
        let header_bytes = Header::new(Scheme::Deflate).to_bytes().unwrap();
        proof {
            crate::compression::header::lemma_header_bytes(Scheme::Deflate);
        }
        self.encoder.append_to_sink(header_bytes.as_slice());
        self.wrote_header = true;
        Ok(header_bytes.len())
    }

    /// Takes all of `buf` as input; the first call writes the header to the sink first.
    /// Returns the number of input bytes taken.
    pub fn write(&mut self, buf: &[u8]) -> (r: Result<usize, CompressionError>)
        ensures
            r == Ok::<usize, CompressionError>(buf@.len() as usize),
            compressor_after_write(old(self)@, final(self)@, buf@),
    {
        if !self.wrote_header {
            let _ = self.write_header();
        }
        let _ = self.encoder.write_all(buf);
        Ok(buf.len())
    }

    /// Takes all of `buf` as input, and writes the header to the sink first if it is
    /// not there yet, also where `buf` is empty.
    pub fn compress(&mut self, buf: &[u8]) -> (r: Result<(), CompressionError>)
        ensures
            r == Ok::<(), CompressionError>(()),
            compressor_after_write(old(self)@, final(self)@, buf@),
    {
        self.write(buf)?;
        Ok(())
    }

    /// Writes the whole of `buf`; an empty `buf` changes nothing.
    pub fn write_all(&mut self, buf: &[u8]) -> (r: Result<(), CompressionError>)
        ensures
            r == Ok::<(), CompressionError>(()),
            buf@.len() == 0 ==> final(self)@ == old(self)@,
            buf@.len() > 0 ==> compressor_after_write(old(self)@, final(self)@, buf@),
    {
        if buf.len() > 0 {
            self.write(buf)?;
        }
        Ok(())
    }

    /// Pushes the compressed output so far to the sink with a sync flush. That marks a
    /// point in the stream, which is then no longer the one-piece stream of the input.
    pub fn flush(&mut self) -> (r: Result<(), CompressionError>)
        ensures
            r == Ok::<(), CompressionError>(()),
            final(self)@.input == old(self)@.input,
            final(self)@.wrote_header == old(self)@.wrote_header,
            !final(self)@.intact,
            old(self)@.sink.is_prefix_of(final(self)@.sink),
    {
        let _ = self.encoder.flush();
        Ok(())
    }

    /// Completes the stream and returns the sink. Where only writes happened, it holds
    /// what it held at the start, the header, and the DEFLATE stream of all input, from
    /// which the codec restores the input.
    pub fn finish(self) -> (r: Result<Vec<u8>, CompressionError>)
        ensures
            r is Ok,
            self@.intact ==> r->Ok_0@ == base_with_header(self@) + deflate_of(self@.input)
                && inflate_of(deflate_of(self@.input)) == Some(self@.input),
    {
        let mut c = self;
        if !c.wrote_header {
            let _ = c.write_header();
        }
        let ghost before = c@;
        match c.encoder.finish() {
            Ok(out) => {
                proof {
                    if before.intact {
                        assert(out@.skip(before.base.len() as int) =~= deflate_of(before.input));
                    }
                }
                Ok(out)
            },
            Err(_) => Err(CompressionError::Codec),
        }
    }

    pub fn get_ref(&self) -> (r: &Vec<u8>)
        ensures
            r@ == self@.sink,
    {
        self.encoder.get_ref()
    }

    /// The sink, to change at will; the stream is then no longer known to be intact.
    pub fn get_mut(&mut self) -> (r: &mut Vec<u8>)
        ensures
            r@ == old(self)@.sink,
            final(self)@.sink == final(r)@,
            final(self)@.input == old(self)@.input,
            final(self)@.wrote_header == old(self)@.wrote_header,
            !final(self)@.intact,
    {
        self.encoder.get_mut()
    }
}

/// The state of a `Decompressor`.
pub struct DecompressorView {
    /// What the sink holds in front of the decoded bytes.
    pub base: Seq<u8>,
    /// What the sink holds now.
    pub sink: Seq<u8>,
    /// The DEFLATE payload taken so far: the input after the header.
    pub input: Seq<u8>,
    /// Whether the header has been read.
    pub parsed_header: bool,
    /// Every write succeeded and the sink was not changed from outside.
    pub intact: bool,
}

/// Checks the header at the start of its input and writes the decoded payload that
/// follows it to the sink. It holds one frame.
pub struct Decompressor {
    decoder: InflateWriter,
    parsed_header: bool,
}

impl View for Decompressor {
    type V = DecompressorView;

    closed spec fn view(&self) -> DecompressorView {
        DecompressorView {
            base: decoder_base(self.decoder),
            sink: decoder_sink(self.decoder),
            input: decoder_input(self.decoder),
            parsed_header: self.parsed_header,
            intact: decoder_plain(self.decoder),
        }
    }
}

/// The part of `buf` that is payload, for a decompressor in state `d`: all of it once
/// the header has been read, else what follows the header.
pub open spec fn payload_of_write(d: DecompressorView, buf: Seq<u8>) -> Seq<u8> {
    if d.parsed_header {
        buf
    } else {
        buf.skip(header_len() as int)
    }
}

impl Decompressor {
    pub fn new(writer: Vec<u8>) -> (r: Decompressor)
        ensures
            r@ == (DecompressorView {
                base: writer@,
                sink: writer@,
                input: Seq::empty(),
                parsed_header: false,
                intact: true,
            }),
    {
        Decompressor { decoder: InflateWriter::new(writer), parsed_header: false }
    }

    /// Checks the header at the start of `buf` and returns its length.
    fn parse_header(&mut self, buf: &[u8]) -> (r: Result<usize, CompressionError>)
        ensures
            match parse_header(buf@) {
                Ok(_) => r == Ok::<usize, CompressionError>(header_len() as usize)
                    && final(self)@ == (DecompressorView { parsed_header: true, ..old(self)@ }),
                Err(e) => r == Err::<usize, CompressionError>(e) && final(self)@ == old(self)@,
            },
    {
        match Header::from_bytes(buf) {
            Ok(header) => {
                match header.scheme {
                    Scheme::Deflate => {
                        self.parsed_header = true;
                        Ok(Header::serialized_size())
                    },
                }
            },
            Err(e) => Err(e),
        }
    }

    /// Takes all of `buf` as input and hands the payload to the decoder, which writes
    /// what it decodes to the sink. The first call reads the header from the start of
    /// `buf`, and fails if it is not a valid header; the count returned includes it.
    /// A payload that the decoder refuses fails with `Codec`.
    pub fn write(&mut self, buf: &[u8]) -> (r: Result<usize, CompressionError>)
        ensures
            !old(self)@.parsed_header && parse_header(buf@) is Err ==> r == Err::<
                usize,
                CompressionError,
            >(parse_header(buf@)->Err_0) && final(self)@ == old(self)@,
            old(self)@.parsed_header || parse_header(buf@) is Ok ==> match r {
                Ok(n) => n == buf@.len() && final(self)@.parsed_header && final(self)@.input
                    == old(self)@.input + payload_of_write(old(self)@, buf@) && final(self)@.base
                    == old(self)@.base && final(self)@.intact == old(self)@.intact && old(self)@.sink.is_prefix_of(final(self)@.sink),
                Err(e) => e == CompressionError::Codec && !final(self)@.intact && (old(self)@.intact ==> inflate_of(old(self)@.input + payload_of_write(old(self)@, buf@))
                    is None),
            },
    {
        let mut written: usize = 0;
        if !self.parsed_header {
            written = self.parse_header(buf)?;
        }
        let payload = slice_subrange(buf, written, buf.len());
        proof {
            assert(payload@ =~= buf@.skip(written as int));
            assert(buf@.skip(0) =~= buf@);
        }
        match self.decoder.write_all(payload) {
            Ok(()) => Ok(buf.len()),
            Err(_) => Err(CompressionError::Codec),
        }
    }

    /// Writes the whole of `buf`; an empty `buf` changes nothing.
    pub fn write_all(&mut self, buf: &[u8]) -> (r: Result<(), CompressionError>)
        ensures
            buf@.len() == 0 ==> r == Ok::<(), CompressionError>(()) && final(self)@ == old(self)@,
            buf@.len() > 0 && !old(self)@.parsed_header && parse_header(buf@) is Err ==> r == Err::<
                (),
                CompressionError,
            >(parse_header(buf@)->Err_0) && final(self)@ == old(self)@,
            buf@.len() > 0 && (old(self)@.parsed_header || parse_header(buf@) is Ok) ==> match r {
                Ok(_) => final(self)@.parsed_header && final(self)@.input == old(self)@.input
                    + payload_of_write(old(self)@, buf@) && final(self)@.base == old(self)@.base
                    && final(self)@.intact == old(self)@.intact && old(self)@.sink.is_prefix_of(
                    final(self)@.sink,
                ),
                Err(e) => e == CompressionError::Codec && !final(self)@.intact && (old(self)@.intact ==> inflate_of(old(self)@.input + payload_of_write(old(self)@, buf@))
                    is None),
            },
    {
        if buf.len() > 0 {
            self.write(buf)?;
        }
        Ok(())
    }

    /// Writes out to the sink what can be decoded so far.
    pub fn flush(&mut self) -> (r: Result<(), CompressionError>)
        ensures
            r is Ok ==> final(self)@ == (DecompressorView { sink: final(self)@.sink, ..old(self)@ })
                && old(self)@.sink.is_prefix_of(final(self)@.sink),
            r is Err ==> r == Err::<(), CompressionError>(CompressionError::Codec) && !final(self)@.intact,
    {
        match self.decoder.flush() {
            Ok(()) => Ok(()),
            Err(_) => Err(CompressionError::Codec),
        }
    }

    /// Completes the stream and returns the sink. Where every write succeeded, it holds
    /// what it held at the start followed by the decoded payload, or the payload is
    /// refused with `Codec`.
    pub fn finish(self) -> (r: Result<Vec<u8>, CompressionError>)
        ensures
            r is Err ==> r == Err::<Vec<u8>, CompressionError>(CompressionError::Codec),
            r is Ok ==> self@.sink.is_prefix_of(r->Ok_0@),
            self@.intact ==> match inflate_of(self@.input) {
                Some(plain) => r is Ok && r->Ok_0@ == self@.base + plain,
                None => r is Err,
            },
    {
        match self.decoder.finish() {
            Ok(out) => Ok(out),
            Err(_) => Err(CompressionError::Codec),
        }
    }

    pub fn get_ref(&self) -> (r: &Vec<u8>)
        ensures
            r@ == self@.sink,
    {
        self.decoder.get_ref()
    }

    /// The sink, to change at will; the decoded output is then no longer known.
    pub fn get_mut(&mut self) -> (r: &mut Vec<u8>)
        ensures
            r@ == old(self)@.sink,
            final(self)@.sink == final(r)@,
            final(self)@.input == old(self)@.input,
            final(self)@.parsed_header == old(self)@.parsed_header,
            !final(self)@.intact,
    {
        self.decoder.get_mut()
    }
}

impl std::io::Write for Compressor {
    fn write(&mut self, buf: &[u8]) -> std::io::Result<usize> {
        let _ = Compressor::write(self, buf);
        Ok(buf.len())
    }

    fn flush(&mut self) -> std::io::Result<()> {
        let _ = Compressor::flush(self);
        Ok(())
    }
}

/// Relies on `std::io::Error::new`: an I/O error of kind `Other` that carries `e`.
#[verifier::external_body]
fn to_io_error(e: CompressionError) -> std::io::Error {
    std::io::Error::new(std::io::ErrorKind::Other, format!("{:?}", e))
}

impl std::io::Write for Decompressor {
    fn write(&mut self, buf: &[u8]) -> std::io::Result<usize> {
        match Decompressor::write(self, buf) {
            Ok(n) => Ok(n),
            Err(e) => Err(to_io_error(e)),
        }
    }

    fn flush(&mut self) -> std::io::Result<()> {
        match Decompressor::flush(self) {
            Ok(()) => Ok(()),
            Err(e) => Err(to_io_error(e)),
        }
    }
}

} // verus!
