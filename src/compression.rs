//! Compression framing: a three-byte header in front of each DEFLATE stream, the
//! codecs that add and strip it, and the splitter that cuts a buffer into frames.
pub mod clients;
pub mod deflate;
pub mod error;
pub mod frames;
pub mod header;
pub mod scheme;

use vstd::prelude::*;

pub use crate::compression::clients::{Compressor, Decompressor};
pub use crate::compression::frames::split_frames;

use crate::compression::clients::{base_with_header, extend_bytes};
use crate::compression::deflate::{deflate_of, inflate_of};
use crate::compression::error::CompressionError;
use crate::compression::frames::{
    frames_of, is_delimited_frame, lemma_split_concatenated_frames, slices_view,
};
use crate::compression::header::{header_bytes, header_len, magic_at, parse_header};
use crate::compression::scheme::Scheme;

verus! {

/// Which way a relay transforms the bytes that pass through it.
#[derive(Debug, Clone, Copy, PartialEq, Eq, Structural)]
pub enum Direction {
    Compress,
    Decompress,
}

/// The frame that compressing `m` makes: the header, then the DEFLATE stream of `m`.
pub open spec fn frame_of(m: Seq<u8>) -> Seq<u8> {
    header_bytes(Scheme::Deflate) + deflate_of(m)
}

/// `f` is the frame that compressing `m` makes, and the codec restores `m` from its
/// payload. Every frame that `compress` returns is one.
pub open spec fn is_compressed_frame_of(f: Seq<u8>, m: Seq<u8>) -> bool {
    f == frame_of(m) && inflate_of(deflate_of(m)) == Some(m)
}

/// No two bytes of `p` form the magic.
pub open spec fn magic_free(p: Seq<u8>) -> bool {
    forall|j: int| !magic_at(p, j)
}

/// Decoding a DEFLATE payload, with a refusal turned into an error.
pub open spec fn inflate_result(p: Seq<u8>) -> Result<Seq<u8>, CompressionError> {
    match inflate_of(p) {
        Some(plain) => Ok(plain),
        None => Err(CompressionError::Codec),
    }
}

/// What decompressing the frame `d` gives. A non-empty input must start with a valid
/// header, and the rest is the DEFLATE payload; an empty one is an empty payload.
pub open spec fn decompress_spec(d: Seq<u8>) -> Result<Seq<u8>, CompressionError> {
    if d.len() == 0 {
        inflate_result(d)
    } else {
        match parse_header(d) {
            Ok(_) => inflate_result(d.skip(header_len() as int)),
            Err(e) => Err(e),
        }
    }
}

/// Decompressing each of `fs` in order and concatenating the results; the first
/// failure is the result where one fails.
pub open spec fn decompress_all(fs: Seq<Seq<u8>>) -> Result<Seq<u8>, CompressionError>
    decreases fs.len(),
{
    if fs.len() == 0 {
        Ok(Seq::empty())
    } else {
        match decompress_all(fs.drop_last()) {
            Ok(prefix) => match decompress_spec(fs.last()) {
                Ok(plain) => Ok(prefix + plain),
                Err(e) => Err(e),
            },
            Err(e) => Err(e),
        }
    }
}

/// What decoding a buffer of concatenated frames gives: each frame that the splitter
/// finds, decompressed, in order.
pub open spec fn decode_frames_spec(b: Seq<u8>) -> Result<Seq<u8>, CompressionError> {
    decompress_all(frames_of(b))
}

/// Compresses a byte buffer into one frame.
pub fn compress(data: &[u8]) -> (r: Result<Vec<u8>, CompressionError>)
    ensures
        r is Ok,
        is_compressed_frame_of(r->Ok_0@, data@),
        decompress_spec(r->Ok_0@) == Ok::<Seq<u8>, CompressionError>(data@),
{
    let mut comp = Compressor::new(Vec::new());
    comp.write_all(data)?;
    proof {
        assert(comp@.input =~= data@);
        assert(base_with_header(comp@) =~= header_bytes(Scheme::Deflate));
    }
    let r = comp.finish();
    proof {
        lemma_decompress_inverts_compress(data@, r->Ok_0@);
    }
    r
}

/// Decompresses one frame and returns the plaintext.
pub fn decompress(data: &[u8]) -> (r: Result<Vec<u8>, CompressionError>)
    ensures
        match r {
            Ok(plain) => decompress_spec(data@) == Ok::<Seq<u8>, CompressionError>(plain@),
            Err(e) => decompress_spec(data@) == Err::<Seq<u8>, CompressionError>(e),
        },
{
    let mut decomp = Decompressor::new(Vec::new());
    decomp.write_all(data)?;
    proof {
        if data@.len() == 0 {
            assert(decomp@.input =~= data@);
        } else {
            assert(decomp@.input =~= data@.skip(header_len() as int));
        }
    }
    decomp.finish()
}

/// Decodes a buffer of concatenated frames: splits it, decompresses each frame and
/// concatenates the plaintexts.
pub fn decode_frames(data: &[u8]) -> (r: Result<Vec<u8>, CompressionError>)
    ensures
        match r {
            Ok(plain) => decode_frames_spec(data@) == Ok::<Seq<u8>, CompressionError>(plain@),
            Err(e) => decode_frames_spec(data@) == Err::<Seq<u8>, CompressionError>(e),
        },
{
    let frames = split_frames(data);
    let ghost fs = slices_view(frames@);
    let mut out: Vec<u8> = Vec::new();
    let mut k: usize = 0;
    assert(fs.take(0) =~= Seq::<Seq<u8>>::empty());
    while k < frames.len()
        invariant
            fs == slices_view(frames@),
            fs == frames_of(data@),
            k <= frames@.len(),
            decompress_all(fs.take(k as int)) == Ok::<Seq<u8>, CompressionError>(out@),
        decreases frames@.len() - k,
    {
        let plain = decompress(frames[k]);
        proof {
            assert(fs.take(k + 1).drop_last() =~= fs.take(k as int));
            assert(fs.take(k + 1).last() == frames@[k as int]@);
        }
        match plain {
            Ok(p) => {
                extend_bytes(&mut out, p.as_slice());
            },
            Err(e) => {
                proof {
                    lemma_decompress_all_err_extends(fs, k as int + 1);
                }
                return Err(e);
            },
        }
        k += 1;
    }
    assert(fs.take(k as int) =~= fs);
    Ok(out)
}

/// Where decompressing a prefix of `fs` fails, decompressing all of `fs` fails the same way.
proof fn lemma_decompress_all_err_extends(fs: Seq<Seq<u8>>, k: int)
    requires
        0 <= k <= fs.len(),
        decompress_all(fs.take(k)) is Err,
    ensures
        decompress_all(fs) == decompress_all(fs.take(k)),
    decreases fs.len() - k,
{
    if k < fs.len() {
        assert(fs.take(k + 1).drop_last() =~= fs.take(k));
        lemma_decompress_all_err_extends(fs, k + 1);
    } else {
        assert(fs.take(k) =~= fs);
    }
}

/// Decompressing what `compress` made of `m` gives back `m`.
pub proof fn lemma_decompress_inverts_compress(m: Seq<u8>, f: Seq<u8>)
    requires
        is_compressed_frame_of(f, m),
    ensures
        decompress_spec(f) == Ok::<Seq<u8>, CompressionError>(m),
{
    assert(f.skip(header_len() as int) =~= deflate_of(m));
    assert(f.subrange(0, 3) =~= header_bytes(Scheme::Deflate));
}

/// A frame whose payload holds no magic is one that the splitter cuts out whole.
pub proof fn lemma_frame_is_delimited(m: Seq<u8>)
    requires
        magic_free(deflate_of(m)),
    ensures
        is_delimited_frame(frame_of(m)),
{
    let f = frame_of(m);
    let p = deflate_of(m);
    assert forall|j: int| 1 <= j < f.len() implies !magic_at(f, j) by {
        if j >= 3 {
            assert(!magic_at(p, j - 3));
            assert(f[j] == p[j - 3]);
            if j + 1 < f.len() {
                assert(f[j + 1] == p[j - 2]);
            }
        }
    }
}

/// Decompressing the frames that `compress` made of `ms`, in order, gives the
/// concatenation of `ms`.
pub proof fn lemma_decompress_all_frames(ms: Seq<Seq<u8>>, fs: Seq<Seq<u8>>)
    requires
        fs.len() == ms.len(),
        forall|i: int| 0 <= i < ms.len() ==> is_compressed_frame_of(#[trigger] fs[i], ms[i]),
    ensures
        decompress_all(fs) == Ok::<Seq<u8>, CompressionError>(ms.flatten()),
    decreases ms.len(),
{
    ms.lemma_flatten_and_flatten_alt_are_equivalent();
    if ms.len() == 0 {
    } else {
        let n = ms.len() - 1;
        assert forall|i: int| 0 <= i < n implies is_compressed_frame_of(
            #[trigger] fs.drop_last()[i],
            ms.drop_last()[i],
        ) by {
            assert(fs.drop_last()[i] == fs[i]);
            assert(is_compressed_frame_of(fs[i], ms[i]));
        }
        lemma_decompress_all_frames(ms.drop_last(), fs.drop_last());
        ms.drop_last().lemma_flatten_and_flatten_alt_are_equivalent();
        assert(is_compressed_frame_of(fs[n], ms[n]));
        lemma_decompress_inverts_compress(ms[n], fs[n]);
    }
}

/// Chunk a message into pieces, compress each into a frame and concatenate the
/// frames: splitting the result and decompressing each frame gives the message back,
/// as long as no payload holds the magic.
pub proof fn lemma_chunked_round_trip(ms: Seq<Seq<u8>>, fs: Seq<Seq<u8>>)
    requires
        fs.len() == ms.len(),
        forall|i: int| 0 <= i < ms.len() ==> is_compressed_frame_of(#[trigger] fs[i], ms[i]),
        forall|i: int| 0 <= i < ms.len() ==> magic_free(deflate_of(#[trigger] ms[i])),
    ensures
        decode_frames_spec(fs.flatten()) == Ok::<Seq<u8>, CompressionError>(ms.flatten()),
{
    assert forall|k: int| 0 <= k < fs.len() implies is_delimited_frame(#[trigger] fs[k]) by {
        assert(is_compressed_frame_of(fs[k], ms[k]));
        assert(magic_free(deflate_of(ms[k])));
        lemma_frame_is_delimited(ms[k]);
    }
    lemma_split_concatenated_frames(fs);
    lemma_decompress_all_frames(ms, fs);
}

} // verus!
