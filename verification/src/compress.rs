//! The generic compression backend: payloads are zstd frames, made and read
//! by contexts that are kept for the whole session.

use crate::config::COMPRESS_LEVEL;
use vstd::prelude::*;

verus! {

/// `zstd::bulk::Compressor`: a compression context that is used for one
/// frame after another. Nothing is known of what is inside.
#[verifier::external_type_specification]
#[verifier::external_body]
pub struct ExCompressor<'a>(zstd::bulk::Compressor<'a>);

/// `zstd::bulk::Decompressor`: a decompression context that is used for
/// one frame after another. Nothing is known of what is inside.
#[verifier::external_type_specification]
#[verifier::external_body]
pub struct ExDecompressor<'a>(zstd::bulk::Decompressor<'a>);

/// `std::io::Error`: the error that the zstd contexts fail with. Nothing is
/// known of what is inside.
#[verifier::external_type_specification]
#[verifier::external_body]
pub struct ExIoError(std::io::Error);

/// The content of a zstd frame: the bytes that
/// `zstd::bulk::Decompressor::decompress_to_buffer` gives for it, without a
/// dictionary and with room enough for them. Nothing else is known of it
/// but that a frame made from a source by
/// `zstd::bulk::Compressor::compress_to_buffer` has that source as its
/// content.
pub uninterp spec fn zstd_content(frame: Seq<u8>) -> Seq<u8>;

/// Why a payload could not be made or read. Each of these ends the session:
/// what follows in the stream depends on what was lost.
#[derive(Clone, Copy, Debug, PartialEq, Eq, Structural)]
pub enum CodecError {
    /// A compression or decompression context could not be set up.
    Setup,
    /// The compressor failed, or its output did not fit the buffer.
    Compress,
    /// The payload is no zstd frame, or its content did not fit the buffer.
    Decompress,
    /// The payload's content has not the length of a frame.
    WrongLength,
}

/// `zstd::bulk::Compressor::new`: a compression context for the given level
/// and without a dictionary. Nothing is claimed of the outcome. Creating the
/// context allocates, and ends the process if there is no memory for it.
#[verifier::external_body]
fn new_compressor(level: i32) -> (made: Result<zstd::bulk::Compressor<'static>, std::io::Error>) {
    zstd::bulk::Compressor::new(level)
}

/// `zstd::bulk::Decompressor::new`: a decompression context without a
/// dictionary. Nothing is claimed of the outcome. Creating the context
/// allocates, and ends the process if there is no memory for it.
#[verifier::external_body]
fn new_decompressor() -> (made: Result<zstd::bulk::Decompressor<'static>, std::io::Error>) {
    zstd::bulk::Decompressor::new()
}

/// `zstd::compress_bound`: the room that zstd asks for to compress a source
/// of the given length in one pass. Nothing is claimed of the number.
#[verifier::external_body]
fn compress_bound(source_len: usize) -> (bound: usize) {
    zstd::compress_bound(source_len)
}

/// `zstd::bulk::Compressor::compress_to_buffer` with a `Vec` as the
/// destination: compresses the source into one frame, written from the
/// start of the vector into its capacity, and returns the frame's length.
///
/// Claimed of a successful call: the vector then holds the frame and nothing
/// else, and, zstd being lossless, the frame's content is the source.
/// Nothing is claimed of a failed call, nor of when a call fails.
#[verifier::external_body]
fn compress_to_buffer(
    compressor: &mut zstd::bulk::Compressor<'static>,
    source: &[u8],
    destination: &mut Vec<u8>,
) -> (written: Result<usize, std::io::Error>)
    ensures
        written matches Ok(n) ==> n == final(destination)@.len() && zstd_content(
            final(destination)@,
        ) == source@,
{
    compressor.compress_to_buffer(source, destination)
}

/// `zstd::bulk::Decompressor::decompress_to_buffer` with a `Vec` as the
/// destination: decompresses the frames of the source, written from the
/// start of the vector into its capacity, and returns the length of what was
/// written.
///
/// Claimed of a successful call: the vector then holds the content of the
/// source and nothing else. Nothing is claimed of a failed call, nor of when
/// a call fails.
#[verifier::external_body]
fn decompress_to_buffer(
    decompressor: &mut zstd::bulk::Decompressor<'static>,
    source: &[u8],
    destination: &mut Vec<u8>,
) -> (written: Result<usize, std::io::Error>)
    ensures
        written matches Ok(n) ==> n == final(destination)@.len() && final(destination)@
            == zstd_content(source@),
{
    decompressor.decompress_to_buffer(source, destination)
}

/// What `compress` hands back for each outcome of the compressor: the
/// frame's length, or an error with the buffer emptied.
fn compressed(written: Result<usize, std::io::Error>, dst: &mut Vec<u8>) -> (done: Result<
    usize,
    CodecError,
>)
    ensures
        written matches Ok(n) ==> done == Ok::<usize, CodecError>(n) && final(dst)@ == old(dst)@,
        written is Err ==> done == Err::<usize, CodecError>(CodecError::Compress),
        written is Err ==> final(dst)@.len() == 0,
{
    match written {
        Ok(n) => Ok(n),
        Err(_) => {
            dst.clear();
            Err(CodecError::Compress)
        },
    }
}

/// What `decompress` hands back for each outcome of the decompressor: the
/// content's length, or an error with the buffer emptied.
fn decompressed(written: Result<usize, std::io::Error>, dst: &mut Vec<u8>) -> (done: Result<
    usize,
    CodecError,
>)
    ensures
        written matches Ok(n) ==> done == Ok::<usize, CodecError>(n) && final(dst)@ == old(dst)@,
        written is Err ==> done == Err::<usize, CodecError>(CodecError::Decompress),
        written is Err ==> final(dst)@.len() == 0,
{
    match written {
        Ok(n) => Ok(n),
        Err(_) => {
            dst.clear();
            Err(CodecError::Decompress)
        },
    }
}

/// The compression and decompression contexts of one session.
pub struct CompressionBackend {
    compressor: zstd::bulk::Compressor<'static>,
    decompressor: zstd::bulk::Decompressor<'static>,
}

impl CompressionBackend {
    /// Sets up the contexts for a session that compresses at `level`.
    pub fn new(level: i32) -> (backend: Result<Self, CodecError>)
        ensures
            backend matches Err(e) ==> e == CodecError::Setup,
    {
        // whether the contexts can be set up is for zstd to say
        let compressor = new_compressor(level);
        let decompressor = new_decompressor();
        Self::assembled(compressor, decompressor)
    }

    /// The compression context.
    pub closed spec fn compressor(&self) -> zstd::bulk::Compressor<'static> {
        self.compressor
    }

    /// The decompression context.
    pub closed spec fn decompressor(&self) -> zstd::bulk::Decompressor<'static> {
        self.decompressor
    }

    /// What `new` hands back for each outcome of setting up the two
    /// contexts: a backend that holds them if both were set up, and an
    /// error if either was not.
    ///
    /// This is not public: the contexts of a backend are always such as
    /// `new` has set up, without a dictionary.
    fn assembled(
        compressor: Result<zstd::bulk::Compressor<'static>, std::io::Error>,
        decompressor: Result<zstd::bulk::Decompressor<'static>, std::io::Error>,
    ) -> (backend: Result<Self, CodecError>)
        ensures
            backend is Ok <==> compressor is Ok && decompressor is Ok,
            backend matches Ok(b) ==> compressor->Ok_0 == b.compressor(),
            backend matches Ok(b) ==> decompressor->Ok_0 == b.decompressor(),
            backend matches Err(e) ==> e == CodecError::Setup,
    {
        match compressor {
            Ok(compressor) => match decompressor {
                Ok(decompressor) => Ok(CompressionBackend { compressor, decompressor }),
                Err(_) => Err(CodecError::Setup),
            },
            Err(_) => Err(CodecError::Setup),
        }
    }

    /// Compresses `src` into one frame that replaces what `dst` held, and
    /// returns the frame's length. The frame has to fit the capacity that
    /// `dst` comes with.
    ///
    /// On failure `dst` is left empty.
    pub fn compress(&mut self, src: &[u8], dst: &mut Vec<u8>) -> (done: Result<usize, CodecError>)
        ensures
            done matches Ok(n) ==> n == final(dst)@.len() && zstd_content(final(dst)@) == src@,
            done matches Err(e) ==> e == CodecError::Compress && final(dst)@.len() == 0,
    {
        dst.clear();
        let written = compress_to_buffer(&mut self.compressor, src, dst);
        compressed(written, dst)
    }

    /// Compresses `src` as [`CompressionBackend::compress`] does, after
    /// making room in `dst` for the largest frame that `src` can give.
    pub fn compress_with_room(&mut self, src: &[u8], dst: &mut Vec<u8>) -> (done: Result<
        usize,
        CodecError,
    >)
        ensures
            done matches Ok(n) ==> n == final(dst)@.len() && zstd_content(final(dst)@) == src@,
            done matches Err(e) ==> e == CodecError::Compress && final(dst)@.len() == 0,
    {
        dst.clear();
        let room = compress_bound(src.len());
        if dst.try_reserve(room).is_err() {
            return Err(CodecError::Compress);
        }
        self.compress(src, dst)
    }

    /// Decompresses the frame `src` into `dst`, replacing what it held, and
    /// returns the content's length. The content has to fit the capacity
    /// that `dst` comes with.
    ///
    /// On failure `dst` is left empty.
    pub fn decompress(&mut self, src: &[u8], dst: &mut Vec<u8>) -> (done: Result<usize, CodecError>)
        ensures
            done matches Ok(n) ==> n == final(dst)@.len() && final(dst)@ == zstd_content(src@),
            done matches Err(e) ==> e == CodecError::Decompress && final(dst)@.len() == 0,
    {
        dst.clear();
        let written = decompress_to_buffer(&mut self.decompressor, src, dst);
        decompressed(written, dst)
    }

    /// Decompresses `src` as [`CompressionBackend::decompress`] does, after
    /// making room in `dst` for a content of up to `limit` bytes.
    pub fn decompress_with_room(&mut self, src: &[u8], dst: &mut Vec<u8>, limit: usize) -> (done:
        Result<usize, CodecError>)
        ensures
            done matches Ok(n) ==> n == final(dst)@.len() && final(dst)@ == zstd_content(src@),
            done matches Err(e) ==> e == CodecError::Decompress && final(dst)@.len() == 0,
    {
        dst.clear();
        if dst.try_reserve(limit).is_err() {
            return Err(CodecError::Decompress);
        }
        self.decompress(src, dst)
    }
}

/// Compresses `src` at [`COMPRESS_LEVEL`] into one frame that replaces what
/// `dst` held, and returns the frame's length. The frame has to fit the
/// capacity that `dst` comes with.
///
/// On failure `dst` is left empty.
pub fn compress(src: &[u8], dst: &mut Vec<u8>) -> (done: Result<usize, CodecError>)
    ensures
        done matches Ok(n) ==> n == final(dst)@.len() && zstd_content(final(dst)@) == src@,
        done matches Err(e) ==> e == CodecError::Setup || e == CodecError::Compress,
        done is Err ==> final(dst)@.len() == 0,
{
    dst.clear();
    match new_compressor(COMPRESS_LEVEL) {
        Ok(mut compressor) => {
            let written = compress_to_buffer(&mut compressor, src, dst);
            compressed(written, dst)
        },
        Err(_) => Err(CodecError::Setup),
    }
}

/// Decompresses the frame `src` into `dst`, replacing what it held, and
/// returns the content's length. The content has to fit the capacity that
/// `dst` comes with.
///
/// On failure `dst` is left empty.
pub fn decompress(src: &[u8], dst: &mut Vec<u8>) -> (done: Result<usize, CodecError>)
    ensures
        done matches Ok(n) ==> n == final(dst)@.len() && final(dst)@ == zstd_content(src@),
        done matches Err(e) ==> e == CodecError::Setup || e == CodecError::Decompress,
        done is Err ==> final(dst)@.len() == 0,
{
    dst.clear();
    match new_decompressor() {
        Ok(mut decompressor) => {
            let written = decompress_to_buffer(&mut decompressor, src, dst);
            decompressed(written, dst)
        },
        Err(_) => Err(CodecError::Setup),
    }
}

} // verus!
