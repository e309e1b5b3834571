//! Asset compression pipeline using lz4_flex and zstd, with a content hash
//! (fxhash) to check what decompression gives back.

use vstd::prelude::*;
use vstd::slice::slice_to_vec;
use crate::engine_core::error::{EngineError, EngineResult};

verus! {

/// `lz4_flex::block::DecompressError`, the error of LZ4 block decompression.
#[verifier::external_type_specification]
#[verifier::external_body]
pub struct ExDecompressError(lz4_flex::block::DecompressError);

/// What `lz4_flex::decompress` returns for the given bytes and size bound
/// (`None` for an error).
pub uninterp spec fn lz4_decompressed(data: Seq<u8>, min_uncompressed_size: usize) -> Option<Seq<u8>>;

/// What `zstd::stream::decode_all` returns for the given bytes (`None` for an error).
pub uninterp spec fn zstd_decoded(data: Seq<u8>) -> Option<Seq<u8>>;

/// The longest LZ4 block that is decoded.  The decoder sums the 0xFF
/// length-extension bytes of a block in a `u32`; a block of at most this
/// many bytes cannot make that sum overflow (255 times this is `u32::MAX`).
pub const LZ4_MAX_INPUT: usize = 16_843_009;

/// The size bounds under which an LZ4 block of `block_len` bytes is decoded
/// with the output bound `n` without overflow: the block is at most
/// `LZ4_MAX_INPUT` long, the output buffer can be allocated, and the output
/// position plus a length read from the block (less than 255 per block byte)
/// fits in a `usize`.
pub open spec fn lz4_bounds_ok(block_len: int, n: int) -> bool {
    &&& block_len <= LZ4_MAX_INPUT
    &&& n <= isize::MAX
    &&& n + 255 * block_len <= usize::MAX
}

/// Calls `lz4_flex::compress`: LZ4 block compression of all bytes of `data`.
/// Which matches the compressor picks depends on the machine (word size and
/// byte order), so the compressed bytes are not stated.  What is stated
/// holds of every outcome, as the block format guarantees: when the block
/// is short enough that decoding cannot overflow its length counters,
/// decompressing it with a size bound of at least `data.len()` gives `data`
/// back.
#[verifier::external_body]
fn lz4_compress(data: &[u8]) -> (r: Vec<u8>)
    ensures
        forall|n: usize|
            data@.len() <= n && lz4_bounds_ok(r@.len() as int, n as int)
                ==> #[trigger] lz4_decompressed(r@, n) == Some(data@),
{
    lz4_flex::compress(data)
}

/// Calls `lz4_flex::decompress`.  Decoding follows the block format, so its
/// result is a function of its arguments.  With the crate's default
/// `safe-decode` and `checked-decode` features a too small bound or a
/// malformed block gives an error, not a panic.  Admitted are the sizes of
/// `lz4_bounds_ok`: a longer block can overflow the decoder's `u32` length
/// counter with a long run of 0xFF bytes, a larger output position plus
/// length can overflow a `usize` (both panic with overflow checks), and a
/// bound above `isize::MAX` cannot be allocated.
#[verifier::external_body]
fn lz4_decompress(data: &[u8], min_uncompressed_size: usize) -> (r: Result<
    Vec<u8>,
    lz4_flex::block::DecompressError,
>)
    requires
        lz4_bounds_ok(data@.len() as int, min_uncompressed_size as int),
    ensures
        r is Ok <==> lz4_decompressed(data@, min_uncompressed_size) is Some,
        r matches Ok(v) ==> v@ == lz4_decompressed(data@, min_uncompressed_size)->0,
{
    lz4_flex::decompress(data, min_uncompressed_size)
}

/// Calls `zstd::stream::encode_all` on the bytes of `data`.  The frame it
/// makes is not stated (nor when it fails); what holds of every successful
/// outcome is that the frame decodes to `data`.
#[verifier::external_body]
fn zstd_encode(data: &[u8], level: i32) -> (r: std::io::Result<Vec<u8>>)
    ensures
        r matches Ok(v) ==> zstd_decoded(v@) == Some(data@),
{
    zstd::stream::encode_all(data, level)
}

/// Calls `zstd::stream::decode_all` on the bytes of `data`.  Decoding
/// follows the frame format, so its result is a function of `data`.
#[verifier::external_body]
fn zstd_decode(data: &[u8]) -> (r: std::io::Result<Vec<u8>>)
    ensures
        r is Ok <==> zstd_decoded(data@) is Some,
        r matches Ok(v) ==> v@ == zstd_decoded(data@)->0,
{
    zstd::stream::decode_all(data)
}

/// Calls `fxhash::hash64` on a byte slice.  The hash reads machine words in
/// the machine's byte order, so nothing is stated of its value.
#[verifier::external_body]
fn fx_hash(data: &[u8]) -> u64 {
    fxhash::hash64(data)
}

/// Compression level used for zstd.
pub const ZSTD_LEVEL: i32 = 3;

/// Compression algorithm selection.
#[derive(Debug, Clone, Copy, PartialEq, Eq, Structural)]
pub enum CompressionAlgorithm {
    /// Stored as is.
    Uncompressed,
    LZ4,
    ZSTD,
}

impl Default for CompressionAlgorithm {
    fn default() -> (r: Self)
        ensures
            r == CompressionAlgorithm::Uncompressed,
    {
        Self::Uncompressed
    }
}


/// What decompressing `data` under `algorithm` gives (`None` for an error).
pub open spec fn spec_decompress(
    algorithm: CompressionAlgorithm,
    data: Seq<u8>,
    original_size: usize,
) -> Option<Seq<u8>> {
    match algorithm {
        CompressionAlgorithm::Uncompressed => Some(data),
        CompressionAlgorithm::LZ4 => if data.len() <= LZ4_MAX_INPUT {
            lz4_decompressed(data, original_size)
        } else {
            None
        },
        CompressionAlgorithm::ZSTD => zstd_decoded(data),
    }
}

/// `compressed` gives back `data` under `algorithm`, with any size bound of
/// at least `data.len()` under which it is decoded (`size_bound_ok`).
pub open spec fn decompresses_to(algorithm: CompressionAlgorithm, compressed: Seq<u8>, data: Seq<u8>) -> bool {
    forall|n: usize|
        data.len() <= n && size_bound_ok(algorithm, compressed, n)
            ==> #[trigger] spec_decompress(algorithm, compressed, n) == Some(data)
}

/// The size bound `n` is admitted for decoding `compressed` under
/// `algorithm`: only LZ4 decoding bounds it (`lz4_bounds_ok`).  A block
/// longer than `LZ4_MAX_INPUT` is refused before decoding, whatever the bound.
pub open spec fn size_bound_ok(algorithm: CompressionAlgorithm, compressed: Seq<u8>, n: usize) -> bool {
    algorithm == CompressionAlgorithm::LZ4 && compressed.len() <= LZ4_MAX_INPUT
        ==> lz4_bounds_ok(compressed.len() as int, n as int)
}

impl CompressionAlgorithm {
    /// Compresses data using the selected algorithm.
    pub fn compress(&self, data: &[u8]) -> (r: EngineResult<Vec<u8>>)
        ensures
            match r {
                Ok(v) => {
                    &&& (*self != CompressionAlgorithm::LZ4 || v@.len() <= LZ4_MAX_INPUT)
                        ==> decompresses_to(*self, v@, data@)
                    &&& *self == CompressionAlgorithm::Uncompressed ==> v@ == data@
                },
                Err(e) => *self == CompressionAlgorithm::ZSTD && e is IoError,
            },
            *self != CompressionAlgorithm::ZSTD ==> r is Ok,
    {
        match self {
            CompressionAlgorithm::Uncompressed => Ok(slice_to_vec(data)),
            CompressionAlgorithm::LZ4 => Ok(lz4_compress(data)),
            CompressionAlgorithm::ZSTD => match zstd_encode(data, ZSTD_LEVEL) {
                Ok(v) => Ok(v),
                Err(e) => Err(EngineError::IoError(e)),
            },
        }
    }

    /// Decompresses data using the selected algorithm.  An LZ4 block longer
    /// than `LZ4_MAX_INPUT` is refused as malformed.
    pub fn decompress(&self, data: &[u8], original_size: usize) -> (r: EngineResult<Vec<u8>>)
        requires
            size_bound_ok(*self, data@, original_size),
        ensures
            match r {
                Ok(v) => spec_decompress(*self, data@, original_size) == Some(v@),
                Err(e) => {
                    &&& spec_decompress(*self, data@, original_size) is None
                    &&& *self == CompressionAlgorithm::LZ4 ==> (e matches EngineError::AssetError(m)
                        && m@ == "LZ4 decompression failed"@)
                    &&& *self == CompressionAlgorithm::ZSTD ==> e is IoError
                },
            },
            forall|orig: Seq<u8>|
                decompresses_to(*self, data@, orig) && orig.len() <= original_size
                    ==> (r is Ok && r->Ok_0@ == orig),
    {
        match self {
            CompressionAlgorithm::Uncompressed => Ok(slice_to_vec(data)),
            CompressionAlgorithm::LZ4 => {
                if data.len() > LZ4_MAX_INPUT {
                    return Err(EngineError::AssetError("LZ4 decompression failed".to_owned()));
                }
                match lz4_decompress(data, original_size) {
                    Ok(v) => Ok(v),
                    Err(_) => Err(EngineError::AssetError("LZ4 decompression failed".to_owned())),
                }
            },
            CompressionAlgorithm::ZSTD => match zstd_decode(data) {
                Ok(v) => Ok(v),
                Err(e) => Err(EngineError::IoError(e)),
            },
        }
    }
}

/// Compressed asset structure with verification.
#[derive(Debug, Clone)]
pub struct CompressedAsset {
    pub algorithm: CompressionAlgorithm,
    pub compressed_data: Vec<u8>,
    pub original_size: usize,
    pub hash: u64,
}

impl CompressedAsset {
    /// Creates a new compressed asset.
    pub fn new(algorithm: CompressionAlgorithm, data: &[u8]) -> (r: EngineResult<Self>)
        ensures
            match r {
                Ok(a) => {
                    &&& a.algorithm == algorithm
                    &&& (algorithm != CompressionAlgorithm::LZ4 || a.compressed_data@.len() <= LZ4_MAX_INPUT)
                        ==> decompresses_to(algorithm, a.compressed_data@, data@)
                    &&& algorithm == CompressionAlgorithm::Uncompressed ==> a.compressed_data@ == data@
                    &&& a.original_size == data@.len()
                },
                Err(e) => algorithm == CompressionAlgorithm::ZSTD && e is IoError,
            },
            algorithm != CompressionAlgorithm::ZSTD ==> r is Ok,
    {
        let original_size = data.len();
        let hash = fx_hash(data);
        let compressed_data = match algorithm.compress(data) {
            Ok(v) => v,
            Err(e) => return Err(e),
        };
        Ok(Self { algorithm, compressed_data, original_size, hash })
    }

    /// Decompresses the asset and checks the hash of the result.
    pub fn decompress_and_verify(&self) -> (r: EngineResult<Vec<u8>>)
        requires
            size_bound_ok(self.algorithm, self.compressed_data@, self.original_size),
        ensures
            match r {
                Ok(v) => spec_decompress(self.algorithm, self.compressed_data@, self.original_size)
                    == Some(v@),
                Err(e) => match spec_decompress(
                    self.algorithm,
                    self.compressed_data@,
                    self.original_size,
                ) {
                    Some(d) => e matches EngineError::AssetError(m)
                        && m@ == "Hash mismatch after decompression"@,
                    None => {
                        &&& self.algorithm == CompressionAlgorithm::LZ4 ==> (e matches EngineError::AssetError(m)
                            && m@ == "LZ4 decompression failed"@)
                        &&& self.algorithm == CompressionAlgorithm::ZSTD ==> e is IoError
                    },
                },
            },
            forall|orig: Seq<u8>|
                decompresses_to(self.algorithm, self.compressed_data@, orig) && orig.len()
                    <= self.original_size ==> (r matches Ok(v) ==> v@ == orig),
    {
        let decompressed = match self.algorithm.decompress(&self.compressed_data, self.original_size) {
            Ok(v) => v,
            Err(e) => return Err(e),
        };
        let computed_hash = fx_hash(decompressed.as_slice());
        check_hash(decompressed, computed_hash, self.hash)
    }
}

/// The hash check of decompressed data: the data is accepted exactly when
/// the hash computed of it is the expected one.
pub fn check_hash(data: Vec<u8>, computed: u64, expected: u64) -> (r: EngineResult<Vec<u8>>)
    ensures
        r is Ok <==> computed == expected,
        r matches Ok(v) ==> v@ == data@,
        r matches Err(e) ==> (e matches EngineError::AssetError(m)
            && m@ == "Hash mismatch after decompression"@),
{
    if computed != expected {
        return Err(EngineError::AssetError("Hash mismatch after decompression".to_owned()));
    }
    Ok(data)
}

} // verus!
