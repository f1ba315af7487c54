//! Reinterpretation of byte buffers as binary shader-module words.
//!
//! A shader binary is a sequence of 32-bit words stored as bytes, least
//! significant byte first, and opens with a fixed magic word. Reinterpreting
//! untrusted bytes validates, in order: the length is a multiple of four, at
//! least one word is present, and the leading word equals the magic number.
//! Each failure is reported as a recoverable error so that externally
//! supplied binaries can be rejected without aborting; a caller whose input
//! is fully trusted may treat a failure as fatal and unwrap the result.

use vstd::prelude::*;

verus! {

/// Leading word that every binary shader module must begin with.
pub const MAGIC_NUMBER: u32 = 0x0723_0203;

/// Why a byte buffer was rejected as a shader binary.
#[derive(Clone, Copy, Debug, PartialEq, Eq, Structural)]
pub enum SpirvError {
    /// The byte length is not a multiple of four.
    SizeNotMultipleOf4,
    /// The buffer holds no complete word.
    TooShort,
    /// The leading word differs from [`MAGIC_NUMBER`].
    BadMagicNumber,
}

/// The 32-bit word assembled from the four bytes starting at byte `4 * i`,
/// least significant byte first.
pub open spec fn word_at(bytes: Seq<u8>, i: int) -> u32
    recommends
        0 <= i,
        4 * i + 3 < bytes.len(),
{
    (bytes[4 * i] + bytes[4 * i + 1] * 0x100 + bytes[4 * i + 2] * 0x1_0000 + bytes[4 * i + 3]
        * 0x100_0000) as u32
}

/// The word sequence a byte buffer reads as. Meaningful when the byte length
/// is a multiple of four; the words are a function of the byte values alone,
/// so every way of reading them (in place or after a copy) must agree.
pub open spec fn words_of(bytes: Seq<u8>) -> Seq<u32> {
    Seq::new(bytes.len() / 4, |i: int| word_at(bytes, i))
}

/// What reinterpreting a byte buffer returns, validation order included:
/// first the length must be a multiple of four, then at least one word must
/// be present, then the leading word must be the magic number.
pub open spec fn spec_reinterpret(bytes: Seq<u8>) -> Result<Seq<u32>, SpirvError> {
    if bytes.len() % 4 != 0 {
        Err(SpirvError::SizeNotMultipleOf4)
    } else if bytes.len() == 0 {
        Err(SpirvError::TooShort)
    } else if word_at(bytes, 0) != MAGIC_NUMBER {
        Err(SpirvError::BadMagicNumber)
    } else {
        Ok(words_of(bytes))
    }
}

/// Treat the given byte slice as a binary shader module, returning its words.
///
/// The bytes are copied into a freshly owned word buffer; the word values are
/// determined by the byte values alone, never by where the bytes happen to be
/// stored.
pub fn make_spirv_raw(data: &[u8]) -> (r: Result<Vec<u32>, SpirvError>)
    ensures
        match r {
            Ok(words) => spec_reinterpret(data@) == Ok::<Seq<u32>, SpirvError>(words@),
            Err(e) => spec_reinterpret(data@) == Err::<Seq<u32>, SpirvError>(e),
        },
{
    if data.len() % 4 != 0 {
        return Err(SpirvError::SizeNotMultipleOf4);
    }
    if data.len() == 0 {
        return Err(SpirvError::TooShort);
    }
    let n = data.len() / 4;
    let mut words: Vec<u32> = Vec::new();
    let mut i: usize = 0;
    while i < n
        invariant
            data@.len() == 4 * n,
            4 * n <= usize::MAX,
            i <= n,
            words@.len() == i,
            forall|j: int| 0 <= j < i ==> words@[j] == word_at(data@, j),
        decreases n - i,
    {
        let b0 = data[4 * i] as u32;
        let b1 = data[4 * i + 1] as u32;
        let b2 = data[4 * i + 2] as u32;
        let b3 = data[4 * i + 3] as u32;
        let w = b0 + b1 * 0x100 + b2 * 0x1_0000 + b3 * 0x100_0000;
        words.push(w);
        i = i + 1;
    }
    assert(words@ =~= words_of(data@));
    if words[0] != MAGIC_NUMBER {
        return Err(SpirvError::BadMagicNumber);
    }
    Ok(words)
}

/// Source of a shader module: a validated sequence of binary words.
pub enum ShaderSource {
    SpirV(Vec<u32>),
}

impl ShaderSource {
    /// The words the source holds.
    pub open spec fn words(self) -> Seq<u32> {
        match self {
            ShaderSource::SpirV(v) => v@,
        }
    }
}

/// Treat the given byte slice as a binary shader module, packaged as a shader
/// source. Validation and word values are exactly those of
/// [`make_spirv_raw`].
pub fn make_spirv(data: &[u8]) -> (r: Result<ShaderSource, SpirvError>)
    ensures
        match r {
            Ok(src) => spec_reinterpret(data@) == Ok::<Seq<u32>, SpirvError>(src.words()),
            Err(e) => spec_reinterpret(data@) == Err::<Seq<u32>, SpirvError>(e),
        },
{
    match make_spirv_raw(data) {
        Ok(words) => Ok(ShaderSource::SpirV(words)),
        Err(e) => Err(e),
    }
}

} // verus!
