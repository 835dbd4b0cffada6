use vstd::prelude::*;
use super::error::UnityError;

verus! {

/// What `lz4::block::decompress` gives for a compressed block and the size it is
/// told to expect: the decompressed bytes, or `None` where it fails.
pub uninterp spec fn lz4_block_output(src: Seq<u8>, size: i32) -> Option<Seq<u8>>;

/// What `lzma_rs::lzma_decompress_with_options` writes for a raw LZMA stream whose
/// unpacked size is given: the decompressed bytes, or `None` where it fails.
pub uninterp spec fn lzma_output(src: Seq<u8>, size: u32) -> Option<Seq<u8>>;

/// Decompresses an LZ4 block with `lz4::block::decompress(src, Some(size))`. The
/// crate decompresses into a buffer of `size` bytes and truncates it to what was
/// decompressed, so a result is never longer than `size`; which bytes come out, and
/// when it fails, is left to the name `lz4_block_output`.
#[verifier::external_body]
fn lz4_decompress(src: &[u8], size: i32) -> (r: Option<Vec<u8>>)
    ensures
        r matches Some(v) ==> lz4_block_output(src@, size) == Some(v@) && v@.len() <= size,
        r is None ==> lz4_block_output(src@, size) is None,
{
    lz4::block::decompress(src, Some(size)).ok()
}

/// Decompresses a raw LZMA stream with `lzma_rs::lzma_decompress_with_options`,
/// giving the unpacked size (`UnpackedSize::UseProvided`). The crate fails unless it
/// decompresses exactly `size` bytes, so a result is `size` bytes long; which bytes
/// come out, and when it fails, is left to the name `lzma_output`.
#[verifier::external_body]
fn lzma_decompress(src: &[u8], size: u32) -> (r: Option<Vec<u8>>)
    ensures
        r matches Some(v) ==> lzma_output(src@, size) == Some(v@) && v@.len() == size,
        r is None ==> lzma_output(src@, size) is None,
{
    let mut output = std::io::Cursor::new(Vec::with_capacity(size as usize));
    let mut reader = std::io::Cursor::new(src);
    let options = lzma_rs::decompress::Options {
        unpacked_size: lzma_rs::decompress::UnpackedSize::UseProvided(Some(u64::from(size))),
        ..Default::default()
    };
    match lzma_rs::lzma_decompress_with_options(&mut reader, &mut output, &options) {
        Ok(()) => Some(output.into_inner()),
        Err(_) => None,
    }
}

/// The compression methods of a UnityFS archive that this library knows: 0 none,
/// 1 LZMA, 2 LZ4, 3 LZ4HC, 4 LZHAM.
pub open spec fn compression_known(compression: u32) -> bool {
    compression <= 4
}

/// Decompressing data of a UnityFS archive that uncompresses to `size` bytes.
pub open spec fn sp_decompress(src: Seq<u8>, compression: u32, size: u32) -> Result<Seq<u8>, UnityError> {
    if compression == 0 {
        Ok(src)
    } else if compression == 1 {
        match lzma_output(src, size) {
            Some(v) => Ok(v),
            None => Err(UnityError::InvalidData("LZMA data could not be decompressed")),
        }
    } else if compression == 2 || compression == 3 {
        if size > i32::MAX {
            Err(UnityError::InvalidData("decompressed size out of range"))
        } else {
            match lz4_block_output(src, size as i32) {
                Some(v) => Ok(v),
                None => Err(UnityError::InvalidData("LZ4 data could not be decompressed")),
            }
        }
    } else {
        Err(UnityError::Unsupported("unsupported compression method"))
    }
}

/// Decompresses data of a UnityFS archive.
pub fn decompress_data(src: &[u8], compression: u32, size: u32) -> (r: Result<Vec<u8>, UnityError>)
    requires
        compression_known(compression),
    ensures
        r matches Ok(v) ==> sp_decompress(src@, compression, size) == Ok::<Seq<u8>, UnityError>(v@),
        r matches Err(e) ==> sp_decompress(src@, compression, size) == Err::<Seq<u8>, UnityError>(e),
{
    if compression == 0 {
        Ok(super::reader::bytes_to_vec(src))
    } else if compression == 1 {
        match lzma_decompress(src, size) {
            Some(v) => Ok(v),
            None => Err(UnityError::InvalidData("LZMA data could not be decompressed")),
        }
    } else if compression == 2 || compression == 3 {
        if size > i32::MAX as u32 {
            return Err(UnityError::InvalidData("decompressed size out of range"));
        }
        match lz4_decompress(src, size as i32) {
            Some(v) => Ok(v),
            None => Err(UnityError::InvalidData("LZ4 data could not be decompressed")),
        }
    } else {
        Err(UnityError::Unsupported("unsupported compression method"))
    }
}

} // verus!
