//! A self-describing envelope around an LZF-compressed or verbatim payload:
//! a fixed-size header carrying compression metadata, followed by the body.
//! The LZF algorithm itself comes from the lzf crate; this library builds,
//! parses, and proves the envelope around it.

pub mod utils;

use vstd::prelude::*;

verus! {

use crate::utils::headers::EnvelopeError;
use crate::utils::headers::lzf_structure_from_compressed;
use crate::utils::headers::lzf_structure_from_uncompressed;
use crate::utils::headers::lemma_compressed_envelope_parses;
use crate::utils::headers::spec_compressed_envelope;
use crate::utils::headers::spec_lzf_compress;
use crate::utils::headers::spec_lzf_compressible;
use crate::utils::headers::spec_lzf_decompress;
use crate::utils::headers::spec_lzf_decompressible;
use crate::utils::headers::spec_parse_ok;
use crate::utils::headers::spec_parse_err;
use crate::utils::headers::spec_parsed_body;
use crate::utils::headers::spec_parsed_is_compressed;
use crate::utils::headers::spec_parsed_original_len;

/// Takes a raw payload and returns the envelope around its compressed form:
/// the 7 header bytes, then the LZF-compressed body. Fails exactly when the
/// external compression capability does, with its cause.
pub fn compress_lzf(payload: &[u8]) -> (result: Result<Vec<u8>, EnvelopeError>)
    ensures
        result is Ok <==> spec_lzf_compressible(payload@),
        result matches Ok(envelope) ==> envelope@ == spec_compressed_envelope(payload@)
            && spec_lzf_compress(payload@).len() <= payload@.len(),
        result is Ok ==> payload@.len() >= 2,
        result matches Err(e) ==> e matches EnvelopeError::CompressionError(_),
{
    match lzf_structure_from_uncompressed(payload) {
        Ok(structure) => {
            let envelope = structure.to_compressed();
            proof {
                assert(envelope@ =~= spec_compressed_envelope(payload@));
            }
            Ok(envelope)
        },
        Err(error) => Err(error),
    }
}

/// Takes an envelope and returns the raw payload it carries: the body
/// verbatim when the header's flag says uncompressed, else the body handed
/// through the external decompression capability. Round trip: an envelope
/// that `compress_lzf` built from a payload that fits the 16-bit
/// original-length field decodes back to exactly that payload.
pub fn decompress_lzf(payload: &[u8]) -> (result: Result<Vec<u8>, EnvelopeError>)
    ensures
        !spec_parse_ok(payload@) ==> (result matches Err(e) && e == spec_parse_err(payload@)),
        spec_parse_ok(payload@) && !spec_parsed_is_compressed(payload@) ==> (result matches Ok(raw)
            && raw@ == spec_parsed_body(payload@)),
        spec_parse_ok(payload@) && spec_parsed_is_compressed(payload@) ==> (result matches Ok(raw)
            ==> raw@ == spec_lzf_decompress(
            spec_parsed_body(payload@),
            spec_parsed_original_len(payload@),
        )),
        spec_parse_ok(payload@) && spec_parsed_is_compressed(payload@) ==> (result is Ok
            <==> spec_lzf_decompressible(
            spec_parsed_body(payload@),
            spec_parsed_original_len(payload@),
        )),
        spec_parse_ok(payload@) && spec_parsed_is_compressed(payload@) ==> (result matches Err(e)
            ==> e matches EnvelopeError::DecompressionError(_)),
        forall|original: Seq<u8>|
            payload@ == #[trigger] spec_compressed_envelope(original) && original.len() <= 0xFFFF
                ==> (result matches Ok(raw) && raw@ == original),
{
    match lzf_structure_from_compressed(payload) {
        Ok(structure) => {
            if structure.header.is_compressed {
                let result = structure.get_decompressed_payload();
                proof {
                    assert forall|original: Seq<u8>|
                        payload@ == #[trigger] spec_compressed_envelope(original)
                            && original.len() <= 0xFFFF implies (result matches Ok(raw)
                        && raw@ == original) by {
                        lemma_compressed_envelope_parses(payload@, original);
                    }
                }
                result
            } else {
                proof {
                    assert forall|original: Seq<u8>|
                        payload@ == #[trigger] spec_compressed_envelope(original)
                            && original.len() <= 0xFFFF implies spec_parsed_is_compressed(
                        payload@,
                    ) by {
                        lemma_compressed_envelope_parses(payload@, original);
                    }
                }
                Ok(structure.body)
            }
        },
        Err(error) => {
            proof {
                assert forall|original: Seq<u8>|
                    payload@ == #[trigger] spec_compressed_envelope(original) && original.len()
                        <= 0xFFFF implies spec_parse_ok(payload@) by {
                    lemma_compressed_envelope_parses(payload@, original);
                }
            }
            Err(error)
        },
    }
}

} // verus!
