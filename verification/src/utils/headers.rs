//! The "ZV" envelope codec: a fixed-size header carrying compression
//! metadata, followed by a body that is either LZF-compressed or stored
//! verbatim.
//!
//! Wire layout, as written by the serializer (always 7 header bytes):
//!
//! | offset | size | field                                          |
//! |--------|------|------------------------------------------------|
//! | 0..2   | 2    | method tag, the ASCII bytes `"ZV"`             |
//! | 2      | 1    | flag: `0x01` compressed, `0x00` stored verbatim|
//! | 3..5   | 2    | body length, big-endian unsigned 16-bit        |
//! | 5..7   | 2    | original length, big-endian unsigned 16-bit    |
//!
//! The parser reads the original-length field only when the flag says the
//! body is compressed; with a verbatim body the body starts at offset 5.

use vstd::prelude::*;
use vstd::slice::{slice_subrange, slice_to_vec};

verus! {

/// Declares the lzf crate's error enum so that it can be carried inside
/// [`EnvelopeError`] as the underlying cause of a failed body transformation.
#[verifier::external_type_specification]
#[verifier::external_body]
pub struct ExLzfError(lzf::LzfError);

/// Why an envelope could not be built or taken apart.
#[derive(Debug)]
pub enum EnvelopeError {
    /// The envelope buffer is smaller than its header needs.
    BufferTooShort,
    /// The flag byte at offset 2 is neither `0x00` nor `0x01`; carries the
    /// offending byte.
    HeaderParseError(u8),
    /// The external compression capability failed; carries the cause.
    CompressionError(lzf::LzfError),
    /// The external decompression capability failed; carries the cause.
    DecompressionError(lzf::LzfError),
}

/// The bytes that `lzf::compress` produces for the given input, named here
/// because the LZF encoding itself is outside this library's scope. The
/// result is a function of the input bytes alone.
pub uninterp spec fn spec_lzf_compress(data: Seq<u8>) -> Seq<u8>;

/// Whether `lzf::compress` succeeds on the given input. Success depends on
/// the input bytes alone: the algorithm refuses inputs shorter than 2 bytes
/// and inputs whose compressed form would not be smaller than they are.
pub uninterp spec fn spec_lzf_compressible(data: Seq<u8>) -> bool;

/// The bytes that `lzf::decompress` produces for the given input and
/// expected output length, named for the same reason. The result is a
/// function of the two arguments alone.
pub uninterp spec fn spec_lzf_decompress(data: Seq<u8>, expected_len: nat) -> Seq<u8>;

/// Whether `lzf::decompress` succeeds on the given input and expected
/// output length. Success depends on the two arguments alone: the algorithm
/// fails exactly on malformed input bytes or an expected length the
/// restored bytes do not fit.
pub uninterp spec fn spec_lzf_decompressible(data: Seq<u8>, expected_len: nat) -> bool;

/// Relies on `lzf::compress`: a deterministic function of the input bytes,
/// so whether it succeeds is one too. It writes into a buffer of exactly
/// the input's size and reports failure when the compressed form would not
/// fit, so a successful result never exceeds the input's length; inputs
/// shorter than 2 bytes are always refused.
#[verifier::external_body]
fn lzf_compress(data: &[u8]) -> (result: Result<Vec<u8>, lzf::LzfError>)
    ensures
        result is Ok <==> spec_lzf_compressible(data@),
        result matches Ok(compressed) ==> compressed@ == spec_lzf_compress(data@)
            && compressed@.len() <= data@.len(),
        result is Ok ==> data@.len() >= 2,
{
    lzf::compress(data)
}

/// Relies on `lzf::decompress`: a deterministic function of the input bytes
/// and the expected output length, so whether it succeeds is one too. On
/// success the result fits in the expected length, and when handed the
/// exact output of `lzf::compress` together with the compressed input's
/// original length it succeeds and restores that input.
#[verifier::external_body]
fn lzf_decompress(data: &[u8], expected_len: usize) -> (result: Result<Vec<u8>, lzf::LzfError>)
    ensures
        result is Ok <==> spec_lzf_decompressible(data@, expected_len as nat),
        result matches Ok(restored) ==> restored@ == spec_lzf_decompress(
            data@,
            expected_len as nat,
        ) && restored@.len() <= expected_len && (forall|original: Seq<u8>|
            data@ == #[trigger] spec_lzf_compress(original) && original.len() == expected_len as nat
                ==> restored@ == original),
        result is Err ==> forall|original: Seq<u8>|
            !(data@ == #[trigger] spec_lzf_compress(original) && original.len()
                == expected_len as nat),
{
    lzf::decompress(data, expected_len)
}

/// The envelope's metadata.
#[derive(Debug)]
pub struct LzfHeader {
    /// The fixed method tag, always the two ASCII characters `"ZV"`.
    pub compress_method: String,
    /// Whether the body is LZF-compressed or stored verbatim.
    pub is_compressed: bool,
    /// The body's length after decompression; 0 when the body is verbatim.
    pub original_len: usize,
    /// The body's length as stored in the envelope.
    pub compressed_len: usize,
}

/// An envelope taken apart: its header and its body bytes.
#[derive(Debug)]
pub struct LzfStructure {
    /// The envelope's metadata.
    pub header: LzfHeader,
    /// The body bytes, compressed or verbatim as the header says.
    pub body: Vec<u8>,
}

/// The big-endian unsigned 16-bit value spelled by two bytes.
pub open spec fn be16(hi: u8, lo: u8) -> nat {
    (hi as nat) * 256 + (lo as nat)
}

/// The high byte of a length's big-endian 16-bit encoding; values above
/// 65535 are silently truncated to their low 16 bits.
pub open spec fn be16_hi(n: nat) -> u8 {
    (((n / 256) % 256) as u8)
}

/// The low byte of a length's big-endian 16-bit encoding.
pub open spec fn be16_lo(n: nat) -> u8 {
    ((n % 256) as u8)
}

/// The on-wire flag byte: `0x01` compressed, `0x00` verbatim.
pub open spec fn flag_byte(is_compressed: bool) -> u8 {
    if is_compressed {
        1u8
    } else {
        0u8
    }
}

/// The 7 header bytes the serializer writes: method tag, flag byte, and the
/// two big-endian length fields.
pub open spec fn spec_header_bytes(is_compressed: bool, compressed_len: nat, original_len: nat) -> Seq<u8> {
    seq![
        90u8,
        86u8,
        flag_byte(is_compressed),
        be16_hi(compressed_len),
        be16_lo(compressed_len),
        be16_hi(original_len),
        be16_lo(original_len),
    ]
}

/// The full envelope a structure serializes to: header bytes, then the body.
pub open spec fn spec_envelope_bytes(s: LzfStructure) -> Seq<u8> {
    spec_header_bytes(
        s.header.is_compressed,
        s.header.compressed_len as nat,
        s.header.original_len as nat,
    ) + s.body@
}

/// The envelope that compressing `payload` yields: a compressed-flag header
/// whose length fields describe the compressed body and the payload, then
/// the compressed body itself.
pub open spec fn spec_compressed_envelope(payload: Seq<u8>) -> Seq<u8> {
    spec_header_bytes(true, spec_lzf_compress(payload).len(), payload.len())
        + spec_lzf_compress(payload)
}

/// Whether an envelope buffer parses: at least 5 bytes, a valid flag byte,
/// and at least 7 bytes when the flag says the body is compressed.
pub open spec fn spec_parse_ok(env: Seq<u8>) -> bool {
    &&& env.len() >= 5
    &&& (env[2] == 0u8 || env[2] == 1u8)
    &&& (env[2] == 1u8 ==> env.len() >= 7)
}

/// The error a buffer that does not parse is rejected with.
pub open spec fn spec_parse_err(env: Seq<u8>) -> EnvelopeError {
    if env.len() < 5 {
        EnvelopeError::BufferTooShort
    } else if env[2] != 0u8 && env[2] != 1u8 {
        EnvelopeError::HeaderParseError(env[2])
    } else {
        EnvelopeError::BufferTooShort
    }
}

/// The flag a parsed envelope declares.
pub open spec fn spec_parsed_is_compressed(env: Seq<u8>) -> bool {
    env[2] == 1u8
}

/// The body length a parsed envelope declares.
pub open spec fn spec_parsed_compressed_len(env: Seq<u8>) -> nat {
    be16(env[3], env[4])
}

/// The original length a parsed envelope declares; fixed at 0 when the body
/// is verbatim, whose header has no original-length field.
pub open spec fn spec_parsed_original_len(env: Seq<u8>) -> nat {
    if spec_parsed_is_compressed(env) {
        be16(env[5], env[6])
    } else {
        0
    }
}

/// Where a parsed envelope's body starts: 7 when compressed, else 5.
pub open spec fn spec_body_start(env: Seq<u8>) -> int {
    if spec_parsed_is_compressed(env) {
        7
    } else {
        5
    }
}

/// The body bytes a parsed envelope carries.
pub open spec fn spec_parsed_body(env: Seq<u8>) -> Seq<u8> {
    env.skip(spec_body_start(env))
}

/// What parsing the buffer `env` must put into a header value.
pub open spec fn header_matches(env: Seq<u8>, h: LzfHeader) -> bool {
    &&& h.compress_method@ == "ZV"@
    &&& h.is_compressed == spec_parsed_is_compressed(env)
    &&& h.compressed_len as nat == spec_parsed_compressed_len(env)
    &&& h.original_len as nat == spec_parsed_original_len(env)
}

impl LzfHeader {
    /// A header is well formed when it carries the fixed `"ZV"` method tag.
    pub open spec fn wf(self) -> bool {
        self.compress_method@ == "ZV"@
    }
}

impl LzfStructure {
    /// A structure is well formed when its header is and the stored body
    /// length describes the body exactly.
    pub open spec fn wf(self) -> bool {
        &&& self.header.wf()
        &&& self.header.compressed_len == self.body@.len()
    }
}

/// The two big-endian bytes of a length that fits 16 bits spell that length
/// back.
pub proof fn lemma_be16_roundtrip(n: nat)
    requires
        n <= 0xFFFF,
    ensures
        be16(be16_hi(n), be16_lo(n)) == n,
{
    assert(n / 256 <= 255) by (nonlinear_arith)
        requires
            n <= 0xFFFF,
    ;
    assert((n / 256) * 256 + n % 256 == n) by (nonlinear_arith);
}

/// Parsing an envelope that the compressing encoder produced yields the
/// compressed flag, the payload's original length, and the compressed body.
pub proof fn lemma_compressed_envelope_parses(env: Seq<u8>, payload: Seq<u8>)
    requires
        env == spec_compressed_envelope(payload),
        payload.len() <= 0xFFFF,
    ensures
        spec_parse_ok(env),
        spec_parsed_is_compressed(env),
        spec_parsed_original_len(env) == payload.len(),
        spec_parsed_body(env) == spec_lzf_compress(payload),
{
    let header = spec_header_bytes(true, spec_lzf_compress(payload).len(), payload.len());
    let body = spec_lzf_compress(payload);
    assert(header.len() == 7);
    assert(env[2] == header[2]);
    assert(env[5] == header[5]);
    assert(env[6] == header[6]);
    lemma_be16_roundtrip(payload.len());
    assert(env.skip(7) =~= body);
}

/// Header length fields law: parsing the envelope built from a payload whose
/// compressed body fits the 16-bit length field yields a compressed length
/// equal to the length of the body stored in the envelope, and an original
/// length equal to the payload's.
pub proof fn lemma_header_length_fields(env: Seq<u8>, payload: Seq<u8>)
    requires
        env == spec_compressed_envelope(payload),
        payload.len() <= 0xFFFF,
        spec_lzf_compress(payload).len() <= 0xFFFF,
    ensures
        spec_parsed_compressed_len(env) == spec_parsed_body(env).len(),
        spec_parsed_compressed_len(env) == env.len() - 7,
        spec_parsed_original_len(env) == payload.len(),
{
    let header = spec_header_bytes(true, spec_lzf_compress(payload).len(), payload.len());
    lemma_compressed_envelope_parses(env, payload);
    assert(env[3] == header[3]);
    assert(env[4] == header[4]);
    lemma_be16_roundtrip(spec_lzf_compress(payload).len());
}

/// Parsing is deterministic: two header values parsed from the same envelope
/// bytes agree on every field.
pub proof fn lemma_parse_idempotent(env: Seq<u8>, h1: LzfHeader, h2: LzfHeader)
    requires
        header_matches(env, h1),
        header_matches(env, h2),
    ensures
        h1.compress_method@ == h2.compress_method@,
        h1.is_compressed == h2.is_compressed,
        h1.compressed_len == h2.compressed_len,
        h1.original_len == h2.original_len,
{
}

/// Reads a big-endian unsigned 16-bit value from the first two bytes.
pub fn convert_to_size(payload: &[u8]) -> (size: usize)
    requires
        payload@.len() >= 2,
    ensures
        size == be16(payload@[0], payload@[1]),
{
    let hi = payload[0];
    let lo = payload[1];
    (hi as usize) * 256 + (lo as usize)
}

/// Writes a length as two big-endian bytes, truncating values above 65535
/// to their low 16 bits.
fn size_to_bytes(size: usize) -> (bytes: Vec<u8>)
    ensures
        bytes@ == seq![be16_hi(size as nat), be16_lo(size as nat)],
{
    let mut bytes: Vec<u8> = Vec::new();
    bytes.push(((size / 256) % 256) as u8);
    bytes.push((size % 256) as u8);
    proof {
        assert(bytes@ =~= seq![be16_hi(size as nat), be16_lo(size as nat)]);
    }
    bytes
}

/// Parses the header of an envelope buffer: the flag byte at offset 2, the
/// body length at offsets 3..5, and — only when the flag says compressed —
/// the original length at offsets 5..7.
pub fn header_from_compressed(payload: &[u8]) -> (result: Result<LzfHeader, EnvelopeError>)
    ensures
        result matches Ok(header) ==> spec_parse_ok(payload@) && header_matches(payload@, header),
        result matches Err(e) ==> !spec_parse_ok(payload@) && e == spec_parse_err(payload@),
{
    if payload.len() < 5 {
        return Err(EnvelopeError::BufferTooShort);
    }
    let flag = payload[2];
    if flag != 0 && flag != 1 {
        return Err(EnvelopeError::HeaderParseError(flag));
    }
    let is_compressed = flag == 1;
    if is_compressed && payload.len() < 7 {
        return Err(EnvelopeError::BufferTooShort);
    }

    let compressed_len = convert_to_size(slice_subrange(payload, 3, 5));
    let original_len: usize = if is_compressed {
        convert_to_size(slice_subrange(payload, 5, 7))
    } else {
        0
    };

    Ok(LzfHeader {
        compress_method: "ZV".to_owned(),
        is_compressed,
        original_len,
        compressed_len,
    })
}

/// Takes an envelope buffer apart into its header and its body bytes; the
/// body starts at offset 7 when the flag says compressed, else at offset 5.
pub fn lzf_structure_from_compressed(payload: &[u8]) -> (result: Result<
    LzfStructure,
    EnvelopeError,
>)
    ensures
        result matches Ok(s) ==> spec_parse_ok(payload@) && header_matches(payload@, s.header)
            && s.body@ == spec_parsed_body(payload@),
        result matches Err(e) ==> !spec_parse_ok(payload@) && e == spec_parse_err(payload@),
{
    let header = match header_from_compressed(payload) {
        Ok(header) => header,
        Err(error) => {
            return Err(error);
        },
    };

    let body: Vec<u8> = if header.is_compressed {
        slice_to_vec(slice_subrange(payload, 7, payload.len()))
    } else {
        slice_to_vec(slice_subrange(payload, 5, payload.len()))
    };

    Ok(LzfStructure { header, body })
}

/// Compresses a raw payload and wraps it in a structure whose header
/// declares the compressed flag, the compressed body's length, and the
/// payload's original length.
pub fn lzf_structure_from_uncompressed(uncompressed_payload: &[u8]) -> (result: Result<
    LzfStructure,
    EnvelopeError,
>)
    ensures
        result matches Ok(s) ==> {
            &&& s.wf()
            &&& s.header.is_compressed
            &&& s.header.original_len == uncompressed_payload@.len()
            &&& s.header.compressed_len == spec_lzf_compress(uncompressed_payload@).len()
            &&& s.header.compressed_len <= uncompressed_payload@.len()
            &&& s.body@ == spec_lzf_compress(uncompressed_payload@)
        },
        result is Ok <==> spec_lzf_compressible(uncompressed_payload@),
        result is Ok ==> uncompressed_payload@.len() >= 2,
        result matches Err(e) ==> e matches EnvelopeError::CompressionError(_),
{
    let original_len: usize = uncompressed_payload.len();

    match lzf_compress(uncompressed_payload) {
        Ok(compressed) => {
            let compressed_len: usize = compressed.len();
            let header = LzfHeader {
                is_compressed: true,
                original_len,
                compressed_len,
                compress_method: "ZV".to_owned(),
            };

            Ok(LzfStructure { header, body: compressed })
        },
        Err(error) => Err(EnvelopeError::CompressionError(error)),
    }
}

impl LzfStructure {
    /// Serializes the structure to its envelope: the full 7 header bytes —
    /// both length fields written unconditionally — followed by the body.
    pub fn to_compressed(&self) -> (envelope: Vec<u8>)
        requires
            self.header.wf(),
        ensures
            envelope@ == spec_envelope_bytes(*self),
    {
        let mut envelope: Vec<u8> = Vec::new();
        envelope.push(90u8);  // 'Z'
        envelope.push(86u8);  // 'V'
        if self.header.is_compressed {
            envelope.push(1u8);
        } else {
            envelope.push(0u8);
        }
        let mut compressed_length = size_to_bytes(self.header.compressed_len);
        envelope.append(&mut compressed_length);
        let mut original_length = size_to_bytes(self.header.original_len);
        envelope.append(&mut original_length);
        let mut body = slice_to_vec(self.body.as_slice());
        envelope.append(&mut body);
        proof {
            assert(envelope@ =~= spec_envelope_bytes(*self));
        }
        envelope
    }

    /// Hands the body and the declared original length to the external
    /// decompression capability and returns what it restores.
    pub fn get_decompressed_payload(&self) -> (result: Result<Vec<u8>, EnvelopeError>)
        ensures
            result is Ok <==> spec_lzf_decompressible(
                self.body@,
                self.header.original_len as nat,
            ),
            result matches Ok(payload) ==> payload@ == spec_lzf_decompress(
                self.body@,
                self.header.original_len as nat,
            ) && payload@.len() <= self.header.original_len,
            result matches Err(e) ==> e matches EnvelopeError::DecompressionError(_),
            forall|original: Seq<u8>|
                self.body@ == #[trigger] spec_lzf_compress(original) && original.len()
                    == self.header.original_len as nat ==> (result matches Ok(payload)
                    && payload@ == original),
    {
        match lzf_decompress(self.body.as_slice(), self.header.original_len) {
            Ok(payload) => Ok(payload),
            Err(error) => Err(EnvelopeError::DecompressionError(error)),
        }
    }
}

} // verus!
