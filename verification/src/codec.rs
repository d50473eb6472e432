use vstd::prelude::*;

use crate::payload::{encode_request_fields, spec_request_payload, ExecOpts};

verus! {

/// The bytes flate2's zlib encoder produces at its highest compression level
/// for the given input. The stream is a function of its input alone.
pub uninterp spec fn zlib_best_of(data: Seq<u8>) -> Seq<u8>;

/// Relies on flate2's `ZlibEncoder` with `Compression::best()`: it emits an
/// RFC 1950 zlib stream, which always carries a 2-byte header and a 4-byte
/// Adler-32 trailer around the deflate data, so it is at least 6 bytes long.
/// The encoder only reports errors of the writer it wraps, and writing into
/// a `Vec` cannot fail, so compression always succeeds.
#[verifier::external_body]
fn zlib_compress_best(data: &Vec<u8>) -> (r: Vec<u8>)
    ensures
        r@ == zlib_best_of(data@),
        r@.len() >= 6,
{
    let mut enc = flate2::write::ZlibEncoder::new(Vec::new(), flate2::Compression::best());
    std::io::Write::write_all(&mut enc, data.as_slice()).unwrap();
    enc.finish().unwrap()
}

/// A zlib stream with its framing removed: the 2 header bytes and the 4
/// trailing checksum bytes are gone, leaving the raw deflate data.
pub open spec fn spec_strip_zlib_frame(s: Seq<u8>) -> Seq<u8> {
    s.subrange(2, s.len() - 4)
}

/// Drops the 2-byte zlib header and the 4-byte checksum trailer. The backend
/// speaks raw deflate, so this stripping is a protocol requirement.
pub fn strip_zlib_framing(stream: Vec<u8>) -> (r: Vec<u8>)
    requires
        stream@.len() >= 6,
    ensures
        r@ == spec_strip_zlib_frame(stream@),
{
    let mut b = stream;
    let n = b.len();
    b.truncate(n - 4);
    b.remove(0);
    b.remove(0);
    proof {
        assert(b@ =~= spec_strip_zlib_frame(stream@));
    }
    b
}

/// The literal HTTP body for one request: the encoded fields, compressed at
/// the highest level, with the zlib framing stripped.
pub open spec fn spec_request_body(o: ExecOpts) -> Seq<u8> {
    spec_strip_zlib_frame(zlib_best_of(spec_request_payload(o)))
}

/// Builds the HTTP request body for one execution: encodes all fields in the
/// fixed order, compresses them, and strips the compression framing.
pub fn build_request_body(opts: &ExecOpts) -> (r: Vec<u8>)
    ensures
        r@ == spec_request_body(*opts),
{
    let fields = encode_request_fields(opts);
    let compressed = zlib_compress_best(&fields);
    strip_zlib_framing(compressed)
}

} // verus!
