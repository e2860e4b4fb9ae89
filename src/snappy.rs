use snap::Error as SnapError;
use vstd::prelude::*;

verus! {

#[verifier::external_type_specification]
#[verifier::external_body]
pub struct ExSnapError(SnapError);

/// What Snappy's raw format decompresses `b` to, or `None` where `b` is not
/// valid raw Snappy data.
pub uninterp spec fn snappy_decompressed(b: Seq<u8>) -> Option<Seq<u8>>;

/// Relies on `snap::raw::Decoder::decompress_vec`: the result depends on the
/// input bytes alone, an empty input is refused (`Error::Empty`), and the
/// decompressed length never exceeds `u32::MAX` (`Error::TooBig`).
#[verifier::external_body]
pub(crate) fn snappy_decompress(input: &[u8]) -> (r: Result<Vec<u8>, SnapError>)
    ensures
        match r {
            Ok(v) => snappy_decompressed(input@) == Some(v@),
            Err(_) => snappy_decompressed(input@) is None,
        },
        input@.len() == 0 ==> r is Err,
        r is Ok ==> r->Ok_0@.len() <= u32::MAX,
{
    snap::raw::Decoder::new().decompress_vec(input)
}

} // verus!
