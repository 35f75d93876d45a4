//! Stream metadata as the RTMP codec hands it over: carried through, never
//! read.
use vstd::prelude::*;

verus! {

#[verifier::external_type_specification]
#[verifier::external_body]
pub struct ExStreamMetadata(rml_rtmp::sessions::StreamMetadata);

/// Relies on the derived `Clone` of rml_rtmp's `StreamMetadata`: a copy
/// field by field.
pub assume_specification[ <rml_rtmp::sessions::StreamMetadata as Clone>::clone ](
    m: &rml_rtmp::sessions::StreamMetadata,
) -> (r: rml_rtmp::sessions::StreamMetadata)
    ensures
        r == *m,
;

} // verus!
