use vstd::prelude::*;

verus! {

/// Marker of the RSA scheme.
#[derive(Clone, Copy, Debug)]
pub struct RsaScheme {}

} // verus!
