//! The color type of the asset crate, whose four public `u8` channels the picker reads.

use vstd::prelude::*;

verus! {

/// `three_d_asset::Color`: a plain struct of four public `u8` channels r, g, b, a.
#[verifier::external_type_specification]
pub struct ExColor(three_d_asset::Color);

} // verus!
