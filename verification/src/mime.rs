//! Media type strings, straight from a file extension.

use crate::extension::Extension;
use crate::text::lowered;
use vstd::prelude::*;

verus! {

/// The media type string for a file extension, ignoring the case of ASCII
/// letters; `application/octet-stream` when the extension is not known.
pub fn from_ext(extension: &str) -> (r: &str)
    ensures
        r@ == Extension::of(lowered(extension@)).spec_mime(),
{
    Extension::new(extension).mime()
}

} // verus!
