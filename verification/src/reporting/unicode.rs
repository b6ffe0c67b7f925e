use vstd::prelude::*;

verus! {

/// Pick the Unicode spelling of a glyph when Unicode output is enabled, and
/// the ASCII fallback otherwise.
///
/// Whether Unicode output is enabled is decided once at startup and passed
/// in explicitly.
pub fn choose_unicode<'a>(unicode: &'a str, ascii: &'a str, enable_unicode: bool) -> (r: &'a str)
    ensures
        enable_unicode ==> r@ == unicode@,
        !enable_unicode ==> r@ == ascii@,
{
    if enable_unicode {
        unicode
    } else {
        ascii
    }
}

} // verus!
