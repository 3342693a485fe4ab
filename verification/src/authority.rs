//! What a project's own rules may decide, as it is written into other texts.
use crate::text::{replace, replaced, trim, trimmed};
use vstd::prelude::*;
use vstd::string::*;

verus! {

pub const PLACEHOLDER: &'static str = "{{OPSX_BUILD_PROJECT_AUTHORITY}}";

/// A text with the guidance in the places that it leaves for it.
pub fn render(template: &str, guidance: &str) -> (r: String)
    ensures
        r@ == replaced(template@, PLACEHOLDER@, trimmed(guidance@)),
{
    proof {
        reveal_strlit("{{OPSX_BUILD_PROJECT_AUTHORITY}}");
    }
    let bare = trim(guidance);
    replace(template, PLACEHOLDER, bare.as_str())
}

} // verus!
