//! Icon assets of the navigation glyphs.

use vstd::prelude::*;
use crate::text::{chars_eq_str, chars_of};

verus! {

/// The asset path of the icon for a navigation glyph key; unknown keys get
/// the terminal icon.
pub open spec fn icon_path_spec(glyph: Seq<char>) -> Seq<char> {
    if glyph == "terminal"@ {
        "icons/terminal.svg"@
    } else if glyph == "home"@ {
        "icons/home.svg"@
    } else if glyph == "logs"@ {
        "icons/logs.svg"@
    } else if glyph == "settings"@ {
        "icons/settings.svg"@
    } else if glyph == "modules"@ {
        "icons/modules.svg"@
    } else if glyph == "tools"@ {
        "icons/tools.svg"@
    } else {
        "icons/terminal.svg"@
    }
}

/// The asset path of the icon for a navigation glyph key.
pub fn icon_path(glyph_key: &str) -> (r: &'static str)
    ensures
        r@ == icon_path_spec(glyph_key@),
{
    let g = chars_of(glyph_key);
    if chars_eq_str(&g, "terminal") {
        "icons/terminal.svg"
    } else if chars_eq_str(&g, "home") {
        "icons/home.svg"
    } else if chars_eq_str(&g, "logs") {
        "icons/logs.svg"
    } else if chars_eq_str(&g, "settings") {
        "icons/settings.svg"
    } else if chars_eq_str(&g, "modules") {
        "icons/modules.svg"
    } else if chars_eq_str(&g, "tools") {
        "icons/tools.svg"
    } else {
        "icons/terminal.svg"
    }
}

} // verus!
