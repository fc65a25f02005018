//! Location of the font that the window requires for Japanese text.
use crate::paths::{join_spec, REQUIRED_FONT_RELATIVE_PATH};
use vstd::prelude::*;

verus! {

/// `<project_root>/assets/fonts/NotoSansJP-Regular.ttf`.
pub fn required_font_path(project_root: &str, sep: char) -> (res: String)
    ensures
        res@ == join_spec(project_root@, REQUIRED_FONT_RELATIVE_PATH@, sep),
{
    crate::paths::join(project_root, REQUIRED_FONT_RELATIVE_PATH, sep)
}

} // verus!
