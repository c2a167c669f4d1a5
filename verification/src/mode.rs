//! The outline simplification styles and the names they go by.

use vstd::prelude::*;
use vstd::string::*;

verus! {

/// How the outline of a cluster is simplified before it is drawn.
#[derive(Clone, Copy, Debug, PartialEq, Eq, Structural)]
pub enum PathSimplifyMode {
    /// The raw pixel boundary, corner by corner: what the name `none` asks for.
    Pixel,
    /// Straight edges.
    Polygon,
    /// Smooth curves.
    Spline,
}

/// A mode name that is none of `polygon`, `spline`, `none`.
#[derive(Clone, Copy, Debug, PartialEq, Eq, Structural)]
pub struct UnknownMode;

/// The mode that a name stands for, if it stands for one.
pub open spec fn mode_named(name: Seq<char>) -> Option<PathSimplifyMode> {
    if name == "polygon"@ {
        Some(PathSimplifyMode::Polygon)
    } else if name == "spline"@ {
        Some(PathSimplifyMode::Spline)
    } else if name == "none"@ {
        Some(PathSimplifyMode::Pixel)
    } else {
        None
    }
}

/// Whether two texts hold the same characters.
fn same_text(a: &str, b: &str) -> (same: bool)
    ensures
        same == (a@ == b@),
{
    let n: usize = a.unicode_len();
    if n != b.unicode_len() {
        return false;
    }
    let mut i: usize = 0;
    while i < n
        invariant
            i <= n,
            n == a@.len(),
            n == b@.len(),
            forall|j: int| 0 <= j < i ==> a@[j] == b@[j],
        decreases n - i,
    {
        if a.get_char(i) != b.get_char(i) {
            return false;
        }
        i += 1;
    }
    assert(a@ =~= b@);
    true
}

/// Reads a mode name. The three names are matched exactly: no trimming, no
/// folding of case.
pub fn path_simplify_mode(s: &str) -> (mode: Result<PathSimplifyMode, UnknownMode>)
    ensures
        mode == match mode_named(s@) {
            Some(m) => Ok::<PathSimplifyMode, UnknownMode>(m),
            None => Err(UnknownMode),
        },
{
    if same_text(s, "polygon") {
        Ok(PathSimplifyMode::Polygon)
    } else if same_text(s, "spline") {
        Ok(PathSimplifyMode::Spline)
    } else if same_text(s, "none") {
        Ok(PathSimplifyMode::Pixel)
    } else {
        Err(UnknownMode)
    }
}

} // verus!
