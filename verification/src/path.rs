//! What a file name says about a file.

use vstd::prelude::*;
use vstd::string::StringSliceAdditionalSpecFns;

verus! {

/// How the bytes of an input are to be read.
#[derive(Clone, Copy, Debug, PartialEq, Eq, Structural)]
pub enum InputKind {
    /// Vector markup, to be rasterized.
    Vector,
    /// An encoded raster picture, to be decoded.
    Raster,
}

/// Whether `data` ends with the bytes of `suffix`.
pub open spec fn ends_with(data: Seq<u8>, suffix: Seq<u8>) -> bool {
    suffix.len() <= data.len() && data.subrange(data.len() - suffix.len(), data.len() as int)
        == suffix
}

/// Decides whether `data` ends with `suffix`.
pub fn has_suffix(data: &[u8], suffix: &[u8]) -> (found: bool)
    ensures
        found == ends_with(data@, suffix@),
{
    let length: usize = data.len();
    let tail: usize = suffix.len();
    if tail > length {
        return false;
    }
    let start: usize = length - tail;
    let mut at: usize = 0;
    while at < tail
        invariant
            at <= tail,
            tail == suffix@.len(),
            length == data@.len(),
            start == length - tail,
            forall|i: int| 0 <= i < at ==> data@[start + i] == suffix@[i],
        decreases tail - at,
    {
        if data[start + at] != suffix[at] {
            assert(data@.subrange(start as int, length as int)[at as int] != suffix@[at as int]);
            return false;
        }
        at += 1;
    }
    assert(data@.subrange(start as int, length as int) =~= suffix@);
    true
}

/// Whether a file of this name is an icon: its name ends with `.ico`.
pub fn is_icon_path(path: &str) -> (icon: bool)
    ensures
        icon == ends_with(path.spec_bytes(), ".ico".spec_bytes()),
{
    has_suffix(path.as_bytes(), ".ico".as_bytes())
}

/// How a file of this name is to be read: as vector markup if its name ends
/// with `.svg`, as a raster picture otherwise.
pub fn input_kind(path: &str) -> (kind: InputKind)
    ensures
        kind == if ends_with(path.spec_bytes(), ".svg".spec_bytes()) {
            InputKind::Vector
        } else {
            InputKind::Raster
        },
{
    if has_suffix(path.as_bytes(), ".svg".as_bytes()) {
        InputKind::Vector
    } else {
        InputKind::Raster
    }
}

} // verus!
