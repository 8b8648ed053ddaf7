use vstd::prelude::*;
use crate::error::LabelError;

verus! {

/// Whether `i` is the first candidate that is present.
pub open spec fn first_present(present: Seq<bool>, i: int) -> bool {
    &&& 0 <= i < present.len()
    &&& present[i]
    &&& forall|j: int| 0 <= j < i ==> !present[j]
}

/// Picks the font to load from an ordered list of candidates, given for each
/// whether it is present: the first one that is. Fails with
/// `FontUnavailable` exactly when none is.
pub fn resolve_font(present: &Vec<bool>) -> (outcome: Result<usize, LabelError>)
    ensures
        outcome is Ok ==> first_present(present@, outcome->Ok_0 as int),
        outcome is Err ==> outcome->Err_0 == LabelError::FontUnavailable && forall|j: int|
            0 <= j < present@.len() ==> !present@[j],
{
    let mut i: usize = 0;
    while i < present.len()
        invariant
            i <= present@.len(),
            forall|j: int| 0 <= j < i ==> !present@[j],
        decreases present@.len() - i,
    {
        if present[i] {
            return Ok(i);
        }
        i = i + 1;
    }
    Err(LabelError::FontUnavailable)
}

/// Where a font with CJK glyphs is looked for on Windows, best first.
pub open spec fn windows_candidates() -> Seq<Seq<char>> {
    seq![
        "C:\\Windows\\Fonts\\simhei.ttf"@,
        "C:\\Windows\\Fonts\\simsun.ttc"@,
        "C:\\Windows\\Fonts\\msyh.ttc"@,
        "C:\\Windows\\Fonts\\simkai.ttf"@,
    ]
}

/// Where a font with CJK glyphs is looked for elsewhere, best first.
pub open spec fn unix_candidates() -> Seq<Seq<char>> {
    seq![
        "/usr/share/fonts/truetype/wqy/wqy-zenhei.ttc"@,
        "/usr/share/fonts/truetype/droid/DroidSansFallbackFull.ttf"@,
        "/System/Library/Fonts/PingFang.ttc"@,
    ]
}

/// The texts of a list of string slices.
pub open spec fn slice_texts(strings: Seq<&'static str>) -> Seq<Seq<char>> {
    Seq::new(strings.len(), |i: int| strings[i]@)
}

/// The ordered list of places where a font with CJK glyphs is looked for.
pub fn font_candidates(windows: bool) -> (paths: Vec<&'static str>)
    ensures
        slice_texts(paths@) == if windows {
            windows_candidates()
        } else {
            unix_candidates()
        },
{
    let mut paths: Vec<&'static str> = Vec::new();
    if windows {
        paths.push("C:\\Windows\\Fonts\\simhei.ttf");
        paths.push("C:\\Windows\\Fonts\\simsun.ttc");
        paths.push("C:\\Windows\\Fonts\\msyh.ttc");
        paths.push("C:\\Windows\\Fonts\\simkai.ttf");
        assert(slice_texts(paths@) =~= windows_candidates());
    } else {
        paths.push("/usr/share/fonts/truetype/wqy/wqy-zenhei.ttc");
        paths.push("/usr/share/fonts/truetype/droid/DroidSansFallbackFull.ttf");
        paths.push("/System/Library/Fonts/PingFang.ttc");
        assert(slice_texts(paths@) =~= unix_candidates());
    }
    paths
}

} // verus!
