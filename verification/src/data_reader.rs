use vstd::prelude::*;

use crate::text::{lowercase, same_text, to_lowercase};

verus! {

broadcast use vstd::seq_lib::group_to_multiset_ensures;

/// Where one image lies in the texture atlas.
#[derive(Clone, Copy, PartialEq, Eq, Structural, Debug)]
pub struct AtlasEntry {
    pub x: u32,
    pub y: u32,
    pub width: u32,
    pub height: u32,
    pub rotated: u32,
}

/// The number of pixels an entry covers.
pub open spec fn area(e: AtlasEntry) -> int {
    e.width * e.height
}

/// The entries of `s` with the given area, in their order in `s`.
pub open spec fn with_area(s: Seq<AtlasEntry>, a: int) -> Seq<AtlasEntry> {
    s.filter(|e: AtlasEntry| area(e) == a)
}

/// Larger entries come first.
pub open spec fn largest_first(s: Seq<AtlasEntry>) -> bool {
    forall|i: int, j: int| 0 <= i <= j < s.len() ==> area(#[trigger] s[j]) <= area(#[trigger] s[i])
}

impl AtlasEntry {
    fn area(&self) -> (result: u32)
        requires
            area(*self) <= u32::MAX,
        ensures
            result == area(*self),
    {
        self.width * self.height
    }
}

proof fn lemma_filter_insert(s: Seq<AtlasEntry>, j: int, x: AtlasEntry, a: int)
    requires
        0 <= j <= s.len(),
        forall|k: int| 0 <= k < j ==> area(#[trigger] s[k]) >= area(x),
        forall|k: int| j <= k < s.len() ==> area(#[trigger] s[k]) < area(x),
    ensures
        with_area(s.insert(j, x), a) == if a == area(x) {
            with_area(s, a).push(x)
        } else {
            with_area(s, a)
        },
{
    let f = |e: AtlasEntry| area(e) == a;
    let front = s.subrange(0, j);
    let back = s.subrange(j, s.len() as int);
    assert(s =~= front + back);
    assert(s.insert(j, x) =~= front.push(x) + back);
    Seq::filter_distributes_over_add(front, back, f);
    Seq::filter_distributes_over_add(front.push(x), back, f);
    front.lemma_filter_push(x, f);
    if a == area(x) {
        assert(back.filter(f) =~= Seq::<AtlasEntry>::empty()) by {
            back.lemma_all_neg_filter_empty(f);
        }
    }
}

/// Sorts the atlas entries largest first, keeping entries of equal area in the
/// order they came in, as the stable `sort_by` on the descending area does.
pub fn sort_atlas_entries(entries: &Vec<AtlasEntry>) -> (result: Vec<AtlasEntry>)
    requires
        entries@.len() <= 1 || forall|i: int|
            0 <= i < entries@.len() ==> area(#[trigger] entries@[i]) <= u32::MAX,
    ensures
        largest_first(result@),
        result@.to_multiset() == entries@.to_multiset(),
        forall|a: int| #[trigger] with_area(result@, a) == with_area(entries@, a),
{
    if entries.len() <= 1 {
        let result = entries.clone();
        assert(result@ =~= entries@);
        return result;
    }
    let mut out: Vec<AtlasEntry> = Vec::new();
    let mut i: usize = 0;
    while i < entries.len()
        invariant
            i <= entries@.len(),
            forall|k: int| 0 <= k < entries@.len() ==> area(#[trigger] entries@[k]) <= u32::MAX,
            forall|k: int| 0 <= k < out@.len() ==> area(#[trigger] out@[k]) <= u32::MAX,
            largest_first(out@),
            out@.to_multiset() == entries@.take(i as int).to_multiset(),
            forall|a: int| #[trigger] with_area(out@, a) == with_area(entries@.take(i as int), a),
        decreases entries@.len() - i,
    {
        let x = entries[i];
        let ax = x.area();
        let mut j: usize = 0;
        while j < out.len() && out[j].area() >= ax
            invariant
                j <= out@.len(),
                ax == area(x),
                forall|k: int| 0 <= k < out@.len() ==> area(#[trigger] out@[k]) <= u32::MAX,
                forall|k: int| 0 <= k < j ==> area(#[trigger] out@[k]) >= area(x),
            decreases out@.len() - j,
        {
            j = j + 1;
        }
        let ghost before = out@;
        proof {
            assert forall|k: int| j <= k < before.len() implies area(#[trigger] before[k]) < area(
                x,
            ) by {
                assert(area(before[j as int]) < area(x));
                assert(area(before[k]) <= area(before[j as int]));
            }
        }
        out.insert(j, x);
        proof {
            assert(out@ == before.insert(j as int, x));
            let taken = entries@.take(i as int);
            assert(entries@.take(i + 1) =~= taken.push(x));
            assert forall|a: int| #[trigger] with_area(out@, a) == with_area(
                entries@.take(i + 1),
                a,
            ) by {
                lemma_filter_insert(before, j as int, x, a);
                taken.lemma_filter_push(x, |e: AtlasEntry| area(e) == a);
            }
            assert forall|a: int, b: int| 0 <= a <= b < out@.len() implies area(
                #[trigger] out@[b],
            ) <= area(#[trigger] out@[a]) by {
                if b < j {
                } else if a > j {
                    assert(out@[a] == before[a - 1]);
                    assert(out@[b] == before[b - 1]);
                } else if a == j && b == j {
                } else if a == j {
                    assert(out@[b] == before[b - 1]);
                } else if b == j {
                    assert(out@[a] == before[a]);
                } else {
                    assert(out@[a] == before[a]);
                    assert(out@[b] == before[b - 1]);
                }
            }
            assert forall|k: int| 0 <= k < out@.len() implies area(#[trigger] out@[k])
                <= u32::MAX by {
                if k < j {
                    assert(out@[k] == before[k]);
                } else if k > j {
                    assert(out@[k] == before[k - 1]);
                }
            }
        }
        i = i + 1;
    }
    assert(entries@.take(entries@.len() as int) =~= entries@);
    out
}

/// Why a file's extension was refused.
#[derive(Clone, Copy, PartialEq, Eq, Structural, Debug)]
pub enum ExtensionError {
    /// The path has no extension.
    Missing,
    /// The extension is not one that can be read.
    Unsupported,
}

/// The image file types that can be read, by lowercase extension.
pub open spec fn supported_image_extension(ext: Seq<char>) -> bool {
    ext == "png"@ || ext == "webp"@ || ext == "jpg"@
}

/// The image extensions that can be read, in the order the error message lists them.
pub fn supported_extensions() -> (result: Vec<&'static str>)
    ensures
        result@.len() == 3,
        result@[0]@ == "png"@,
        result@[1]@ == "webp"@,
        result@[2]@ == "jpg"@,
{
    let mut result: Vec<&'static str> = Vec::new();
    result.push("png");
    result.push("webp");
    result.push("jpg");
    result
}

/// Checks the extension of an image path: there must be one, and in lowercase
/// it must be one of the supported image types.
pub fn check_image_extension(ext: Option<&str>) -> (result: Result<(), ExtensionError>)
    ensures
        result == match ext {
            None => Err(ExtensionError::Missing),
            Some(e) => if supported_image_extension(lowercase(e@)) {
                Ok(())
            } else {
                Err(ExtensionError::Unsupported)
            },
        },
{
    match ext {
        None => Err(ExtensionError::Missing),
        Some(e) => {
            let low = to_lowercase(e);
            let l = low.as_str();
            if same_text(l, "png") || same_text(l, "webp") || same_text(l, "jpg") {
                Ok(())
            } else {
                Err(ExtensionError::Unsupported)
            }
        },
    }
}

/// Checks the extension of the atlas json path: there must be one, and in
/// lowercase it must be `json`.
pub fn check_json_extension(ext: Option<&str>) -> (result: Result<(), ExtensionError>)
    ensures
        result == match ext {
            None => Err(ExtensionError::Missing),
            Some(e) => if lowercase(e@) == "json"@ {
                Ok(())
            } else {
                Err(ExtensionError::Unsupported)
            },
        },
{
    match ext {
        None => Err(ExtensionError::Missing),
        Some(e) => {
            let low = to_lowercase(e);
            if same_text(low.as_str(), "json") {
                Ok(())
            } else {
                Err(ExtensionError::Unsupported)
            }
        },
    }
}

} // verus!
