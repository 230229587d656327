//! The decisions made while walking a directory: which files are searched.
use vstd::prelude::*;

verus! {

/// A file whose first bytes hold a zero byte is taken to be binary and
/// skipped.
pub fn is_binary_head(head: &[u8]) -> (r: bool)
    ensures
        r == head@.contains(0u8),
{
    let n = head.len();
    let mut i: usize = 0;
    while i < n
        invariant
            n == head@.len(),
            i <= n,
            forall|j: int| 0 <= j < i ==> head@[j] != 0u8,
        decreases n - i,
    {
        if head[i] == 0u8 {
            assert(head@[i as int] == 0u8);
            return true;
        }
        i = i + 1;
    }
    false
}

/// `extension` is present and one of `file_types`.
pub open spec fn listed_type(extension: Option<String>, file_types: Seq<Seq<char>>) -> bool {
    match extension {
        Some(e) => exists|i: int| 0 <= i < file_types.len() && #[trigger] file_types[i] == e@,
        None => false,
    }
}

/// A file is searched when no file types were given, or when its extension
/// (as text; `None` when it has none) is one of them.
pub fn extension_allowed(extension: &Option<String>, file_types: &Vec<String>) -> (r: bool)
    ensures
        r == (file_types@.len() == 0 || listed_type(*extension, file_types.deep_view())),
{
    if file_types.len() == 0 {
        return true;
    }
    match extension {
        None => false,
        Some(e) => {
            let n = file_types.len();
            let mut i: usize = 0;
            while i < n
                invariant
                    n == file_types@.len(),
                    i <= n,
                    *extension == Some(*e),
                    forall|j: int| 0 <= j < i ==> #[trigger] file_types.deep_view()[j] != e@,
                decreases n - i,
            {
                if file_types[i] == *e {
                    assert(file_types.deep_view()[i as int] == e@);
                    return true;
                }
                i = i + 1;
            }
            false
        },
    }
}

} // verus!
