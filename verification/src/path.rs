//! Locations as `/`-separated text, and what stands at one.

use vstd::prelude::*;
use vstd::string::*;

verus! {

/// What was found at a location.
#[derive(Clone, Copy, Debug, PartialEq, Eq, Structural)]
pub enum PathKind {
    /// Nothing is there.
    Missing,
    /// A regular file.
    File,
    /// A directory.
    Directory,
    /// Something else.
    Other,
}

/// `part` below `base`: the two with one `/` between them, which is left
/// out where `base` is empty or already ends in one.
pub open spec fn join(base: Seq<char>, part: Seq<char>) -> Seq<char> {
    if base.len() == 0 || base.last() == '/' {
        base + part
    } else {
        base + seq!['/'] + part
    }
}

/// `parts` below `base`, each below the one before.
pub open spec fn join_all(base: Seq<char>, parts: Seq<&str>) -> Seq<char>
    decreases parts.len(),
{
    if parts.len() == 0 {
        base
    } else {
        join(join_all(base, parts.drop_last()), parts.last()@)
    }
}

/// The location of `part` below `base`.
pub fn join_path(base: &str, part: &str) -> (joined: String)
    ensures
        joined@ == join(base@, part@),
{
    let n = base.unicode_len();
    let mut joined = String::from_str(base);
    if n > 0 && base.get_char(n - 1) != '/' {
        proof {
            reveal_strlit("/");
        }
        joined.append("/");
        assert(joined@ =~= base@ + seq!['/']);
    }
    joined.append(part);
    joined
}

/// The location of `parts` below `base`, each below the one before.
pub fn join_paths(base: &str, parts: &[&str]) -> (joined: String)
    ensures
        joined@ == join_all(base@, parts@),
{
    let mut joined = String::from_str(base);
    let mut i: usize = 0;
    while i < parts.len()
        invariant
            i <= parts.len(),
            joined@ == join_all(base@, parts@.subrange(0, i as int)),
        decreases parts.len() - i,
    {
        joined = join_path(joined.as_str(), parts[i]);
        proof {
            assert(parts@.subrange(0, i + 1).drop_last() =~= parts@.subrange(0, i as int));
        }
        i += 1;
    }
    proof {
        assert(parts@.subrange(0, i as int) =~= parts@);
    }
    joined
}

} // verus!
