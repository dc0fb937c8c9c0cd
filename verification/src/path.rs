//! Paths as text, with `/` between their parts.

use vstd::prelude::*;
use vstd::string::*;

verus! {

/// `child` under the directory `base`. An absolute `child` stands alone; an
/// empty `base`, or one that ends in `/`, takes the child without another
/// separator.
pub open spec fn joined(base: Seq<char>, child: Seq<char>) -> Seq<char> {
    if child.len() > 0 && child[0] == '/' {
        child
    } else if base.len() == 0 || base.last() == '/' {
        base + child
    } else {
        base + seq!['/'] + child
    }
}

/// The path of `child` under the directory `base`.
pub fn join(base: &str, child: &str) -> (path: String)
    ensures
        path@ == joined(base@, child@),
{
    let child_len = child.unicode_len();
    if child_len > 0 && child.get_char(0) == '/' {
        return String::from_str(child);
    }
    let base_len = base.unicode_len();
    let mut path = String::from_str(base);
    if base_len > 0 && base.get_char(base_len - 1) != '/' {
        proof {
            reveal_strlit("/");
        }
        path.append("/");
        assert(path@ =~= base@ + seq!['/']);
    }
    path.append(child);
    path
}

} // verus!
