//! Command-line arguments of the runtimes.

use vstd::prelude::*;
use crate::text::{join2, str_eq};

verus! {

/// Position of the first argument equal to `name`.
pub open spec fn first_arg(args: Seq<String>, name: Seq<char>) -> Option<int> {
    if exists|i: int| 0 <= i < args.len() && args[i]@ == name && forall|j: int| 0 <= j < i ==> #[trigger] args[j]@ != name {
        Some(choose|i: int| 0 <= i < args.len() && args[i]@ == name && forall|j: int| 0 <= j < i ==> #[trigger] args[j]@ != name)
    } else {
        None
    }
}

/// The value that follows the first `name` among `args`: an error when
/// `name` is absent ("missing required argument: <name>") or last
/// ("missing value for <name>").
pub fn required_arg(args: &[String], name: &str) -> (r: Result<String, String>)
    ensures
        first_arg(args@, name@) is None ==> (r matches Err(e) && e@ == "missing required argument: "@ + name@),
        first_arg(args@, name@) matches Some(i) ==> if i + 1 < args@.len() {
            r matches Ok(v) && v@ == args@[i + 1]@
        } else {
            r matches Err(e) && e@ == "missing value for "@ + name@
        },
{
    let mut i: usize = 0;
    while i < args.len()
        invariant
            i <= args@.len(),
            forall|j: int| 0 <= j < i ==> #[trigger] args@[j]@ != name@,
        decreases args@.len() - i,
    {
        if str_eq(args[i].as_str(), name) {
            proof {
                let w = choose|w: int| 0 <= w < args@.len() && args@[w]@ == name@
                    && forall|j: int| 0 <= j < w ==> #[trigger] args@[j]@ != name@;
                assert(w == i as int) by {
                    if w > i {
                        assert(args@[i as int]@ != name@);
                    }
                }
            }
            if i + 1 < args.len() {
                return Ok(args[i + 1].clone());
            }
            return Err(join2("missing value for ", name));
        }
        i = i + 1;
    }
    Err(join2("missing required argument: ", name))
}

} // verus!
