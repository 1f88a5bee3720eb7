//! The labels under which the server records how long a request took.

use vstd::prelude::*;

verus! {

/// The labels `(method, status, caller)` of a request for `path`, made by
/// the service `caller` (read from `x-micro-from-service`), that succeeded
/// or failed.
pub fn request_duration_labels<'a>(path: &'a str, caller: Option<&'a str>, succeeded: bool) -> (r: (
    &'a str,
    &'static str,
    &'a str,
))
    ensures
        r.0@ == path@,
        r.1@ == (if succeeded {
            "success"@
        } else {
            "fail"@
        }),
        r.2@ == match caller {
            Some(c) => c@,
            None => Seq::<char>::empty(),
        },
{
    let status = if succeeded {
        "success"
    } else {
        "fail"
    };
    let caller = match caller {
        Some(c) => c,
        None => {
            proof {
                reveal_strlit("");
            }
            ""
        },
    };
    (path, status, caller)
}

} // verus!
