//! The configuration choices of the gRPC server.

use vstd::prelude::*;

verus! {

/// The address the server listens on by default.
pub open spec fn default_server_address() -> Seq<char> {
    "0.0.0.0:8080"@
}

/// The address to listen on: the configured one (`MICRO_SERVER_ADDRESS`)
/// where there is one, else `0.0.0.0:8080`.
pub fn server_address(configured: Option<String>) -> (address: String)
    ensures
        address@ == match configured {
            Some(a) => a@,
            None => default_server_address(),
        },
{
    match configured {
        Some(a) => a,
        None => "0.0.0.0:8080".to_owned(),
    }
}

/// Whether the Tokio runtime metrics are collected: exactly when the
/// configured flag (`GEAR_ENABLE_TOKIO_METRICS`) is present and is `"1"`.
pub fn tokio_metrics_enabled(configured: Option<&str>) -> (enabled: bool)
    ensures
        enabled == match configured {
            Some(v) => v@ == seq!['1'],
            None => false,
        },
{
    match configured {
        Some(v) => {
            let n = v.unicode_len();
            if n == 1 {
                let c = v.get_char(0);
                assert(v@ =~= seq![v@[0]]);
                c == '1'
            } else {
                false
            }
        },
        None => false,
    }
}

} // verus!
