//! The IP group, 1.3.6.1.2.1.4.

use vstd::prelude::*;

verus! {

pub const IP_FORWARDING: &'static str = "1.3.6.1.2.1.4.1.0";

pub const IP_IN_RECEIVES: &'static str = "1.3.6.1.2.1.4.3.0";

pub const IP_IN_HDR_ERRORS: &'static str = "1.3.6.1.2.1.4.4.0";

pub const IP_FORW_DATAGRAMS: &'static str = "1.3.6.1.2.1.4.6.0";

} // verus!
