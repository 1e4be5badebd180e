//! The TCP group, 1.3.6.1.2.1.6.

use vstd::prelude::*;

verus! {

pub const TCP_CURR_ESTAB: &'static str = "1.3.6.1.2.1.6.9.0";

pub const TCP_IN_SEGS: &'static str = "1.3.6.1.2.1.6.10.0";

pub const TCP_OUT_SEGS: &'static str = "1.3.6.1.2.1.6.11.0";

} // verus!
