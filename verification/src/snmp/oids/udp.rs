//! The UDP group, 1.3.6.1.2.1.7.

use vstd::prelude::*;

verus! {

pub const UDP_IN_DATAGRAMS: &'static str = "1.3.6.1.2.1.7.1.0";

pub const UDP_OUT_DATAGRAMS: &'static str = "1.3.6.1.2.1.7.4.0";

} // verus!
