//! The interfaces group, 1.3.6.1.2.1.2.

use vstd::prelude::*;

verus! {

pub const IF_NUMBER: &'static str = "1.3.6.1.2.1.2.1.0";

pub const IF_TABLE: &'static str = "1.3.6.1.2.1.2.2";

pub const IF_DESCR: &'static str = "1.3.6.1.2.1.2.2.1.2";

pub const IF_TYPE: &'static str = "1.3.6.1.2.1.2.2.1.3";

pub const IF_MTU: &'static str = "1.3.6.1.2.1.2.2.1.4";

pub const IF_SPEED: &'static str = "1.3.6.1.2.1.2.2.1.5";

pub const IF_PHYS_ADDRESS: &'static str = "1.3.6.1.2.1.2.2.1.6";

pub const IF_ADMIN_STATUS: &'static str = "1.3.6.1.2.1.2.2.1.7";

pub const IF_OPER_STATUS: &'static str = "1.3.6.1.2.1.2.2.1.8";

pub const IF_IN_OCTETS: &'static str = "1.3.6.1.2.1.2.2.1.10";

pub const IF_OUT_OCTETS: &'static str = "1.3.6.1.2.1.2.2.1.16";

} // verus!
