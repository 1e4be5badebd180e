//! The system group, 1.3.6.1.2.1.1.

use vstd::prelude::*;

verus! {

pub const SYS_DESCR: &'static str = "1.3.6.1.2.1.1.1.0";

pub const SYS_OBJECT_ID: &'static str = "1.3.6.1.2.1.1.2.0";

pub const SYS_UPTIME: &'static str = "1.3.6.1.2.1.1.3.0";

pub const SYS_CONTACT: &'static str = "1.3.6.1.2.1.1.4.0";

pub const SYS_NAME: &'static str = "1.3.6.1.2.1.1.5.0";

pub const SYS_LOCATION: &'static str = "1.3.6.1.2.1.1.6.0";

pub const SYS_SERVICES: &'static str = "1.3.6.1.2.1.1.7.0";

} // verus!
