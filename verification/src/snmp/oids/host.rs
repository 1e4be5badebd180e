//! Host resources, 1.3.6.1.2.1.25.

use vstd::prelude::*;

verus! {

pub const HR_SYSTEM_UPTIME: &'static str = "1.3.6.1.2.1.25.1.1.0";

pub const HR_SYSTEM_PROCESSES: &'static str = "1.3.6.1.2.1.25.1.6.0";

pub const HR_STORAGE_TABLE: &'static str = "1.3.6.1.2.1.25.2.3";

pub const HR_PROCESSOR_LOAD: &'static str = "1.3.6.1.2.1.25.3.3.1.2";

} // verus!
