//! The interface of an SNMP client: the typed values, the well-known object
//! identifiers and a client whose operations are all unsupported. It sends
//! nothing.

pub mod oids;

use vstd::prelude::*;

verus! {

/// The timeout of a new client, in milliseconds.
pub const DEFAULT_TIMEOUT_MS: u64 = 5000;

/// The protocol version.
#[derive(Debug, Clone, Copy, PartialEq, Eq, Structural)]
pub enum SnmpVersion {
    V1,
    V2c,
    V3,
}

/// A value bound to an object identifier.
#[derive(Debug, Clone, PartialEq)]
pub enum SnmpValue {
    Integer(i64),
    String(String),
    OID(String),
    IpAddress(String),
    Counter32(u32),
    Gauge32(u32),
    TimeTicks(u32),
    Opaque(Vec<u8>),
    Counter64(u64),
    Null,
}

/// An object identifier with its value.
#[derive(Debug, Clone, PartialEq)]
pub struct SnmpResponse {
    pub oid: String,
    pub value: SnmpValue,
}

/// The system group of a device.
#[derive(Debug, Clone, PartialEq)]
pub struct SystemInfo {
    pub sys_descr: String,
    pub sys_name: String,
    pub sys_location: String,
    pub sys_contact: String,
    pub sys_uptime: u32,
}

/// The kind of a trap.
#[derive(Debug, Clone, Copy, PartialEq, Eq, Structural)]
pub enum TrapType {
    V1,
    V2,
}

/// A trap as a device sends it.
#[derive(Debug, Clone, PartialEq)]
pub struct SnmpTrap {
    pub trap_type: TrapType,
    pub agent_addr: String,
    pub enterprise: String,
    pub generic_trap: u32,
    pub specific_trap: u32,
    pub timestamp: u32,
    pub varbinds: Vec<SnmpResponse>,
}

/// The refusal of an operation, with the text that explains it.
#[derive(Debug, Clone, PartialEq)]
pub struct SnmpError {
    pub message: String,
}

/// What `connect` answers.
pub open spec fn connect_refusal() -> Seq<char> {
    "SNMP 是框架实现。请使用专用库如 snmp-mp、snmp-usm 或 snmp-parser。\n\n示例:\n  snmp-mp = \"0.1\"\n  snmp-usm = \"0.3\""@
}

/// What every request of the client answers.
pub open spec fn request_refusal() -> Seq<char> {
    "请使用专用 SNMP 库实现"@
}

/// What the trap listener answers when asked for a trap.
pub open spec fn trap_refusal() -> Seq<char> {
    "请使用专用 SNMP 库实现 TRAP 接收"@
}

/// The refusal that every request answers.
fn unsupported() -> (e: SnmpError)
    ensures
        e.message@ == request_refusal(),
{
    SnmpError { message: "请使用专用 SNMP 库实现".to_owned() }
}

/// The settings of an SNMP client.
#[derive(Debug, Clone, PartialEq)]
pub struct SnmpClient {
    pub community: String,
    pub version: SnmpVersion,
    pub timeout_ms: u64,
}

impl SnmpClient {
    /// A client for `community` that speaks version 2c and waits five
    /// seconds.
    pub fn new(community: String) -> (client: Result<SnmpClient, SnmpError>)
        ensures
            client matches Ok(c) && c.community@ == community@ && c.version == SnmpVersion::V2c
                && c.timeout_ms == DEFAULT_TIMEOUT_MS,
    {
        Ok(SnmpClient { community, version: SnmpVersion::V2c, timeout_ms: DEFAULT_TIMEOUT_MS })
    }

    /// The same client for another version.
    pub fn with_version(self, version: SnmpVersion) -> (client: SnmpClient)
        ensures
            client == (SnmpClient { version, ..self }),
    {
        let mut client = self;
        client.version = version;
        client
    }

    /// The same client with another timeout, in milliseconds.
    pub fn with_timeout(self, timeout_ms: u64) -> (client: SnmpClient)
        ensures
            client == (SnmpClient { timeout_ms, ..self }),
    {
        let mut client = self;
        client.timeout_ms = timeout_ms;
        client
    }

    /// Refuses to connect, and leaves the client as it was.
    pub fn connect(&mut self, _target: &str) -> (result: Result<(), SnmpError>)
        ensures
            *final(self) == *old(self),
            result matches Err(e) && e.message@ == connect_refusal(),
    {
        Err(
            SnmpError {
                message: "SNMP 是框架实现。请使用专用库如 snmp-mp、snmp-usm 或 snmp-parser。\n\n示例:\n  snmp-mp = \"0.1\"\n  snmp-usm = \"0.3\"".to_owned(),
            },
        )
    }

    /// Refuses the request.
    pub fn get(&self, _oid: &str) -> (result: Result<SnmpResponse, SnmpError>)
        ensures
            result matches Err(e) && e.message@ == request_refusal(),
    {
        Err(unsupported())
    }

    /// Refuses the request.
    pub fn get_next(&self, _oid: &str) -> (result: Result<SnmpResponse, SnmpError>)
        ensures
            result matches Err(e) && e.message@ == request_refusal(),
    {
        Err(unsupported())
    }

    /// Refuses the request.
    pub fn walk(&self, _base_oid: &str) -> (result: Result<Vec<SnmpResponse>, SnmpError>)
        ensures
            result matches Err(e) && e.message@ == request_refusal(),
    {
        Err(unsupported())
    }

    /// Refuses the request.
    pub fn get_system_info(&self) -> (result: Result<SystemInfo, SnmpError>)
        ensures
            result matches Err(e) && e.message@ == request_refusal(),
    {
        Err(unsupported())
    }

    /// Refuses the request.
    pub fn get_integer(&self, _oid: &str) -> (result: Result<i64, SnmpError>)
        ensures
            result matches Err(e) && e.message@ == request_refusal(),
    {
        Err(unsupported())
    }

    /// Refuses the request.
    pub fn get_bulk(&self, _oids: &[&str]) -> (result: Result<Vec<SnmpResponse>, SnmpError>)
        ensures
            result matches Err(e) && e.message@ == request_refusal(),
    {
        Err(unsupported())
    }

    /// Refuses the request.
    pub fn set(&self, _oid: &str, _value: SnmpValue) -> (result: Result<(), SnmpError>)
        ensures
            result matches Err(e) && e.message@ == request_refusal(),
    {
        Err(unsupported())
    }
}

impl Default for SnmpClient {
    fn default() -> (client: SnmpClient)
        ensures
            client.community@ == "public"@,
            client.version == SnmpVersion::V2c,
            client.timeout_ms == DEFAULT_TIMEOUT_MS,
    {
        SnmpClient {
            community: "public".to_owned(),
            version: SnmpVersion::V2c,
            timeout_ms: DEFAULT_TIMEOUT_MS,
        }
    }
}

/// The settings of a trap listener.
#[derive(Debug, Clone, PartialEq)]
pub struct SnmpTrapListener {
    pub bind_addr: String,
}

impl SnmpTrapListener {
    /// A listener for `bind_addr`.
    pub fn new(bind_addr: String) -> (listener: Result<SnmpTrapListener, SnmpError>)
        ensures
            listener matches Ok(l) && l.bind_addr@ == bind_addr@,
    {
        Ok(SnmpTrapListener { bind_addr })
    }

    /// Refuses to receive.
    pub fn recv(&self) -> (result: Result<SnmpTrap, SnmpError>)
        ensures
            result matches Err(e) && e.message@ == trap_refusal(),
    {
        Err(SnmpError { message: "请使用专用 SNMP 库实现 TRAP 接收".to_owned() })
    }

    /// Refuses the setting, and leaves the listener as it was.
    pub fn set_timeout(&mut self, _timeout_ms: u64) -> (result: Result<(), SnmpError>)
        ensures
            *final(self) == *old(self),
            result matches Err(e) && e.message@ == request_refusal(),
    {
        Err(unsupported())
    }
}

impl Default for SnmpTrapListener {
    fn default() -> (listener: SnmpTrapListener)
        ensures
            listener.bind_addr@ == "0.0.0.0:1162"@,
    {
        SnmpTrapListener { bind_addr: "0.0.0.0:1162".to_owned() }
    }
}

} // verus!
