//! Control-point building blocks for local-network device discovery: the
//! UPnP control point, a cache for services found by a browse, and the
//! interface of an SNMP client.
//!
//! Nothing here touches the network. The control point says which datagram
//! or request to send and reads what came back; sending and receiving are
//! left to the caller.

pub mod attributes;
pub mod error;
pub mod helper;
pub mod http;
pub mod mdns;
pub mod snmp;
pub mod text;
pub mod upnp;
pub mod xml;

pub use attributes::AttributeMap;
pub use error::{ErrorKind, UpnpError};
pub use http::{HttpRequest, HttpResponse};
pub use mdns::{MdnsService, ServiceCache};
pub use snmp::{
    SnmpClient, SnmpResponse, SnmpTrap, SnmpTrapListener, SnmpValue, SnmpVersion, SystemInfo,
    TrapType,
};
pub use upnp::{
    Device, DeviceDescription, DeviceDescriptionInfo, DeviceInfo, Service, SsdpDevice,
    SsdpNotification, Subscription, UpnpControlPoint,
};
