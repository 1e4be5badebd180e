//! The UPnP control point: discovery, description, control and eventing.

pub mod gena;
pub mod http_client;
pub mod soap;
pub mod ssdp;

pub use gena::{GenaClient, Subscription};
pub use http_client::{Device, DeviceDescription, HttpClient, Service};
pub use soap::SoapClient;
pub use ssdp::{SsdpClient, SsdpDevice, SsdpNotification, SsdpNotificationListener};

use crate::attributes::AttributeMap;
use crate::error::{ErrorKind, UpnpError, UpnpErrorView};
use crate::http::HttpRequest;
use gena::{event_message, renew_request, subscribe_request, unsubscribe_request};
use http_client::{description_request, plain_request, resolved_url, DeviceView, ServiceView};
use soap::{action_request, action_response};
use ssdp::{search_request, SsdpDeviceView, SsdpSearch};
use vstd::prelude::*;

verus! {

/// The control point: one client for each of the four protocols.
#[derive(Debug, Clone, Copy, PartialEq, Eq)]
pub struct UpnpControlPoint {
    ssdp_client: SsdpClient,
    http_client: HttpClient,
    soap_client: SoapClient,
    gena_client: GenaClient,
}

impl UpnpControlPoint {
    /// How long a search lasts, in milliseconds.
    pub closed spec fn timeout(&self) -> u64 {
        self.ssdp_client.timeout()
    }

    /// The port on which event notifications are taken.
    pub closed spec fn callback_port(&self) -> u16 {
        self.gena_client.callback_port()
    }

    /// A control point with searches of five seconds and notifications on
    /// the default port.
    pub fn new() -> (point: Result<UpnpControlPoint, UpnpError>)
        ensures
            point matches Ok(p) && p.timeout() == ssdp::DEFAULT_TIMEOUT_MS && p.callback_port()
                == gena::DEFAULT_CALLBACK_PORT,
    {
        Self::with_callback_port(gena::DEFAULT_CALLBACK_PORT)
    }

    /// A control point that takes event notifications on `port`.
    pub fn with_callback_port(port: u16) -> (point: Result<UpnpControlPoint, UpnpError>)
        ensures
            point matches Ok(p) && p.timeout() == ssdp::DEFAULT_TIMEOUT_MS && p.callback_port()
                == port,
    {
        match SsdpClient::new() {
            Ok(ssdp_client) => Ok(
                UpnpControlPoint {
                    ssdp_client,
                    http_client: HttpClient::new(),
                    soap_client: SoapClient::new(),
                    gena_client: GenaClient::new(port),
                },
            ),
            Err(error) => Err(error),
        }
    }

    /// The same control point with searches that last `timeout_ms`
    /// milliseconds.
    pub fn with_timeout(self, timeout_ms: u64) -> (point: UpnpControlPoint)
        ensures
            point.timeout() == timeout_ms,
            point.callback_port() == self.callback_port(),
    {
        UpnpControlPoint {
            ssdp_client: self.ssdp_client.with_timeout(timeout_ms),
            http_client: self.http_client,
            soap_client: self.soap_client,
            gena_client: self.gena_client,
        }
    }

    /// Starts a search for every device and service.
    pub fn discover_devices(&self) -> (search: SsdpSearch)
        ensures
            search.request@ == search_request("ssdp:all"@),
            search.destination@ == ssdp::MULTICAST_ADDRESS@,
            search.timeout_ms == self.timeout(),
            search.devices@.len() == 0,
    {
        self.ssdp_client.discover()
    }

    /// Starts a search for `search_target`.
    pub fn search_devices(&self, search_target: &str) -> (search: SsdpSearch)
        ensures
            search.request@ == search_request(search_target@),
            search.destination@ == ssdp::MULTICAST_ADDRESS@,
            search.timeout_ms == self.timeout(),
            search.devices@.len() == 0,
    {
        self.ssdp_client.search(search_target)
    }

    /// Builds the request that fetches the description at `location`.
    pub fn get_device_description(&self, location: &str) -> (request: HttpRequest)
        ensures
            request@ == description_request(location@),
    {
        self.http_client.get_device_description(location)
    }

    /// Builds the request that fetches the control schema at `scpd_url`,
    /// resolved against `base_url`.
    pub fn get_service_description(&self, base_url: &str, scpd_url: &str) -> (result: Result<
        HttpRequest,
        UpnpError,
    >)
        ensures
            match result {
                Ok(request) => resolved_url(base_url@, scpd_url@) matches Some(url) && request@
                    == plain_request(url),
                Err(error) => resolved_url(base_url@, scpd_url@) is None && error@ == (
                UpnpErrorView { kind: ErrorKind::InvalidUrl, status: 0, detail: scpd_url@ }),
            },
    {
        self.http_client.get_service_description(base_url, scpd_url)
    }

    /// Builds the request that invokes an action.
    pub fn invoke_action(
        &self,
        control_url: &str,
        service_type: &str,
        action_name: &str,
        arguments: &AttributeMap,
    ) -> (request: HttpRequest)
        ensures
            request@ == action_request(control_url@, service_type@, action_name@, arguments@),
    {
        self.soap_client.call_action(control_url, service_type, action_name, arguments)
    }

    /// Reads the results out of a response envelope.
    pub fn parse_soap_response(&self, xml: &str) -> (result: Result<AttributeMap, UpnpError>)
        ensures
            match result {
                Ok(found) => action_response(xml@) == Some(found@),
                Err(error) => action_response(xml@) is None && error@ == (UpnpErrorView {
                    kind: ErrorKind::Parse,
                    status: 0,
                    detail: "XML parse error"@,
                }),
            },
    {
        self.soap_client.parse_response(xml)
    }

    /// Opens a listener for presence notifications.
    pub fn listen_notifications(&self) -> (listener: Result<SsdpNotificationListener, UpnpError>)
        ensures
            listener matches Ok(l) && l == SsdpNotificationListener::settings(),
    {
        self.ssdp_client.listen_notifications()
    }

    /// Builds the request that subscribes to the events of a service.
    pub fn subscribe_events(
        &self,
        event_sub_url: &str,
        callback_urls: &[String],
        timeout: u32,
    ) -> (request: HttpRequest)
        ensures
            request@ == subscribe_request(
                event_sub_url@,
                callback_urls.deep_view(),
                self.callback_port(),
                timeout,
            ),
    {
        self.gena_client.subscribe(event_sub_url, callback_urls, timeout)
    }

    /// Builds the request that renews a subscription.
    pub fn renew_subscription(&self, subscription: &Subscription, timeout: u32) -> (request:
        HttpRequest)
        ensures
            request@ == renew_request(subscription@, timeout),
    {
        self.gena_client.renew(subscription, timeout)
    }

    /// Builds the request that ends a subscription.
    pub fn unsubscribe(&self, subscription: &Subscription) -> (request: HttpRequest)
        ensures
            request@ == unsubscribe_request(subscription@),
    {
        self.gena_client.unsubscribe(subscription)
    }

    /// Reads the body of an event notification.
    pub fn parse_event_message(body: &str) -> (result: Result<AttributeMap, UpnpError>)
        ensures
            match result {
                Ok(found) => event_message(body@) == Some(found@),
                Err(error) => event_message(body@) is None && error@ == (UpnpErrorView {
                    kind: ErrorKind::EventParse,
                    status: 0,
                    detail: "XML parse error"@,
                }),
            },
    {
        GenaClient::parse_event_message(body)
    }
}

impl Default for UpnpControlPoint {
    /// The control point with searches of five seconds and notifications on
    /// the default port.
    fn default() -> (point: UpnpControlPoint)
        ensures
            point.timeout() == ssdp::DEFAULT_TIMEOUT_MS,
            point.callback_port() == gena::DEFAULT_CALLBACK_PORT,
    {
        UpnpControlPoint {
            ssdp_client: SsdpClient::default(),
            http_client: HttpClient::new(),
            soap_client: SoapClient::new(),
            gena_client: GenaClient::default(),
        }
    }
}

/// A device announcement in the form in which it is handed on.
#[derive(Debug, Clone, PartialEq)]
pub struct DeviceInfo {
    pub location: String,
    pub usn: String,
    pub server: String,
    pub st: String,
    pub cache_control: String,
}

impl View for DeviceInfo {
    type V = SsdpDeviceView;

    open spec fn view(&self) -> SsdpDeviceView {
        SsdpDeviceView {
            location: self.location@,
            usn: self.usn@,
            server: self.server@,
            st: self.st@,
            cache_control: self.cache_control@,
        }
    }
}

impl From<SsdpDevice> for DeviceInfo {
    fn from(device: SsdpDevice) -> (info: DeviceInfo)
        ensures
            info@ == device@,
    {
        DeviceInfo {
            location: device.location,
            usn: device.usn,
            server: device.server,
            st: device.st,
            cache_control: device.cache_control,
        }
    }
}

impl vstd::std_specs::convert::FromSpecImpl<SsdpDevice> for DeviceInfo {
    open spec fn obeys_from_spec() -> bool {
        true
    }

    open spec fn from_spec(device: SsdpDevice) -> DeviceInfo {
        DeviceInfo {
            location: device.location,
            usn: device.usn,
            server: device.server,
            st: device.st,
            cache_control: device.cache_control,
        }
    }
}

/// What is handed on of a service.
#[derive(Debug, Clone, PartialEq)]
pub struct ServiceInfo {
    pub service_type: String,
    pub service_id: String,
    pub control_url: String,
}

/// The mathematical value of a [`ServiceInfo`].
pub ghost struct ServiceInfoView {
    pub service_type: Seq<char>,
    pub service_id: Seq<char>,
    pub control_url: Seq<char>,
}

impl View for ServiceInfo {
    type V = ServiceInfoView;

    open spec fn view(&self) -> ServiceInfoView {
        ServiceInfoView {
            service_type: self.service_type@,
            service_id: self.service_id@,
            control_url: self.control_url@,
        }
    }
}

impl DeepView for ServiceInfo {
    type V = ServiceInfoView;

    open spec fn deep_view(&self) -> ServiceInfoView {
        self@
    }
}

/// What is handed on of a device description.
#[derive(Debug, Clone, PartialEq)]
pub struct DeviceDescriptionInfo {
    pub device_type: String,
    pub friendly_name: String,
    pub manufacturer: String,
    pub model_name: String,
    pub udn: String,
    pub services: Vec<ServiceInfo>,
}

/// The mathematical value of a [`DeviceDescriptionInfo`].
pub ghost struct DeviceDescriptionInfoView {
    pub device_type: Seq<char>,
    pub friendly_name: Seq<char>,
    pub manufacturer: Seq<char>,
    pub model_name: Seq<char>,
    pub udn: Seq<char>,
    pub services: Seq<ServiceInfoView>,
}

impl View for DeviceDescriptionInfo {
    type V = DeviceDescriptionInfoView;

    open spec fn view(&self) -> DeviceDescriptionInfoView {
        DeviceDescriptionInfoView {
            device_type: self.device_type@,
            friendly_name: self.friendly_name@,
            manufacturer: self.manufacturer@,
            model_name: self.model_name@,
            udn: self.udn@,
            services: self.services.deep_view(),
        }
    }
}

/// What is handed on of `service`.
pub open spec fn service_summary(service: ServiceView) -> ServiceInfoView {
    ServiceInfoView {
        service_type: service.service_type,
        service_id: service.service_id,
        control_url: service.control_url,
    }
}

/// What is handed on of `device`: five of its fields, and of each service
/// its type, its identifier and its control address, in the same order.
pub open spec fn summary(device: DeviceView) -> DeviceDescriptionInfoView {
    DeviceDescriptionInfoView {
        device_type: device.device_type,
        friendly_name: device.friendly_name,
        manufacturer: device.manufacturer,
        model_name: device.model_name,
        udn: device.udn,
        services: Seq::new(device.services.len(), |i: int| service_summary(device.services[i])),
    }
}

impl From<DeviceDescription> for DeviceDescriptionInfo {
    fn from(desc: DeviceDescription) -> (info: DeviceDescriptionInfo)
        ensures
            info@ == summary(desc@),
    {
        let device = desc.device;
        let ghost all = device.service_list.services.deep_view();
        let mut services: Vec<ServiceInfo> = Vec::new();
        let mut i: usize = 0;
        while i < device.service_list.services.len()
            invariant
                0 <= i <= device.service_list.services.len(),
                all == device.service_list.services.deep_view(),
                services.len() == i,
                forall|j: int| 0 <= j < i ==> services.deep_view()[j] == service_summary(all[j]),
            decreases device.service_list.services.len() - i,
        {
            let service = &device.service_list.services[i];
            let ghost before = services.deep_view();
            services.push(
                ServiceInfo {
                    service_type: service.service_type.clone(),
                    service_id: service.service_id.clone(),
                    control_url: service.control_url.clone(),
                },
            );
            assert(services.deep_view() =~= before.push(service_summary(all[i as int])));
            i += 1;
        }
        let info = DeviceDescriptionInfo {
            device_type: device.device_type,
            friendly_name: device.friendly_name,
            manufacturer: device.manufacturer,
            model_name: device.model_name,
            udn: device.udn,
            services,
        };
        assert(info@.services =~= summary(desc@).services);
        info
    }
}

impl vstd::std_specs::convert::FromSpecImpl<DeviceDescription> for DeviceDescriptionInfo {
    open spec fn obeys_from_spec() -> bool {
        false
    }

    open spec fn from_spec(desc: DeviceDescription) -> DeviceDescriptionInfo {
        choose|info: DeviceDescriptionInfo| info@ == summary(desc@)
    }
}

} // verus!
