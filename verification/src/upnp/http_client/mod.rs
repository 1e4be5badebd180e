//! Device descriptions: the requests that fetch them, the reading of the
//! description document, and the resolving of the addresses inside it.

pub mod document;
pub mod laws;

use crate::error::{ErrorKind, UpnpError, UpnpErrorView};
use crate::http::{header, is_success, HttpRequest, HttpRequestView, HttpResponse};
use crate::text::{chars_of, has_prefix, starts_with};
use crate::xml::{read_events, XmlEvent};
use document::{description_of, device_description};
use vstd::prelude::*;

verus! {

/// The error of the `url` crate. For Verus it is an opaque value.
#[verifier::external_type_specification]
#[verifier::external_body]
pub struct ExParseError(url::ParseError);

/// One service of a device.
#[derive(Debug, Clone, PartialEq)]
pub struct Service {
    pub service_type: String,
    pub service_id: String,
    pub scpd_url: String,
    pub control_url: String,
    pub event_sub_url: String,
}

/// The mathematical value of a [`Service`].
pub ghost struct ServiceView {
    pub service_type: Seq<char>,
    pub service_id: Seq<char>,
    pub scpd_url: Seq<char>,
    pub control_url: Seq<char>,
    pub event_sub_url: Seq<char>,
}

impl View for Service {
    type V = ServiceView;

    open spec fn view(&self) -> ServiceView {
        ServiceView {
            service_type: self.service_type@,
            service_id: self.service_id@,
            scpd_url: self.scpd_url@,
            control_url: self.control_url@,
            event_sub_url: self.event_sub_url@,
        }
    }
}

impl DeepView for Service {
    type V = ServiceView;

    open spec fn deep_view(&self) -> ServiceView {
        self@
    }
}

/// The services of a device, in the order of the document.
#[derive(Debug, Clone, PartialEq)]
pub struct ServiceList {
    pub services: Vec<Service>,
}

impl Default for ServiceList {
    fn default() -> (list: ServiceList)
        ensures
            list.services@.len() == 0,
    {
        ServiceList { services: Vec::new() }
    }
}

/// A device as its description document presents it.
#[derive(Debug, Clone, PartialEq)]
pub struct Device {
    pub device_type: String,
    pub friendly_name: String,
    pub manufacturer: String,
    pub manufacturer_url: String,
    pub model_description: String,
    pub model_name: String,
    pub model_number: String,
    pub model_url: String,
    pub serial_number: String,
    pub udn: String,
    pub service_list: ServiceList,
}

/// The mathematical value of a [`Device`].
pub ghost struct DeviceView {
    pub device_type: Seq<char>,
    pub friendly_name: Seq<char>,
    pub manufacturer: Seq<char>,
    pub manufacturer_url: Seq<char>,
    pub model_description: Seq<char>,
    pub model_name: Seq<char>,
    pub model_number: Seq<char>,
    pub model_url: Seq<char>,
    pub serial_number: Seq<char>,
    pub udn: Seq<char>,
    pub services: Seq<ServiceView>,
}

impl View for Device {
    type V = DeviceView;

    open spec fn view(&self) -> DeviceView {
        DeviceView {
            device_type: self.device_type@,
            friendly_name: self.friendly_name@,
            manufacturer: self.manufacturer@,
            manufacturer_url: self.manufacturer_url@,
            model_description: self.model_description@,
            model_name: self.model_name@,
            model_number: self.model_number@,
            model_url: self.model_url@,
            serial_number: self.serial_number@,
            udn: self.udn@,
            services: self.service_list.services.deep_view(),
        }
    }
}

/// A description document: the root device.
#[derive(Debug, Clone, PartialEq)]
pub struct DeviceDescription {
    pub device: Device,
}

impl View for DeviceDescription {
    type V = DeviceView;

    open spec fn view(&self) -> DeviceView {
        self.device@
    }
}

/// What resolving `reference` against `base` gives, as the `url` crate
/// does it; none where it reports an error.
pub uninterp spec fn joined_url(base: Seq<char>, reference: Seq<char>) -> Option<Seq<char>>;

/// `url::Url::parse` reads `base`, `Url::join` resolves `reference`
/// against it, and the conversion into a `String` hands out the result as
/// text. The outcome depends on the two texts alone.
#[verifier::external_body]
fn join_url(base: &str, reference: &str) -> (joined: Result<String, url::ParseError>)
    ensures
        match joined {
            Ok(text) => joined_url(base@, reference@) == Some(text@),
            Err(_) => joined_url(base@, reference@) is None,
        },
{
    Ok(url::Url::parse(base)?.join(reference)?.into())
}

/// The address that `relative` stands for: itself where it names the
/// scheme `http` or `https`, and what resolving it against `base` gives
/// otherwise.
pub open spec fn resolved_url(base: Seq<char>, relative: Seq<char>) -> Option<Seq<char>> {
    if starts_with(relative, "http://"@) || starts_with(relative, "https://"@) {
        Some(relative)
    } else {
        joined_url(base, relative)
    }
}

/// The request that fetches the description at `location`.
pub open spec fn description_request(location: Seq<char>) -> HttpRequestView {
    HttpRequestView {
        method: "GET"@,
        url: location,
        headers: seq![
            ("User-Agent"@, "Mozilla/5.0"@),
            ("Accept"@, "text/xml, application/xml, */*"@),
        ],
        body: Seq::empty(),
    }
}

/// The request that fetches the document at `url` without more ado.
pub open spec fn plain_request(url: Seq<char>) -> HttpRequestView {
    HttpRequestView { method: "GET"@, url, headers: Seq::empty(), body: Seq::empty() }
}

/// What the answer to a description request means.
pub open spec fn fetched_description(status: u16, body: Seq<char>) -> Result<
    DeviceView,
    UpnpErrorView,
> {
    if !is_success(status) {
        Err(UpnpErrorView { kind: ErrorKind::Fetch, status, detail: body })
    } else if body.len() == 0 {
        Err(UpnpErrorView { kind: ErrorKind::Fetch, status, detail: "Received empty XML response"@ })
    } else {
        match device_description(body) {
            Some(device) => Ok(device),
            None => Err(
                UpnpErrorView { kind: ErrorKind::Parse, status: 0, detail: "Failed to parse XML"@ },
            ),
        }
    }
}

/// The settings of the client that fetches descriptions: how long a request
/// and how long a connection attempt may take, in milliseconds, and whether
/// a proxy of the system is used.
#[derive(Debug, Clone, Copy, PartialEq, Eq, Structural)]
pub struct HttpClient {
    pub timeout_ms: u64,
    pub connect_timeout_ms: u64,
    pub use_proxy: bool,
}

impl HttpClient {
    /// The settings of every client: thirty seconds for a request, ten for
    /// a connection, and no proxy.
    pub open spec fn settings() -> HttpClient {
        HttpClient { timeout_ms: 30000, connect_timeout_ms: 10000, use_proxy: false }
    }

    /// A client.
    pub fn new() -> (client: HttpClient)
        ensures
            client == Self::settings(),
    {
        HttpClient { timeout_ms: 30000, connect_timeout_ms: 10000, use_proxy: false }
    }

    /// Builds the request that fetches the description at `location`.
    pub fn get_device_description(&self, location: &str) -> (request: HttpRequest)
        ensures
            request@ == description_request(location@),
    {
        let mut headers: Vec<(String, String)> = Vec::new();
        headers.push(header("User-Agent", "Mozilla/5.0".to_owned()));
        headers.push(header("Accept", "text/xml, application/xml, */*".to_owned()));
        let request = HttpRequest {
            method: "GET".to_owned(),
            url: location.to_owned(),
            headers,
            body: String::new(),
        };
        proof {
            assert(request@.headers =~= description_request(location@).headers);
        }
        request
    }

    /// Reads the answer to a description request. A status other than
    /// success and an empty body are fetch errors; a body that is no
    /// description is a parse error.
    pub fn device_description_response(response: &HttpResponse) -> (result: Result<
        DeviceDescription,
        UpnpError,
    >)
        ensures
            match result {
                Ok(description) => fetched_description(response.status, response.body@) == Ok::<
                    DeviceView,
                    UpnpErrorView,
                >(description@),
                Err(error) => fetched_description(response.status, response.body@) == Err::<
                    DeviceView,
                    UpnpErrorView,
                >(error@),
            },
    {
        if !response.succeeded() {
            return Err(
                UpnpError::from_response(
                    ErrorKind::Fetch,
                    response.status,
                    response.body.as_str(),
                ),
            );
        }
        if response.body.as_str().is_empty() {
            return Err(
                UpnpError::from_response(
                    ErrorKind::Fetch,
                    response.status,
                    "Received empty XML response",
                ),
            );
        }
        match Self::parse_device_description(response.body.as_str()) {
            Some(description) => Ok(description),
            None => Err(UpnpError::new(ErrorKind::Parse, "Failed to parse XML".to_owned())),
        }
    }

    /// Builds the device that the events of a description document
    /// describe: the children of the `device` element under the root give
    /// its fields, and the `service` elements of its `serviceList` give its
    /// services in their order.
    pub fn describe(events: &Vec<XmlEvent>) -> (description: Option<DeviceDescription>)
        ensures
            match description {
                Some(d) => description_of(events.deep_view()) == Some(d@),
                None => description_of(events.deep_view()) is None,
            },
    {
        document::describe(events)
    }

    /// Reads a description document.
    pub fn parse_device_description(xml: &str) -> (description: Option<DeviceDescription>)
        ensures
            match description {
                Some(d) => device_description(xml@) == Some(d@),
                None => device_description(xml@) is None,
            },
    {
        match read_events(xml, true) {
            Some(events) => Self::describe(&events),
            None => None,
        }
    }

    /// Builds the request that fetches the control schema of a service.
    /// `scpd_url` is resolved against `base_url` first.
    pub fn get_service_description(&self, base_url: &str, scpd_url: &str) -> (result: Result<
        HttpRequest,
        UpnpError,
    >)
        ensures
            match result {
                Ok(request) => resolved_url(base_url@, scpd_url@) matches Some(url) && request@
                    == plain_request(url),
                Err(error) => resolved_url(base_url@, scpd_url@) is None && error@ == (
                UpnpErrorView { kind: ErrorKind::InvalidUrl, status: 0, detail: scpd_url@ }),
            },
    {
        match Self::resolve_url(base_url, scpd_url) {
            Ok(url) => {
                let headers: Vec<(String, String)> = Vec::new();
                let request = HttpRequest {
                    method: "GET".to_owned(),
                    url,
                    headers,
                    body: String::new(),
                };
                assert(request@.headers =~= Seq::<(Seq<char>, Seq<char>)>::empty());
                Ok(request)
            },
            Err(error) => Err(error),
        }
    }

    /// Reads the answer to a request for a control schema: the body as it
    /// came, whatever the status.
    pub fn service_description_response(response: &HttpResponse) -> (document: String)
        ensures
            document@ == response.body@,
    {
        response.body.clone()
    }

    /// Resolves `relative_url` against `base_url`. An address that names
    /// the scheme `http` or `https` is taken as it stands.
    pub fn resolve_url(base_url: &str, relative_url: &str) -> (result: Result<String, UpnpError>)
        ensures
            match result {
                Ok(url) => resolved_url(base_url@, relative_url@) == Some(url@),
                Err(error) => resolved_url(base_url@, relative_url@) is None && error@ == (
                UpnpErrorView { kind: ErrorKind::InvalidUrl, status: 0, detail: relative_url@ }),
            },
    {
        let text = chars_of(relative_url);
        let plain = chars_of("http://");
        let secure = chars_of("https://");
        if has_prefix(&text, &plain) || has_prefix(&text, &secure) {
            return Ok(relative_url.to_owned());
        }
        match join_url(base_url, relative_url) {
            Ok(url) => Ok(url),
            Err(_) => Err(UpnpError::new(ErrorKind::InvalidUrl, relative_url.to_owned())),
        }
    }
}

impl Default for HttpClient {
    fn default() -> (client: HttpClient)
        ensures
            client == Self::settings(),
    {
        HttpClient::new()
    }
}

} // verus!
