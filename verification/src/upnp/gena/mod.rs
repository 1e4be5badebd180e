//! Event subscriptions: the subscribe, renew and unsubscribe exchanges and
//! the lease that each subscription holds.

pub mod laws;

use crate::attributes::{put, AttributeMap};
use crate::error::{ErrorKind, UpnpError, UpnpErrorView};
use crate::http::{first_header, header, is_success, HttpRequest, HttpRequestView, HttpResponse};
use crate::text::{chars_of, has_prefix, same_text, starts_with};
use crate::text::decimal::{decimal, number_u32, push_decimal, read_u32};
use crate::xml::{events_of, read_events, XmlEvent, XmlEventView};
use vstd::prelude::*;
use vstd::string::StringExecFns;

verus! {

/// The lease that a device grants when it names none.
pub const DEFAULT_LEASE_SECONDS: u32 = 1800;

/// The port on which notifications are received unless another is chosen.
pub const DEFAULT_CALLBACK_PORT: u16 = 8008;

/// How long the caller waits for the answer to one request, in milliseconds.
pub const REQUEST_TIMEOUT_MS: u64 = 10000;

/// A subscription to the events of one service. A lease of 0 seconds never
/// expires.
#[derive(Debug, Clone, PartialEq)]
pub struct Subscription {
    /// The identifier that the device assigned.
    pub sid: String,
    /// The granted lease, in seconds.
    pub timeout: u32,
    /// Where the subscription was made.
    pub event_sub_url: String,
    /// When the lease was granted or last renewed, on the caller's clock.
    pub created_at: u64,
}

/// The mathematical value of a [`Subscription`].
pub ghost struct SubscriptionView {
    pub sid: Seq<char>,
    pub timeout: u32,
    pub event_sub_url: Seq<char>,
    pub created_at: u64,
}

impl View for Subscription {
    type V = SubscriptionView;

    open spec fn view(&self) -> SubscriptionView {
        SubscriptionView {
            sid: self.sid@,
            timeout: self.timeout,
            event_sub_url: self.event_sub_url@,
            created_at: self.created_at,
        }
    }
}

/// The client side of the eventing protocol.
#[derive(Debug, Clone, Copy, PartialEq, Eq)]
pub struct GenaClient {
    callback_port: u16,
}

/// The value of the `TIMEOUT` header that asks for `seconds`; 0 asks for a
/// lease without end.
pub open spec fn timeout_header(seconds: u32) -> Seq<char> {
    if seconds == 0 {
        "Second-infinite"@
    } else {
        "Second-"@ + decimal(seconds as nat)
    }
}

/// One entry of the `CALLBACK` header: the address at which `host` takes
/// notifications on `port`.
pub open spec fn callback_entry(host: Seq<char>, port: u16) -> Seq<char> {
    "<http://"@ + host + ":"@ + decimal(port as nat) + "/notify"@ + ">"@
}

/// The value of the `CALLBACK` header: one entry for each host, with a
/// space between neighbours.
pub open spec fn callback_header(hosts: Seq<Seq<char>>, port: u16) -> Seq<char>
    decreases hosts.len(),
{
    if hosts.len() == 0 {
        Seq::empty()
    } else if hosts.len() == 1 {
        callback_entry(hosts[0], port)
    } else {
        callback_header(hosts.drop_last(), port) + " "@ + callback_entry(hosts.last(), port)
    }
}

/// The lease that the value of a `TIMEOUT` header grants: 0, the lease
/// without end, for `Second-infinite`; otherwise the number after
/// `Second-`; and the default where the value says anything else.
pub open spec fn lease_of(value: Seq<char>) -> u32 {
    if value == "Second-infinite"@ {
        0
    } else if starts_with(value, "Second-"@) {
        match number_u32(value.subrange("Second-"@.len() as int, value.len() as int)) {
            Some(seconds) => seconds,
            None => DEFAULT_LEASE_SECONDS,
        }
    } else {
        DEFAULT_LEASE_SECONDS
    }
}

/// The lease that a response grants: that of its `TIMEOUT` header, and the
/// default where it has none.
pub open spec fn granted_lease(headers: Seq<(Seq<char>, Seq<char>)>) -> u32 {
    match first_header(headers, "TIMEOUT"@) {
        Some(value) => lease_of(value),
        None => DEFAULT_LEASE_SECONDS,
    }
}

/// The request that subscribes at `url`.
pub open spec fn subscribe_request(
    url: Seq<char>,
    hosts: Seq<Seq<char>>,
    port: u16,
    seconds: u32,
) -> HttpRequestView {
    HttpRequestView {
        method: "SUBSCRIBE"@,
        url,
        headers: seq![
            ("CALLBACK"@, callback_header(hosts, port)),
            ("NT"@, "upnp:event"@),
            ("TIMEOUT"@, timeout_header(seconds)),
        ],
        body: Seq::empty(),
    }
}

/// The request that renews `subscription`.
pub open spec fn renew_request(subscription: SubscriptionView, seconds: u32) -> HttpRequestView {
    HttpRequestView {
        method: "SUBSCRIBE"@,
        url: subscription.event_sub_url,
        headers: seq![("SID"@, subscription.sid), ("TIMEOUT"@, timeout_header(seconds))],
        body: Seq::empty(),
    }
}

/// The request that ends `subscription`.
pub open spec fn unsubscribe_request(subscription: SubscriptionView) -> HttpRequestView {
    HttpRequestView {
        method: "UNSUBSCRIBE"@,
        url: subscription.event_sub_url,
        headers: seq![("SID"@, subscription.sid)],
        body: Seq::empty(),
    }
}

/// The error for a response that refuses or lacks what was asked.
pub open spec fn refusal(kind: ErrorKind, status: u16, body: Seq<char>) -> UpnpErrorView {
    UpnpErrorView { kind, status, detail: body }
}

/// What the answer to a subscribe request means: a subscription, where the
/// device reports success and names an identifier.
pub open spec fn subscribed(
    url: Seq<char>,
    status: u16,
    headers: Seq<(Seq<char>, Seq<char>)>,
    body: Seq<char>,
    now: u64,
) -> Result<SubscriptionView, UpnpErrorView> {
    if !is_success(status) {
        Err(refusal(ErrorKind::Subscribe, status, body))
    } else {
        match first_header(headers, "SID"@) {
            Some(sid) => Ok(
                SubscriptionView {
                    sid,
                    timeout: granted_lease(headers),
                    event_sub_url: url,
                    created_at: now,
                },
            ),
            None => Err(refusal(ErrorKind::Subscribe, status, "Missing SID header"@)),
        }
    }
}

/// What the answer to a renewal means: the same subscription with the newly
/// granted lease, where the device reports success.
pub open spec fn renewed(
    subscription: SubscriptionView,
    status: u16,
    headers: Seq<(Seq<char>, Seq<char>)>,
    body: Seq<char>,
    now: u64,
) -> Result<SubscriptionView, UpnpErrorView> {
    if !is_success(status) {
        Err(refusal(ErrorKind::Subscribe, status, body))
    } else {
        Ok(
            SubscriptionView {
                sid: subscription.sid,
                timeout: granted_lease(headers),
                event_sub_url: subscription.event_sub_url,
                created_at: now,
            },
        )
    }
}

/// Where the reading of an event notification stands: whether a `property`
/// element is open, the name of the variable inside it, the variables found
/// so far, and whether a value could not be resolved.
pub ghost struct PropertyScan {
    pub in_property: bool,
    pub current: Seq<char>,
    pub found: Seq<(Seq<char>, Seq<char>)>,
    pub failed: bool,
}

/// How one event moves the reading on. A `property` tag opens and closes a
/// container; any other start tag inside a container names the variable;
/// character data inside a named variable is its value.
pub open spec fn scan_property(state: PropertyScan, event: XmlEventView) -> PropertyScan {
    match event {
        XmlEventView::Start(name) => if name == "property"@ {
            PropertyScan { in_property: true, ..state }
        } else if state.in_property {
            PropertyScan { current: name, ..state }
        } else {
            state
        },
        XmlEventView::Text(text) | XmlEventView::CData(text) => if state.in_property
            && state.current.len() > 0 {
            PropertyScan { found: put(state.found, state.current, text), ..state }
        } else {
            state
        },
        XmlEventView::BadText => if state.in_property && state.current.len() > 0 {
            PropertyScan { failed: true, ..state }
        } else {
            state
        },
        XmlEventView::End(name) => if name == "property"@ {
            PropertyScan { in_property: false, current: Seq::empty(), ..state }
        } else {
            state
        },
        _ => state,
    }
}

/// Where the reading that stood at `state` stands after `events`.
pub open spec fn scan_properties_from(
    state: PropertyScan,
    events: Seq<XmlEventView>,
) -> PropertyScan
    decreases events.len(),
{
    if events.len() == 0 {
        state
    } else {
        scan_property(scan_properties_from(state, events.drop_last()), events.last())
    }
}

/// Where the reading stands after `events`.
pub open spec fn scan_properties(events: Seq<XmlEventView>) -> PropertyScan {
    scan_properties_from(
        PropertyScan {
            in_property: false,
            current: Seq::empty(),
            found: Seq::empty(),
            failed: false,
        },
        events,
    )
}

/// The variables that the events of a notification give, each with its
/// value; none where a value could not be resolved.
pub open spec fn event_properties(events: Seq<XmlEventView>) -> Option<
    Seq<(Seq<char>, Seq<char>)>,
> {
    if scan_properties(events).failed {
        None
    } else {
        Some(scan_properties(events).found)
    }
}

/// The variables that the body of a notification gives, each value without
/// the white space around it; none where the body is not well-formed.
pub open spec fn event_message(body: Seq<char>) -> Option<Seq<(Seq<char>, Seq<char>)>> {
    match events_of(body, true) {
        Some(events) => event_properties(events),
        None => None,
    }
}

/// A value that could not be resolved is never forgotten.
pub proof fn lemma_scan_failure_stays(events: Seq<XmlEventView>, k: int)
    requires
        0 <= k <= events.len(),
        scan_properties(events.subrange(0, k)).failed,
    ensures
        scan_properties(events).failed,
    decreases events.len() - k,
{
    if k == events.len() {
        assert(events.subrange(0, k) =~= events);
    } else {
        assert(events.drop_last().subrange(0, k) =~= events.subrange(0, k));
        lemma_scan_failure_stays(events.drop_last(), k);
    }
}

/// The `TIMEOUT` header value that asks for `seconds`.
fn write_timeout_header(seconds: u32) -> (value: String)
    ensures
        value@ == timeout_header(seconds),
{
    if seconds == 0 {
        "Second-infinite".to_owned()
    } else {
        let mut value = "Second-".to_owned();
        push_decimal(&mut value, seconds);
        value
    }
}

/// Reads the lease that the headers of `response` grant.
fn read_lease(response: &HttpResponse) -> (seconds: u32)
    ensures
        seconds == granted_lease(response@.headers),
{
    match response.header("TIMEOUT") {
        Some(value) => {
            let text = chars_of(value.as_str());
            let prefix = chars_of("Second-");
            if same_text(value.as_str(), "Second-infinite") {
                0
            } else if has_prefix(&text, &prefix) {
                match read_u32(&text, prefix.len(), text.len()) {
                    Some(seconds) => seconds,
                    None => DEFAULT_LEASE_SECONDS,
                }
            } else {
                DEFAULT_LEASE_SECONDS
            }
        },
        None => DEFAULT_LEASE_SECONDS,
    }
}

impl GenaClient {
    /// A client that takes notifications on `callback_port`.
    pub fn new(callback_port: u16) -> (client: GenaClient)
        ensures
            client.callback_port() == callback_port,
    {
        GenaClient { callback_port }
    }

    /// The port on which notifications are taken.
    pub closed spec fn callback_port(&self) -> u16 {
        self.callback_port
    }

    /// The port on which notifications are taken.
    #[verifier::when_used_as_spec(callback_port)]
    pub fn port(&self) -> (port: u16)
        ensures
            port == self.callback_port(),
    {
        self.callback_port
    }

    /// Builds the request that subscribes to the events of the service at
    /// `event_sub_url`. `callback_urls` names the hosts at which this control
    /// point can be reached; `timeout` is the lease asked for, in seconds,
    /// and 0 asks for one without end.
    pub fn subscribe(
        &self,
        event_sub_url: &str,
        callback_urls: &[String],
        timeout: u32,
    ) -> (request: HttpRequest)
        ensures
            request@ == subscribe_request(
                event_sub_url@,
                callback_urls.deep_view(),
                self.callback_port(),
                timeout,
            ),
    {
        let mut callbacks = String::new();
        let mut i: usize = 0;
        while i < callback_urls.len()
            invariant
                0 <= i <= callback_urls.len(),
                callbacks@ == callback_header(
                    callback_urls.deep_view().subrange(0, i as int),
                    self.callback_port(),
                ),
            decreases callback_urls.len() - i,
        {
            let ghost hosts = callback_urls.deep_view().subrange(0, i + 1);
            proof {
                assert(hosts.drop_last() =~= callback_urls.deep_view().subrange(0, i as int));
            }
            if i > 0 {
                callbacks.append(" ");
            }
            callbacks.append("<http://");
            callbacks.append(callback_urls[i].as_str());
            callbacks.append(":");
            push_decimal(&mut callbacks, self.callback_port as u32);
            callbacks.append("/notify");
            callbacks.append(">");
            i += 1;
        }
        proof {
            assert(callback_urls.deep_view().subrange(0, callback_urls.len() as int)
                =~= callback_urls.deep_view());
        }
        let mut headers: Vec<(String, String)> = Vec::new();
        headers.push(header("CALLBACK", callbacks));
        headers.push(header("NT", "upnp:event".to_owned()));
        headers.push(header("TIMEOUT", write_timeout_header(timeout)));
        let request = HttpRequest {
            method: "SUBSCRIBE".to_owned(),
            url: event_sub_url.to_owned(),
            headers,
            body: String::new(),
        };
        proof {
            assert(request@.headers =~= subscribe_request(
                event_sub_url@,
                callback_urls.deep_view(),
                self.callback_port(),
                timeout,
            ).headers);
        }
        request
    }

    /// Reads the answer to a subscribe request made at `event_sub_url`. The
    /// subscription holds the identifier of the `SID` header and the lease
    /// of the `TIMEOUT` header; `now` is recorded as the time of the grant.
    pub fn subscribe_response(event_sub_url: &str, response: &HttpResponse, now: u64) -> (result:
        Result<Subscription, UpnpError>)
        ensures
            match result {
                Ok(subscription) => subscribed(
                    event_sub_url@,
                    response.status,
                    response@.headers,
                    response.body@,
                    now,
                ) == Ok::<SubscriptionView, UpnpErrorView>(subscription@),
                Err(error) => subscribed(
                    event_sub_url@,
                    response.status,
                    response@.headers,
                    response.body@,
                    now,
                ) == Err::<SubscriptionView, UpnpErrorView>(error@),
            },
    {
        if !response.succeeded() {
            return Err(
                UpnpError::from_response(
                    ErrorKind::Subscribe,
                    response.status,
                    response.body.as_str(),
                ),
            );
        }
        match response.header("SID") {
            Some(sid) => Ok(
                Subscription {
                    sid,
                    timeout: read_lease(response),
                    event_sub_url: event_sub_url.to_owned(),
                    created_at: now,
                },
            ),
            None => Err(
                UpnpError::from_response(ErrorKind::Subscribe, response.status, "Missing SID header"),
            ),
        }
    }

    /// Builds the request that renews `subscription` for `timeout` seconds;
    /// 0 asks for a lease without end.
    pub fn renew(&self, subscription: &Subscription, timeout: u32) -> (request: HttpRequest)
        ensures
            request@ == renew_request(subscription@, timeout),
    {
        let mut headers: Vec<(String, String)> = Vec::new();
        headers.push(header("SID", subscription.sid.clone()));
        headers.push(header("TIMEOUT", write_timeout_header(timeout)));
        let request = HttpRequest {
            method: "SUBSCRIBE".to_owned(),
            url: subscription.event_sub_url.clone(),
            headers,
            body: String::new(),
        };
        proof {
            assert(request@.headers =~= renew_request(subscription@, timeout).headers);
        }
        request
    }

    /// Reads the answer to a renewal of `subscription`. The identifier and
    /// the address stay; the lease is the newly granted one and `now` the
    /// time of the grant.
    pub fn renew_response(
        subscription: &Subscription,
        response: &HttpResponse,
        now: u64,
    ) -> (result: Result<Subscription, UpnpError>)
        ensures
            match result {
                Ok(next) => renewed(
                    subscription@,
                    response.status,
                    response@.headers,
                    response.body@,
                    now,
                ) == Ok::<SubscriptionView, UpnpErrorView>(next@),
                Err(error) => renewed(
                    subscription@,
                    response.status,
                    response@.headers,
                    response.body@,
                    now,
                ) == Err::<SubscriptionView, UpnpErrorView>(error@),
            },
    {
        if !response.succeeded() {
            return Err(
                UpnpError::from_response(
                    ErrorKind::Subscribe,
                    response.status,
                    response.body.as_str(),
                ),
            );
        }
        Ok(
            Subscription {
                sid: subscription.sid.clone(),
                timeout: read_lease(response),
                event_sub_url: subscription.event_sub_url.clone(),
                created_at: now,
            },
        )
    }

    /// Builds the request that ends `subscription`.
    pub fn unsubscribe(&self, subscription: &Subscription) -> (request: HttpRequest)
        ensures
            request@ == unsubscribe_request(subscription@),
    {
        let mut headers: Vec<(String, String)> = Vec::new();
        headers.push(header("SID", subscription.sid.clone()));
        let request = HttpRequest {
            method: "UNSUBSCRIBE".to_owned(),
            url: subscription.event_sub_url.clone(),
            headers,
            body: String::new(),
        };
        proof {
            assert(request@.headers =~= unsubscribe_request(subscription@).headers);
        }
        request
    }

    /// Reads the answer to an unsubscribe request: any status but success is
    /// an error that carries the status and the body.
    pub fn unsubscribe_response(response: &HttpResponse) -> (result: Result<(), UpnpError>)
        ensures
            result is Ok <==> is_success(response.status),
            result is Err ==> result.unwrap_err()@ == refusal(
                ErrorKind::Unsubscribe,
                response.status,
                response.body@,
            ),
    {
        if response.succeeded() {
            Ok(())
        } else {
            Err(
                UpnpError::from_response(
                    ErrorKind::Unsubscribe,
                    response.status,
                    response.body.as_str(),
                ),
            )
        }
    }
}

impl GenaClient {
    /// Collects the variables that the events of a notification carry: for
    /// every `property` container the name of the element inside it and
    /// that element's character data. A name that comes again takes the
    /// later value.
    pub fn properties_of(events: &Vec<XmlEvent>) -> (found: Option<AttributeMap>)
        ensures
            found.deep_view() == event_properties(events.deep_view()),
    {
        let ghost all = events.deep_view();
        let mut in_property = false;
        let mut current = String::new();
        let mut found = AttributeMap::new();
        let mut i: usize = 0;
        while i < events.len()
            invariant
                0 <= i <= events.len(),
                all == events.deep_view(),
                scan_properties(all.subrange(0, i as int)) == (PropertyScan {
                    in_property,
                    current: current@,
                    found: found@,
                    failed: false,
                }),
            decreases events.len() - i,
        {
            proof {
                let next = all.subrange(0, i + 1);
                assert(next.drop_last() =~= all.subrange(0, i as int));
            }
            match &events[i] {
                XmlEvent::Start(name) => {
                    if same_text(name.as_str(), "property") {
                        in_property = true;
                    } else if in_property {
                        current = name.clone();
                    }
                },
                XmlEvent::Text(text) | XmlEvent::CData(text) => {
                    if in_property && !current.as_str().is_empty() {
                        found.insert(current.clone(), text.clone());
                    }
                },
                XmlEvent::BadText => {
                    if in_property && !current.as_str().is_empty() {
                        proof {
                            lemma_scan_failure_stays(all, i + 1);
                        }
                        return None;
                    }
                },
                XmlEvent::End(name) => {
                    if same_text(name.as_str(), "property") {
                        in_property = false;
                        current = String::new();
                    }
                },
                _ => {},
            }
            i += 1;
        }
        assert(all.subrange(0, events.len() as int) =~= all);
        Some(found)
    }

    /// Reads the body of an event notification: a property set whose
    /// `property` containers each hold one named value. The result gives
    /// every name its value; a body that is not well-formed is an error.
    pub fn parse_event_message(body: &str) -> (result: Result<AttributeMap, UpnpError>)
        ensures
            match result {
                Ok(found) => event_message(body@) == Some(found@),
                Err(error) => event_message(body@) is None && error@ == refusal(
                    ErrorKind::EventParse,
                    0,
                    "XML parse error"@,
                ),
            },
    {
        let found = match read_events(body, true) {
            Some(events) => Self::properties_of(&events),
            None => None,
        };
        match found {
            Some(found) => Ok(found),
            None => Err(UpnpError::new(ErrorKind::EventParse, "XML parse error".to_owned())),
        }
    }
}

impl Default for GenaClient {
    fn default() -> (client: GenaClient)
        ensures
            client.callback_port() == DEFAULT_CALLBACK_PORT,
    {
        GenaClient::new(DEFAULT_CALLBACK_PORT)
    }
}

} // verus!
