//! Multicast discovery: the search request, and the parsing of search
//! responses and presence notifications.

pub mod laws;

use crate::error::{ErrorKind, UpnpError, UpnpErrorView};
use crate::text::{
    chars_of, find_char, find_in, has_prefix, lines, lossy_text, lower, matches_name, same_text,
    starts_with, string_of, trim, trim_in, utf8_lossy,
};
use vstd::prelude::*;
use vstd::string::StringExecFns;

verus! {

/// The group and port to which search requests are sent.
pub const MULTICAST_ADDRESS: &'static str = "239.255.255.250:1900";

/// The multicast group of discovery.
pub const MULTICAST_GROUP: [u8; 4] = [239, 255, 255, 250];

/// The port on which presence notifications arrive.
pub const MULTICAST_PORT: u16 = 1900;

/// How long a search collects responses unless told otherwise, in
/// milliseconds.
pub const DEFAULT_TIMEOUT_MS: u64 = 5000;

/// How long one receive of a notification listener may wait, in
/// milliseconds.
pub const NOTIFICATION_POLL_MS: u64 = 1000;

/// The length of the buffer that takes one datagram.
pub const DATAGRAM_CAPACITY: usize = 2048;

/// A device as it announces itself in a search response or a notification.
#[derive(Debug, Clone, PartialEq)]
pub struct SsdpDevice {
    pub location: String,
    pub usn: String,
    pub server: String,
    pub st: String,
    pub cache_control: String,
}

/// The mathematical value of an [`SsdpDevice`].
pub ghost struct SsdpDeviceView {
    pub location: Seq<char>,
    pub usn: Seq<char>,
    pub server: Seq<char>,
    pub st: Seq<char>,
    pub cache_control: Seq<char>,
}

impl View for SsdpDevice {
    type V = SsdpDeviceView;

    open spec fn view(&self) -> SsdpDeviceView {
        SsdpDeviceView {
            location: self.location@,
            usn: self.usn@,
            server: self.server@,
            st: self.st@,
            cache_control: self.cache_control@,
        }
    }
}

impl DeepView for SsdpDevice {
    type V = SsdpDeviceView;

    open spec fn deep_view(&self) -> SsdpDeviceView {
        self@
    }
}

/// A presence notification: a device came up, went away or changed.
#[derive(Debug, Clone, PartialEq)]
pub enum SsdpNotification {
    Alive(SsdpDevice),
    ByeBye { usn: String, nt: String },
    Update(SsdpDevice),
}

/// The mathematical value of an [`SsdpNotification`].
pub ghost enum SsdpNotificationView {
    Alive(SsdpDeviceView),
    ByeBye { usn: Seq<char>, nt: Seq<char> },
    Update(SsdpDeviceView),
}

impl View for SsdpNotification {
    type V = SsdpNotificationView;

    open spec fn view(&self) -> SsdpNotificationView {
        match self {
            SsdpNotification::Alive(d) => SsdpNotificationView::Alive(d@),
            SsdpNotification::ByeBye { usn, nt } => SsdpNotificationView::ByeBye {
                usn: usn@,
                nt: nt@,
            },
            SsdpNotification::Update(d) => SsdpNotificationView::Update(d@),
        }
    }
}

impl DeepView for SsdpNotification {
    type V = SsdpNotificationView;

    open spec fn deep_view(&self) -> SsdpNotificationView {
        self@
    }
}

/// The header that a line carries: the text before the first colon and the
/// text after it, both trimmed. A line without a colon carries none.
pub open spec fn header_of(line: Seq<char>) -> Option<(Seq<char>, Seq<char>)> {
    let t = trim(line);
    let i = find_char(t, ':');
    if 0 <= i < t.len() {
        Some((trim(t.subrange(0, i)), trim(t.subrange(i + 1, t.len() as int))))
    } else {
        None
    }
}

/// Whether `line` carries the header `name`, read without regard to the case
/// of ASCII letters.
pub open spec fn names_header(line: Seq<char>, name: Seq<char>) -> bool {
    header_of(line) matches Some(h) && lower(h.0) == lower(name)
}

/// The value of the header `name` among `lines`: that of the last line that
/// carries it, and the empty text where no line does.
pub open spec fn header_value(lines: Seq<Seq<char>>, name: Seq<char>) -> Seq<char>
    decreases lines.len(),
{
    if lines.len() == 0 {
        Seq::empty()
    } else if names_header(lines.last(), name) {
        header_of(lines.last()).unwrap().1
    } else {
        header_value(lines.drop_last(), name)
    }
}

/// The device that the headers among `lines` describe; `target` names the
/// header that holds its type.
pub open spec fn device_of(lines: Seq<Seq<char>>, target: Seq<char>) -> SsdpDeviceView {
    SsdpDeviceView {
        location: header_value(lines, "location"@),
        usn: header_value(lines, "usn"@),
        server: header_value(lines, "server"@),
        st: header_value(lines, target),
        cache_control: header_value(lines, "cache-control"@),
    }
}

/// What a search response announces: a device, where the text starts with
/// the success status line and gives a location.
pub open spec fn search_response(text: Seq<char>) -> Option<SsdpDeviceView> {
    if starts_with(text, "HTTP/1.1 200 OK"@) && header_value(lines(text), "location"@).len() > 0 {
        Some(device_of(lines(text), "st"@))
    } else {
        None
    }
}

/// What a presence notification says. Its headers are looked for after the
/// request line; the sub-type header decides the variant. A device that is
/// alive or updated is announced, and an announcement needs a location; a
/// device that leaves is only named.
pub open spec fn presence_notification(text: Seq<char>) -> Option<SsdpNotificationView> {
    let headers = lines(text).drop_first();
    let nts = header_value(headers, "nts"@);
    let located = header_value(headers, "location"@).len() > 0;
    if !starts_with(text, "NOTIFY * HTTP/1.1"@) {
        None
    } else if nts == "ssdp:alive"@ {
        if located {
            Some(SsdpNotificationView::Alive(device_of(headers, "nt"@)))
        } else {
            None
        }
    } else if nts == "ssdp:byebye"@ {
        Some(
            SsdpNotificationView::ByeBye {
                usn: header_value(headers, "usn"@),
                nt: header_value(headers, "nt"@),
            },
        )
    } else if nts == "ssdp:update"@ {
        if located {
            Some(SsdpNotificationView::Update(device_of(headers, "nt"@)))
        } else {
            None
        }
    } else {
        None
    }
}

/// Reads the header `name` from the lines of `text[from..]`.
fn read_header(text: &Vec<char>, from: usize, name: &str) -> (value: String)
    requires
        from <= text.len(),
    ensures
        value@ == header_value(lines(text@.subrange(from as int, text.len() as int)), name@),
{
    let wanted = chars_of(name);
    let len = text.len();
    let mut pos: usize = from;
    let mut found: (usize, usize) = (0, 0);
    let ghost all = lines(text@.subrange(from as int, len as int));
    let ghost mut done: Seq<Seq<char>> = Seq::empty();
    loop
        invariant_except_break
            all == done + lines(text@.subrange(pos as int, len as int)),
        invariant
            len == text.len(),
            wanted@ == name@,
            from <= pos <= len,
            found.0 <= found.1 <= len,
            text@.subrange(found.0 as int, found.1 as int) == header_value(done, name@),
        ensures
            all == done,
        decreases len - pos,
    {
        let end = find_in(text, pos, len, '\n');
        let w = trim_in(text, pos, end);
        let colon = find_in(text, w.0, w.1, ':');
        let ghost rest = text@.subrange(pos as int, len as int);
        let ghost line = text@.subrange(pos as int, end as int);
        let ghost t = text@.subrange(w.0 as int, w.1 as int);
        proof {
            crate::text::lemma_find_char_bounds(rest, '\n');
            assert(rest.subrange(0, end - pos) =~= line);
            assert(done.push(line).drop_last() =~= done);
        }
        if colon < w.1 {
            let k = trim_in(text, w.0, colon);
            let v = trim_in(text, colon + 1, w.1);
            proof {
                assert(t.subrange(0, colon - w.0) =~= text@.subrange(w.0 as int, colon as int));
                assert(t.subrange(colon - w.0 + 1, t.len() as int) =~= text@.subrange(
                    colon + 1,
                    w.1 as int,
                ));
            }
            if matches_name(text, k.0, k.1, &wanted) {
                found = v;
            }
        }
        proof {
            if end < len {
                assert(rest.subrange(end - pos + 1, rest.len() as int) =~= text@.subrange(
                    end + 1,
                    len as int,
                ));
            }
            done = done.push(line);
        }
        if end == len {
            break ;
        }
        pos = end + 1;
    }
    string_of(text, found.0, found.1)
}

/// Collects the device that the headers of `text[from..]` describe.
fn read_device(text: &Vec<char>, from: usize, target: &str) -> (device: SsdpDevice)
    requires
        from <= text.len(),
    ensures
        device@ == device_of(lines(text@.subrange(from as int, text.len() as int)), target@),
{
    SsdpDevice {
        location: read_header(text, from, "location"),
        usn: read_header(text, from, "usn"),
        server: read_header(text, from, "server"),
        st: read_header(text, from, target),
        cache_control: read_header(text, from, "cache-control"),
    }
}

/// The search request for `target`.
pub open spec fn search_request(target: Seq<char>) -> Seq<char> {
    "M-SEARCH * HTTP/1.1\r\nHOST: 239.255.255.250:1900\r\nMAN: \"ssdp:discover\"\r\nMX: 3\r\nST: "@
        + target + "\r\n\r\n"@
}

/// What one receive on a socket gave.
#[derive(Debug, Clone, PartialEq)]
pub enum Received {
    /// A datagram arrived.
    Datagram(Vec<u8>),
    /// Nothing arrived before the socket's timeout.
    TimedOut,
    /// The socket reported another error, described by the text.
    Failed(String),
}

/// The devices that a datagram adds to a search: the one that it announces,
/// or none where it is no valid response.
pub open spec fn announced(bytes: Seq<u8>) -> Seq<SsdpDeviceView> {
    match search_response(utf8_lossy(bytes)) {
        Some(device) => seq![device],
        None => Seq::empty(),
    }
}

/// A search in progress: the request to send once, where to send it, the
/// time to collect responses, and the devices that have answered so far.
#[derive(Debug, Clone, PartialEq)]
pub struct SsdpSearch {
    pub request: String,
    pub destination: String,
    pub timeout_ms: u64,
    pub devices: Vec<SsdpDevice>,
}

impl SsdpSearch {
    /// Takes what one receive gave and says whether to receive again. A
    /// datagram that is a valid response adds its device; any other
    /// datagram and an error of the socket are passed over; a timeout ends
    /// the search.
    pub fn receive(&mut self, received: &Received) -> (more: bool)
        ensures
            final(self).request == old(self).request,
            final(self).destination == old(self).destination,
            final(self).timeout_ms == old(self).timeout_ms,
            final(self).devices.deep_view() == old(self).devices.deep_view() + (match received {
                Received::Datagram(bytes) => announced(bytes@),
                _ => Seq::empty(),
            }),
            more == !(received is TimedOut),
    {
        match received {
            Received::Datagram(bytes) => {
                let text = lossy_text(bytes.as_slice());
                match SsdpClient::parse_response(text.as_str()) {
                    Some(device) => {
                        self.devices.push(device);
                    },
                    None => {},
                }
                true
            },
            Received::TimedOut => {
                false
            },
            Received::Failed(_) => {
                true
            },
        }
    }

    /// Decides whether the search still collects responses when `elapsed_ms`
    /// milliseconds have passed since the request was sent.
    pub fn within_budget(&self, elapsed_ms: u64) -> (open: bool)
        ensures
            open == (elapsed_ms < self.timeout_ms),
    {
        elapsed_ms < self.timeout_ms
    }

    /// Ends the search and hands out the devices found.
    pub fn into_devices(self) -> (devices: Vec<SsdpDevice>)
        ensures
            devices == self.devices,
    {
        self.devices
    }
}

/// The discovery client.
#[derive(Debug, Clone, Copy, PartialEq, Eq)]
pub struct SsdpClient {
    timeout_ms: u64,
}

impl SsdpClient {
    /// A client whose searches last five seconds.
    pub fn new() -> (client: Result<SsdpClient, UpnpError>)
        ensures
            client matches Ok(c) && c.timeout() == DEFAULT_TIMEOUT_MS,
    {
        Ok(SsdpClient { timeout_ms: DEFAULT_TIMEOUT_MS })
    }

    /// How long a search of this client lasts, in milliseconds.
    pub closed spec fn timeout(&self) -> u64 {
        self.timeout_ms
    }

    /// How long a search of this client lasts, in milliseconds.
    #[verifier::when_used_as_spec(timeout)]
    pub fn timeout_ms(&self) -> (ms: u64)
        ensures
            ms == self.timeout(),
    {
        self.timeout_ms
    }

    /// The same client with searches that last `timeout_ms` milliseconds.
    pub fn with_timeout(self, timeout_ms: u64) -> (client: SsdpClient)
        ensures
            client.timeout() == timeout_ms,
    {
        SsdpClient { timeout_ms }
    }

    /// Starts a search for every device and service.
    pub fn discover(&self) -> (search: SsdpSearch)
        ensures
            search.request@ == search_request("ssdp:all"@),
            search.destination@ == MULTICAST_ADDRESS@,
            search.timeout_ms == self.timeout(),
            search.devices@.len() == 0,
    {
        self.search("ssdp:all")
    }

    /// Starts a search for `search_target`: no device has answered yet.
    pub fn search(&self, search_target: &str) -> (search: SsdpSearch)
        ensures
            search.request@ == search_request(search_target@),
            search.destination@ == MULTICAST_ADDRESS@,
            search.timeout_ms == self.timeout(),
            search.devices@.len() == 0,
    {
        let mut request =
            "M-SEARCH * HTTP/1.1\r\nHOST: 239.255.255.250:1900\r\nMAN: \"ssdp:discover\"\r\nMX: 3\r\nST: ".to_owned();
        request.append(search_target);
        request.append("\r\n\r\n");
        SsdpSearch {
            request,
            destination: MULTICAST_ADDRESS.to_owned(),
            timeout_ms: self.timeout_ms,
            devices: Vec::new(),
        }
    }

    /// Opens a listener for presence notifications.
    pub fn listen_notifications(&self) -> (listener: Result<SsdpNotificationListener, UpnpError>)
        ensures
            listener matches Ok(l) && l == SsdpNotificationListener::settings(),
    {
        SsdpNotificationListener::new()
    }

    /// Parses a search response. The text must start with the success status
    /// line; its `location`, `usn`, `server`, `st` and `cache-control` headers
    /// make the device, and a text without a location yields none.
    pub fn parse_response(response: &str) -> (device: Option<SsdpDevice>)
        ensures
            device.is_some() == search_response(response@).is_some(),
            device.is_some() ==> device.unwrap()@ == search_response(response@).unwrap(),
    {
        let text = chars_of(response);
        let status = chars_of("HTTP/1.1 200 OK");
        if !has_prefix(&text, &status) {
            return None;
        }
        assert(text@.subrange(0, text.len() as int) =~= text@);
        let device = read_device(&text, 0, "st");
        if device.location.as_str().is_empty() {
            None
        } else {
            Some(device)
        }
    }
}

impl Default for SsdpClient {
    fn default() -> (client: SsdpClient)
        ensures
            client.timeout() == DEFAULT_TIMEOUT_MS,
    {
        SsdpClient { timeout_ms: DEFAULT_TIMEOUT_MS }
    }
}

/// What a listener answers to one receive: the notification of a datagram
/// that holds one, nothing for any other datagram and for a timeout, and an
/// error where the socket failed.
pub open spec fn notified(received: Received) -> Result<
    Option<SsdpNotificationView>,
    UpnpErrorView,
> {
    match received {
        Received::Datagram(bytes) => Ok(presence_notification(utf8_lossy(bytes@))),
        Received::TimedOut => Ok(None),
        Received::Failed(reason) => Err(
            UpnpErrorView { kind: ErrorKind::Network, status: 0, detail: reason@ },
        ),
    }
}

/// The listener for presence notifications: the multicast group that it
/// joins, the port on which it listens, and how long one receive may wait.
#[derive(Debug, Clone, Copy, PartialEq, Eq)]
pub struct SsdpNotificationListener {
    pub group: [u8; 4],
    pub port: u16,
    pub poll_ms: u64,
}

impl SsdpNotificationListener {
    /// The settings of every listener.
    pub open spec fn settings() -> SsdpNotificationListener {
        SsdpNotificationListener {
            group: MULTICAST_GROUP,
            port: MULTICAST_PORT,
            poll_ms: NOTIFICATION_POLL_MS,
        }
    }

    /// A listener on the multicast port that waits one second at a time.
    pub fn new() -> (listener: Result<SsdpNotificationListener, UpnpError>)
        ensures
            listener matches Ok(l) && l == Self::settings(),
    {
        Ok(
            SsdpNotificationListener {
                group: MULTICAST_GROUP,
                port: MULTICAST_PORT,
                poll_ms: NOTIFICATION_POLL_MS,
            },
        )
    }

    /// Reads what one receive gave.
    pub fn recv_notification(&self, received: &Received) -> (result: Result<
        Option<SsdpNotification>,
        UpnpError,
    >)
        ensures
            match result {
                Ok(event) => notified(*received) == Ok::<
                    Option<SsdpNotificationView>,
                    UpnpErrorView,
                >(event.deep_view()),
                Err(error) => notified(*received) == Err::<
                    Option<SsdpNotificationView>,
                    UpnpErrorView,
                >(error@),
            },
    {
        match received {
            Received::Datagram(bytes) => {
                let text = lossy_text(bytes.as_slice());
                Ok(Self::parse_notification(text.as_str()))
            },
            Received::TimedOut => Ok(None),
            Received::Failed(reason) => Err(UpnpError::new(ErrorKind::Network, reason.clone())),
        }
    }

    /// Parses a presence notification. The text must start with the notify
    /// request line; the `nts` header says whether the device is alive, leaving
    /// or updated, and any other sub-type yields none. A notification that a
    /// device is alive or updated yields none where it gives no location.
    pub fn parse_notification(message: &str) -> (event: Option<SsdpNotification>)
        ensures
            event.is_some() == presence_notification(message@).is_some(),
            event.is_some() ==> event.unwrap()@ == presence_notification(message@).unwrap(),
    {
        let text = chars_of(message);
        let request = chars_of("NOTIFY * HTTP/1.1");
        if !has_prefix(&text, &request) {
            return None;
        }
        let len = text.len();
        let end = find_in(&text, 0, len, '\n');
        assert(text@.subrange(0, len as int) =~= text@);
        if end == len {
            // A request line alone: no header, so no sub-type.
            proof {
                let headers = lines(text@).drop_first();
                assert(header_value(headers, "nts"@).len() == 0);
                reveal_strlit("ssdp:alive");
                reveal_strlit("ssdp:byebye");
                reveal_strlit("ssdp:update");
            }
            return None;
        }
        let from = end + 1;
        proof {
            assert(lines(text@).drop_first() =~= lines(text@.subrange(from as int, len as int)));
        }
        let nts = read_header(&text, from, "nts");
        if same_text(nts.as_str(), "ssdp:alive") {
            let device = read_device(&text, from, "nt");
            if device.location.as_str().is_empty() {
                None
            } else {
                Some(SsdpNotification::Alive(device))
            }
        } else if same_text(nts.as_str(), "ssdp:byebye") {
            Some(
                SsdpNotification::ByeBye {
                    usn: read_header(&text, from, "usn"),
                    nt: read_header(&text, from, "nt"),
                },
            )
        } else if same_text(nts.as_str(), "ssdp:update") {
            let device = read_device(&text, from, "nt");
            if device.location.as_str().is_empty() {
                None
            } else {
                Some(SsdpNotification::Update(device))
            }
        } else {
            None
        }
    }
}

} // verus!
