//! The reading of a description document: which elements give the fields of
//! the root device and of its services.

use super::{Device, DeviceDescription, DeviceView, Service, ServiceList, ServiceView};
use crate::text::same_text;
use crate::xml::{events_of, XmlEvent, XmlEventView};
use vstd::prelude::*;
use vstd::string::StringExecFns;

verus! {

/// The place of a child of `device` among the fields of a device.
pub open spec fn device_field(name: Seq<char>) -> Option<int> {
    if name == "deviceType"@ {
        Some(0)
    } else if name == "friendlyName"@ {
        Some(1)
    } else if name == "manufacturer"@ {
        Some(2)
    } else if name == "manufacturerURL"@ {
        Some(3)
    } else if name == "modelDescription"@ {
        Some(4)
    } else if name == "modelName"@ {
        Some(5)
    } else if name == "modelNumber"@ {
        Some(6)
    } else if name == "modelURL"@ {
        Some(7)
    } else if name == "serialNumber"@ {
        Some(8)
    } else if name == "UDN"@ {
        Some(9)
    } else {
        None
    }
}

/// The place of a child of `service` among the fields of a service.
pub open spec fn service_field(name: Seq<char>) -> Option<int> {
    if name == "serviceType"@ {
        Some(0)
    } else if name == "serviceId"@ {
        Some(1)
    } else if name == "SCPDURL"@ {
        Some(2)
    } else if name == "controlURL"@ {
        Some(3)
    } else if name == "eventSubURL"@ {
        Some(4)
    } else {
        None
    }
}

/// Whether the open elements are the root and its `device`.
pub open spec fn in_device(path: Seq<Seq<char>>) -> bool {
    path.len() == 2 && path[1] == "device"@
}

/// Whether the innermost open element is a field of the root device.
pub open spec fn in_device_field(path: Seq<Seq<char>>) -> bool {
    path.len() == 3 && path[1] == "device"@ && device_field(path[2]) is Some
}

/// Whether the innermost open element is the service list of the root
/// device.
pub open spec fn in_list(path: Seq<Seq<char>>) -> bool {
    path.len() == 3 && path[1] == "device"@ && path[2] == "serviceList"@
}

/// Whether the innermost open element is a service of that list.
pub open spec fn in_service(path: Seq<Seq<char>>) -> bool {
    path.len() == 4 && path[1] == "device"@ && path[2] == "serviceList"@ && path[3]
        == "service"@
}

/// Whether the innermost open element is a field of such a service.
pub open spec fn in_service_field(path: Seq<Seq<char>>) -> bool {
    path.len() == 5 && path[1] == "device"@ && path[2] == "serviceList"@ && path[3]
        == "service"@ && service_field(path[4]) is Some
}

/// `n` fields, none of them seen.
pub open spec fn no_fields(n: nat) -> Seq<Option<Seq<char>>> {
    Seq::new(n, |i: int| None::<Seq<char>>)
}

/// The text of a field, empty where the field was not seen.
pub open spec fn field_text(field: Option<Seq<char>>) -> Seq<char> {
    match field {
        Some(text) => text,
        None => Seq::empty(),
    }
}

/// The field after `text` is read inside its element.
pub open spec fn field_with(field: Option<Seq<char>>, text: Seq<char>) -> Option<Seq<char>> {
    Some(field_text(field) + text)
}

/// The service that five fields make; none where one of them was not seen.
pub open spec fn service_of(fields: Seq<Option<Seq<char>>>) -> Option<ServiceView> {
    if fields.len() == 5 && fields[0] is Some && fields[1] is Some && fields[2] is Some
        && fields[3] is Some && fields[4] is Some {
        Some(
            ServiceView {
                service_type: field_text(fields[0]),
                service_id: field_text(fields[1]),
                scpd_url: field_text(fields[2]),
                control_url: field_text(fields[3]),
                event_sub_url: field_text(fields[4]),
            },
        )
    } else {
        None
    }
}

/// Where the reading of a description stands: the names of the open
/// elements from the root inwards, the fields of the root device seen so
/// far, whether its `device` and `serviceList` elements were seen, the
/// fields of the service that is being read, the services read so far, and
/// whether the document broke a rule.
pub ghost struct DescriptionScan {
    pub path: Seq<Seq<char>>,
    pub device: Seq<Option<Seq<char>>>,
    pub seen_device: bool,
    pub seen_list: bool,
    pub service: Seq<Option<Seq<char>>>,
    pub services: Seq<ServiceView>,
    pub failed: bool,
}

/// The reading after the start tag `name`. A second `device`, a second
/// `serviceList` and a field that comes twice break the rules.
pub open spec fn opens(state: DescriptionScan, name: Seq<char>) -> DescriptionScan {
    let path = state.path;
    let next = DescriptionScan { path: path.push(name), ..state };
    if path.len() == 1 && name == "device"@ {
        if state.seen_device {
            DescriptionScan { failed: true, ..next }
        } else {
            DescriptionScan { seen_device: true, ..next }
        }
    } else if in_device(path) && name == "serviceList"@ {
        if state.seen_list {
            DescriptionScan { failed: true, ..next }
        } else {
            DescriptionScan { seen_list: true, ..next }
        }
    } else if in_device(path) && device_field(name) is Some {
        let k = device_field(name).unwrap();
        if state.device[k] is Some {
            DescriptionScan { failed: true, ..next }
        } else {
            DescriptionScan { device: state.device.update(k, Some(Seq::empty())), ..next }
        }
    } else if in_list(path) && name == "service"@ {
        DescriptionScan { service: no_fields(5), ..next }
    } else if in_service(path) && service_field(name) is Some {
        let k = service_field(name).unwrap();
        if state.service[k] is Some {
            DescriptionScan { failed: true, ..next }
        } else {
            DescriptionScan { service: state.service.update(k, Some(Seq::empty())), ..next }
        }
    } else {
        next
    }
}

/// The reading after the end tag of the innermost open element. A service
/// that ends without one of its fields breaks the rules.
pub open spec fn closes(state: DescriptionScan) -> DescriptionScan {
    let next = DescriptionScan {
        path: if state.path.len() > 0 {
            state.path.drop_last()
        } else {
            state.path
        },
        ..state
    };
    if in_service(state.path) {
        match service_of(state.service) {
            Some(service) => DescriptionScan { services: state.services.push(service), ..next },
            None => DescriptionScan { failed: true, ..next },
        }
    } else {
        next
    }
}

/// How one event moves the reading on.
pub open spec fn scan_description(state: DescriptionScan, event: XmlEventView) -> DescriptionScan {
    match event {
        XmlEventView::Start(name) => opens(state, name),
        XmlEventView::End(_) => closes(state),
        XmlEventView::Empty(name) => closes(opens(state, name)),
        XmlEventView::Text(text) | XmlEventView::CData(text) => if in_device_field(state.path) {
            let k = device_field(state.path[2]).unwrap();
            DescriptionScan {
                device: state.device.update(k, field_with(state.device[k], text)),
                ..state
            }
        } else if in_service_field(state.path) {
            let k = service_field(state.path[4]).unwrap();
            DescriptionScan {
                service: state.service.update(k, field_with(state.service[k], text)),
                ..state
            }
        } else {
            state
        },
        XmlEventView::BadText => if in_device_field(state.path) || in_service_field(state.path) {
            DescriptionScan { failed: true, ..state }
        } else {
            state
        },
        _ => state,
    }
}

/// Where the reading that stood at `state` stands after `events`.
pub open spec fn scan_descriptions_from(
    state: DescriptionScan,
    events: Seq<XmlEventView>,
) -> DescriptionScan
    decreases events.len(),
{
    if events.len() == 0 {
        state
    } else {
        scan_description(scan_descriptions_from(state, events.drop_last()), events.last())
    }
}

/// Where the reading stands after `events`.
pub open spec fn scan_descriptions(events: Seq<XmlEventView>) -> DescriptionScan {
    scan_descriptions_from(
        DescriptionScan {
            path: Seq::empty(),
            device: no_fields(10),
            seen_device: false,
            seen_list: false,
            service: no_fields(5),
            services: Seq::empty(),
            failed: false,
        },
        events,
    )
}

/// The device that a finished reading describes. Every element must have
/// been closed, and the type, the friendly name, the manufacturer, the
/// model name and the unique name must have been seen; the other fields
/// are empty where they were not.
pub open spec fn described(state: DescriptionScan) -> Option<DeviceView> {
    if !state.failed && state.path.len() == 0 && state.seen_device && state.device.len() == 10
        && state.device[0] is Some
        && state.device[1] is Some && state.device[2] is Some && state.device[5] is Some
        && state.device[9] is Some {
        Some(
            DeviceView {
                device_type: field_text(state.device[0]),
                friendly_name: field_text(state.device[1]),
                manufacturer: field_text(state.device[2]),
                manufacturer_url: field_text(state.device[3]),
                model_description: field_text(state.device[4]),
                model_name: field_text(state.device[5]),
                model_number: field_text(state.device[6]),
                model_url: field_text(state.device[7]),
                serial_number: field_text(state.device[8]),
                udn: field_text(state.device[9]),
                services: state.services,
            },
        )
    } else {
        None
    }
}

/// The device that the events of a description document describe.
pub open spec fn description_of(events: Seq<XmlEventView>) -> Option<DeviceView> {
    described(scan_descriptions(events))
}

/// The device that a description document describes, each field without
/// the white space around it; none where the document is not well-formed
/// or not a description.
pub open spec fn device_description(xml: Seq<char>) -> Option<DeviceView> {
    match events_of(xml, true) {
        Some(events) => description_of(events),
        None => None,
    }
}

/// A broken rule is never forgotten.
pub proof fn lemma_description_failure_stays(events: Seq<XmlEventView>, k: int)
    requires
        0 <= k <= events.len(),
        scan_descriptions(events.subrange(0, k)).failed,
    ensures
        scan_descriptions(events).failed,
    decreases events.len() - k,
{
    if k == events.len() {
        assert(events.subrange(0, k) =~= events);
    } else {
        assert(events.drop_last().subrange(0, k) =~= events.subrange(0, k));
        lemma_description_failure_stays(events.drop_last(), k);
    }
}

/// Finds the place of a device field.
fn device_field_of(name: &str) -> (k: Option<usize>)
    ensures
        k is Some == device_field(name@) is Some,
        k matches Some(i) ==> i < 10 && device_field(name@) == Some(i as int),
{
    if same_text(name, "deviceType") {
        Some(0)
    } else if same_text(name, "friendlyName") {
        Some(1)
    } else if same_text(name, "manufacturer") {
        Some(2)
    } else if same_text(name, "manufacturerURL") {
        Some(3)
    } else if same_text(name, "modelDescription") {
        Some(4)
    } else if same_text(name, "modelName") {
        Some(5)
    } else if same_text(name, "modelNumber") {
        Some(6)
    } else if same_text(name, "modelURL") {
        Some(7)
    } else if same_text(name, "serialNumber") {
        Some(8)
    } else if same_text(name, "UDN") {
        Some(9)
    } else {
        None
    }
}

/// Finds the place of a service field.
fn service_field_of(name: &str) -> (k: Option<usize>)
    ensures
        k is Some == service_field(name@) is Some,
        k matches Some(i) ==> i < 5 && service_field(name@) == Some(i as int),
{
    if same_text(name, "serviceType") {
        Some(0)
    } else if same_text(name, "serviceId") {
        Some(1)
    } else if same_text(name, "SCPDURL") {
        Some(2)
    } else if same_text(name, "controlURL") {
        Some(3)
    } else if same_text(name, "eventSubURL") {
        Some(4)
    } else {
        None
    }
}

/// Decides whether the element at `index` of `path` is called `name`.
fn named(path: &Vec<String>, index: usize, name: &str) -> (b: bool)
    requires
        index < path.len(),
    ensures
        b == (path.deep_view()[index as int] == name@),
{
    same_text(path[index].as_str(), name)
}

/// `n` fields, none of them seen.
fn empty_fields(n: usize) -> (fields: Vec<Option<String>>)
    ensures
        fields.len() == n,
        fields.deep_view() == no_fields(n as nat),
{
    let mut fields: Vec<Option<String>> = Vec::new();
    let mut i: usize = 0;
    while i < n
        invariant
            0 <= i <= n,
            fields.len() == i,
            forall|j: int| 0 <= j < i ==> fields@[j] is None,
        decreases n - i,
    {
        fields.push(None);
        i += 1;
    }
    fields
}

/// The text of the field at `k`, empty where the field was not seen.
fn text_of(fields: &Vec<Option<String>>, k: usize) -> (text: String)
    requires
        k < fields.len(),
    ensures
        text@ == field_text(fields.deep_view()[k as int]),
{
    match &fields[k] {
        Some(text) => text.clone(),
        None => String::new(),
    }
}

/// Whether the field at `k` was seen.
fn seen(fields: &Vec<Option<String>>, k: usize) -> (b: bool)
    requires
        k < fields.len(),
    ensures
        b == fields.deep_view()[k as int] is Some,
{
    fields[k].is_some()
}

/// Marks the field at `k` as seen, or reports that it was seen before.
fn mark(fields: &mut Vec<Option<String>>, k: usize) -> (fresh: bool)
    requires
        k < old(fields).len(),
    ensures
        fresh == old(fields).deep_view()[k as int] is None,
        fresh ==> final(fields).deep_view() == old(fields).deep_view().update(
            k as int,
            Some(Seq::<char>::empty()),
        ),
        !fresh ==> final(fields).deep_view() == old(fields).deep_view(),
        final(fields).len() == old(fields).len(),
{
    if seen(fields, k) {
        false
    } else {
        fields[k] = Some(String::new());
        true
    }
}

/// Adds `text` to the field at `k`.
fn extend(fields: &mut Vec<Option<String>>, k: usize, text: &str)
    requires
        k < old(fields).len(),
    ensures
        final(fields).deep_view() == old(fields).deep_view().update(
            k as int,
            field_with(old(fields).deep_view()[k as int], text@),
        ),
        final(fields).len() == old(fields).len(),
{
    let mut whole = text_of(fields, k);
    whole.append(text);
    fields[k] = Some(whole);
}

/// Makes the service of five fields, if all of them were seen.
fn make_service(fields: &Vec<Option<String>>) -> (service: Option<Service>)
    requires
        fields.len() == 5,
    ensures
        service.deep_view() == service_of(fields.deep_view()),
{
    if seen(fields, 0) && seen(fields, 1) && seen(fields, 2) && seen(fields, 3) && seen(fields, 4) {
        Some(
            Service {
                service_type: text_of(fields, 0),
                service_id: text_of(fields, 1),
                scpd_url: text_of(fields, 2),
                control_url: text_of(fields, 3),
                event_sub_url: text_of(fields, 4),
            },
        )
    } else {
        None
    }
}

/// The reading of a description in progress.
struct Reading {
    path: Vec<String>,
    device: Vec<Option<String>>,
    seen_device: bool,
    seen_list: bool,
    service: Vec<Option<String>>,
    services: Vec<Service>,
}

impl Reading {
    /// The state that the reading stands for, as long as no rule is broken.
    spec fn state(&self) -> DescriptionScan {
        DescriptionScan {
            path: self.path.deep_view(),
            device: self.device.deep_view(),
            seen_device: self.seen_device,
            seen_list: self.seen_list,
            service: self.service.deep_view(),
            services: self.services.deep_view(),
            failed: false,
        }
    }

    /// Whether the lists of fields have their lengths.
    spec fn sized(&self) -> bool {
        self.device.len() == 10 && self.service.len() == 5
    }

    /// Whether the root device is the innermost open element.
    fn in_device(&self) -> (b: bool)
        ensures
            b == in_device(self.path.deep_view()),
    {
        self.path.len() == 2 && named(&self.path, 1, "device")
    }

    /// Whether the service list is the innermost open element.
    fn in_list(&self) -> (b: bool)
        ensures
            b == in_list(self.path.deep_view()),
    {
        self.path.len() == 3 && named(&self.path, 1, "device") && named(
            &self.path,
            2,
            "serviceList",
        )
    }

    /// Whether a service is the innermost open element.
    fn in_service(&self) -> (b: bool)
        ensures
            b == in_service(self.path.deep_view()),
    {
        self.path.len() == 4 && named(&self.path, 1, "device") && named(
            &self.path,
            2,
            "serviceList",
        ) && named(&self.path, 3, "service")
    }

    /// The place of the device field that is open, if one is.
    fn open_device_field(&self) -> (k: Option<usize>)
        ensures
            k is Some == in_device_field(self.path.deep_view()),
            k matches Some(i) ==> i < 10 && device_field(self.path.deep_view()[2]) == Some(
                i as int,
            ),
    {
        if self.path.len() == 3 && named(&self.path, 1, "device") {
            device_field_of(self.path[2].as_str())
        } else {
            None
        }
    }

    /// The place of the service field that is open, if one is.
    fn open_service_field(&self) -> (k: Option<usize>)
        ensures
            k is Some == in_service_field(self.path.deep_view()),
            k matches Some(i) ==> i < 5 && service_field(self.path.deep_view()[4]) == Some(
                i as int,
            ),
    {
        if self.path.len() == 5 && named(&self.path, 1, "device") && named(
            &self.path,
            2,
            "serviceList",
        ) && named(&self.path, 3, "service") {
            service_field_of(self.path[4].as_str())
        } else {
            None
        }
    }

    /// Takes a start tag; `false` reports a broken rule.
    fn open(&mut self, name: &String) -> (ok: bool)
        requires
            old(self).sized(),
        ensures
            final(self).sized(),
            ok == !opens(old(self).state(), name@).failed,
            ok ==> final(self).state() == opens(old(self).state(), name@),
    {
        let ghost before = self.state();
        let mut ok = true;
        if self.path.len() == 1 && same_text(name.as_str(), "device") {
            if self.seen_device {
                ok = false;
            } else {
                self.seen_device = true;
            }
        } else if self.in_device() && same_text(name.as_str(), "serviceList") {
            if self.seen_list {
                ok = false;
            } else {
                self.seen_list = true;
            }
        } else if self.in_device() {
            match device_field_of(name.as_str()) {
                Some(k) => {
                    ok = mark(&mut self.device, k);
                },
                None => {},
            }
        } else if self.in_list() && same_text(name.as_str(), "service") {
            self.service = empty_fields(5);
        } else if self.in_service() {
            match service_field_of(name.as_str()) {
                Some(k) => {
                    ok = mark(&mut self.service, k);
                },
                None => {},
            }
        }
        self.path.push(name.clone());
        assert(self.path.deep_view() =~= before.path.push(name@));
        ok
    }

    /// Takes an end tag; `false` reports a broken rule.
    fn close(&mut self) -> (ok: bool)
        requires
            old(self).sized(),
        ensures
            final(self).sized(),
            ok == !closes(old(self).state()).failed,
            ok ==> final(self).state() == closes(old(self).state()),
    {
        let ghost before = self.state();
        let mut ok = true;
        if self.in_service() {
            match make_service(&self.service) {
                Some(service) => {
                    self.services.push(service);
                    assert(self.services.deep_view() =~= before.services.push(service@));
                },
                None => {
                    ok = false;
                },
            }
        }
        if self.path.len() > 0 {
            self.path.pop();
            assert(self.path.deep_view() =~= before.path.drop_last());
        }
        ok
    }

    /// Takes one event; `false` reports a broken rule.
    fn take(&mut self, event: &XmlEvent) -> (ok: bool)
        requires
            old(self).sized(),
        ensures
            final(self).sized(),
            ok == !scan_description(old(self).state(), event@).failed,
            ok ==> final(self).state() == scan_description(old(self).state(), event@),
    {
        match event {
            XmlEvent::Start(name) => self.open(name),
            XmlEvent::End(_) => self.close(),
            XmlEvent::Empty(name) => {
                if self.open(name) {
                    self.close()
                } else {
                    false
                }
            },
            XmlEvent::Text(text) | XmlEvent::CData(text) => {
                match self.open_device_field() {
                    Some(k) => {
                        extend(&mut self.device, k, text.as_str());
                    },
                    None => {
                        match self.open_service_field() {
                            Some(k) => {
                                extend(&mut self.service, k, text.as_str());
                            },
                            None => {},
                        }
                    },
                }
                true
            },
            XmlEvent::BadText => {
                self.open_device_field().is_none() && self.open_service_field().is_none()
            },
            _ => true,
        }
    }

    /// Makes the device of a finished reading.
    fn finish(self) -> (device: Option<Device>)
        requires
            self.sized(),
        ensures
            match device {
                Some(d) => described(self.state()) == Some(d@),
                None => described(self.state()) is None,
            },
    {
        if self.path.len() == 0 && self.seen_device && seen(&self.device, 0) && seen(
            &self.device,
            1,
        ) && seen(&self.device, 2) && seen(&self.device, 5) && seen(&self.device, 9) {
            Some(
                Device {
                    device_type: text_of(&self.device, 0),
                    friendly_name: text_of(&self.device, 1),
                    manufacturer: text_of(&self.device, 2),
                    manufacturer_url: text_of(&self.device, 3),
                    model_description: text_of(&self.device, 4),
                    model_name: text_of(&self.device, 5),
                    model_number: text_of(&self.device, 6),
                    model_url: text_of(&self.device, 7),
                    serial_number: text_of(&self.device, 8),
                    udn: text_of(&self.device, 9),
                    service_list: ServiceList { services: self.services },
                },
            )
        } else {
            None
        }
    }
}

/// Builds the device that the events of a description document
/// describe: the children of the `device` element under the root give
/// its fields, and the `service` elements of its `serviceList` give its
/// services in their order.
pub fn describe(events: &Vec<XmlEvent>) -> (description: Option<DeviceDescription>)
    ensures
        match description {
            Some(d) => description_of(events.deep_view()) == Some(d@),
            None => description_of(events.deep_view()) is None,
        },
{
    let ghost all = events.deep_view();
    let mut reading = Reading {
        path: Vec::new(),
        device: empty_fields(10),
        seen_device: false,
        seen_list: false,
        service: empty_fields(5),
        services: Vec::new(),
    };
    let mut i: usize = 0;
    proof {
        assert(reading.path.deep_view() =~= Seq::<Seq<char>>::empty());
        assert(reading.services.deep_view() =~= Seq::<ServiceView>::empty());
    }
    while i < events.len()
        invariant
            0 <= i <= events.len(),
            all == events.deep_view(),
            reading.sized(),
            scan_descriptions(all.subrange(0, i as int)) == reading.state(),
        decreases events.len() - i,
    {
        proof {
            let next = all.subrange(0, i + 1);
            assert(next.drop_last() =~= all.subrange(0, i as int));
        }
        if !reading.take(&events[i]) {
            proof {
                lemma_description_failure_stays(all, i + 1);
            }
            return None;
        }
        i += 1;
    }
    assert(all.subrange(0, events.len() as int) =~= all);
    match reading.finish() {
        Some(device) => Some(DeviceDescription { device }),
        None => None,
    }
}

} // verus!
