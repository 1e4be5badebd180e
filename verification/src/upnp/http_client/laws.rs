//! What holds of the reading of descriptions: a description gives the
//! device that it was written for, whatever the order of its fields and
//! whatever else stands beside them.

use super::document::{
    description_of, device_field, field_text, in_device, in_device_field, in_list, in_service,
    in_service_field, no_fields, scan_description, scan_descriptions_from, service_field,
    service_of, DescriptionScan,
};
use super::{DeviceView, ServiceView};
use crate::xml::XmlEventView;
use vstd::prelude::*;

verus! {

/// The events of one field: its tags with its text between them.
pub open spec fn field_events(name: Seq<char>, value: Seq<char>) -> Seq<XmlEventView> {
    seq![XmlEventView::Start(name), XmlEventView::Text(value), XmlEventView::End(name)]
}

/// Reading two runs of events one after the other is reading their
/// concatenation.
pub proof fn lemma_scan_descriptions_concat(
    state: DescriptionScan,
    first: Seq<XmlEventView>,
    second: Seq<XmlEventView>,
)
    ensures
        scan_descriptions_from(state, first + second) == scan_descriptions_from(
            scan_descriptions_from(state, first),
            second,
        ),
    decreases second.len(),
{
    if second.len() != 0 {
        lemma_scan_descriptions_concat(state, first, second.drop_last());
        assert((first + second).drop_last() =~= first + second.drop_last());
    }
}

/// Inside the root device, the events of a field that was not seen before
/// give the field its text.
proof fn lemma_scan_device_field(state: DescriptionScan, name: Seq<char>, k: int, value: Seq<char>)
    requires
        in_device(state.path),
        device_field(name) == Some(k),
        name != "serviceList"@,
        0 <= k < 10,
        state.device.len() == 10,
        state.device[k] is None,
    ensures
        scan_descriptions_from(state, field_events(name, value)) == (DescriptionScan {
            device: state.device.update(k, Some(value)),
            ..state
        }),
{
    let e3 = field_events(name, value);
    let e2 = e3.drop_last();
    let e1 = e2.drop_last();
    assert(scan_descriptions_from(state, e1.drop_last()) == state);
    let path = state.path.push(name);
    let s1 = DescriptionScan {
        path,
        device: state.device.update(k, Some(Seq::<char>::empty())),
        ..state
    };
    assert(scan_descriptions_from(state, e1) == s1);
    let s2 = DescriptionScan { device: state.device.update(k, Some(value)), ..s1 };
    assert(s1.device.update(k, Some(value)) =~= state.device.update(k, Some(value)));
    assert(scan_descriptions_from(state, e2) == s2);
    assert(path.drop_last() =~= state.path);
}

/// Inside a service, the events of a field that was not seen before give
/// the field its text.
proof fn lemma_scan_service_field(state: DescriptionScan, name: Seq<char>, k: int, value: Seq<char>)
    requires
        in_service(state.path),
        service_field(name) == Some(k),
        0 <= k < 5,
        state.service.len() == 5,
        state.service[k] is None,
    ensures
        scan_descriptions_from(state, field_events(name, value)) == (DescriptionScan {
            service: state.service.update(k, Some(value)),
            ..state
        }),
{
    let e3 = field_events(name, value);
    let e2 = e3.drop_last();
    let e1 = e2.drop_last();
    assert(scan_descriptions_from(state, e1.drop_last()) == state);
    let path = state.path.push(name);
    let s1 = DescriptionScan {
        path,
        service: state.service.update(k, Some(Seq::<char>::empty())),
        ..state
    };
    assert(scan_descriptions_from(state, e1) == s1);
    let s2 = DescriptionScan { service: state.service.update(k, Some(value)), ..s1 };
    assert(s1.service.update(k, Some(value)) =~= state.service.update(k, Some(value)));
    assert(scan_descriptions_from(state, e2) == s2);
    assert(path.drop_last() =~= state.path);
}

/// The name of the element that gives the device field at place `k`.
pub open spec fn device_field_name(k: int) -> Seq<char> {
    if k == 0 {
        "deviceType"@
    } else if k == 1 {
        "friendlyName"@
    } else if k == 2 {
        "manufacturer"@
    } else if k == 3 {
        "manufacturerURL"@
    } else if k == 4 {
        "modelDescription"@
    } else if k == 5 {
        "modelName"@
    } else if k == 6 {
        "modelNumber"@
    } else if k == 7 {
        "modelURL"@
    } else if k == 8 {
        "serialNumber"@
    } else {
        "UDN"@
    }
}

/// The name of the element that gives the service field at place `k`.
pub open spec fn service_field_name(k: int) -> Seq<char> {
    if k == 0 {
        "serviceType"@
    } else if k == 1 {
        "serviceId"@
    } else if k == 2 {
        "SCPDURL"@
    } else if k == 3 {
        "controlURL"@
    } else {
        "eventSubURL"@
    }
}

/// The events of service fields, each given by its place and its text, in
/// the order in which they are written.
pub open spec fn service_fields_events(fields: Seq<(int, Seq<char>)>) -> Seq<XmlEventView>
    decreases fields.len(),
{
    if fields.len() == 0 {
        Seq::empty()
    } else {
        service_fields_events(fields.drop_last()) + field_events(
            service_field_name(fields.last().0),
            fields.last().1,
        )
    }
}

/// The events of one `service` element with the fields `fields`.
pub open spec fn written_service(fields: Seq<(int, Seq<char>)>) -> Seq<XmlEventView> {
    seq![XmlEventView::Start("service"@)] + service_fields_events(fields) + seq![
        XmlEventView::End("service"@),
    ]
}

/// The events of `service` elements, in their order.
pub open spec fn written_services(services: Seq<Seq<(int, Seq<char>)>>) -> Seq<XmlEventView>
    decreases services.len(),
{
    if services.len() == 0 {
        Seq::empty()
    } else {
        written_services(services.drop_last()) + written_service(services.last())
    }
}

/// The fields `base` after each of `fields` is given its text.
pub open spec fn with_fields(base: Seq<Option<Seq<char>>>, fields: Seq<(int, Seq<char>)>) -> Seq<
    Option<Seq<char>>,
>
    decreases fields.len(),
{
    if fields.len() == 0 {
        base
    } else {
        with_fields(base, fields.drop_last()).update(fields.last().0, Some(fields.last().1))
    }
}

/// Whether `fields` name places below `n` and no place twice.
pub open spec fn fresh_fields(fields: Seq<(int, Seq<char>)>, n: int) -> bool {
    &&& forall|i: int| 0 <= i < fields.len() ==> 0 <= (#[trigger] fields[i]).0 < n
    &&& forall|i: int, j: int|
        0 <= i < j < fields.len() ==> (#[trigger] fields[i]).0 != (#[trigger] fields[j]).0
}

/// Whether one of `fields` gives the place `k`.
pub open spec fn gives(fields: Seq<(int, Seq<char>)>, k: int) -> bool {
    exists|i: int| 0 <= i < fields.len() && (#[trigger] fields[i]).0 == k
}

/// Whether `fields` make a whole service: each of the five fields once.
pub open spec fn whole_service(fields: Seq<(int, Seq<char>)>) -> bool {
    &&& fresh_fields(fields, 5)
    &&& gives(fields, 0)
    &&& gives(fields, 1)
    &&& gives(fields, 2)
    &&& gives(fields, 3)
    &&& gives(fields, 4)
}

/// The service that `fields` describe.
pub open spec fn service_from(fields: Seq<(int, Seq<char>)>) -> ServiceView {
    let all = with_fields(no_fields(5), fields);
    ServiceView {
        service_type: field_text(all[0]),
        service_id: field_text(all[1]),
        scpd_url: field_text(all[2]),
        control_url: field_text(all[3]),
        event_sub_url: field_text(all[4]),
    }
}

/// The services that the `service` elements of a list describe, in their
/// order.
pub open spec fn services_from(services: Seq<Seq<(int, Seq<char>)>>) -> Seq<ServiceView> {
    Seq::new(services.len(), |i: int| service_from(services[i]))
}

/// The device that `fields` and `services` describe: a field that is not
/// given is empty.
pub open spec fn device_from(fields: Seq<(int, Seq<char>)>, services: Seq<ServiceView>) -> DeviceView {
    let all = with_fields(no_fields(10), fields);
    DeviceView {
        device_type: field_text(all[0]),
        friendly_name: field_text(all[1]),
        manufacturer: field_text(all[2]),
        manufacturer_url: field_text(all[3]),
        model_description: field_text(all[4]),
        model_name: field_text(all[5]),
        model_number: field_text(all[6]),
        model_url: field_text(all[7]),
        serial_number: field_text(all[8]),
        udn: field_text(all[9]),
        services,
    }
}

/// The names of all fields are told apart, and none is the name of the
/// service list.
proof fn lemma_all_field_names()
    ensures
        forall|k: int| 0 <= k < 10 ==> device_field(#[trigger] device_field_name(k)) == Some(k),
        forall|k: int| 0 <= k < 10 ==> #[trigger] device_field_name(k) != "serviceList"@,
        forall|k: int| 0 <= k < 5 ==> service_field(#[trigger] service_field_name(k)) == Some(k),
{
    reveal_strlit("deviceType");
    reveal_strlit("friendlyName");
    reveal_strlit("manufacturer");
    reveal_strlit("manufacturerURL");
    reveal_strlit("modelDescription");
    reveal_strlit("modelName");
    reveal_strlit("modelNumber");
    reveal_strlit("modelURL");
    reveal_strlit("serialNumber");
    reveal_strlit("UDN");
    reveal_strlit("serviceList");
    reveal_strlit("serviceType");
    reveal_strlit("serviceId");
    reveal_strlit("SCPDURL");
    reveal_strlit("controlURL");
    reveal_strlit("eventSubURL");
    assert("deviceType"@.len() == 10);
    assert("friendlyName"@.len() == 12);
    assert("manufacturer"@.len() == 12);
    assert("manufacturerURL"@.len() == 15);
    assert("modelDescription"@.len() == 16);
    assert("modelName"@.len() == 9);
    assert("modelNumber"@.len() == 11);
    assert("modelURL"@.len() == 8);
    assert("serialNumber"@.len() == 12);
    assert("UDN"@.len() == 3);
    assert("serviceList"@.len() == 11);
    assert("serviceType"@.len() == 11);
    assert("serviceId"@.len() == 9);
    assert("SCPDURL"@.len() == 7);
    assert("controlURL"@.len() == 10);
    assert("eventSubURL"@.len() == 11);
    assert("friendlyName"@[0] == 'f' && "manufacturer"@[0] == 'm' && "serialNumber"@[0] == 's');
    assert("modelNumber"@[0] == 'm' && "serviceList"@[0] == 's');
    assert("eventSubURL"@[0] == 'e' && "serviceType"@[0] == 's');
    assert forall|k: int| 0 <= k < 10 implies device_field(#[trigger] device_field_name(k))
        == Some(k) by {}
    assert forall|k: int| 0 <= k < 10 implies #[trigger] device_field_name(k)
        != "serviceList"@ by {}
    assert forall|k: int| 0 <= k < 5 implies service_field(#[trigger] service_field_name(k))
        == Some(k) by {}
}

/// Giving fields their texts leaves the number of fields as it was.
pub proof fn lemma_with_fields_len(base: Seq<Option<Seq<char>>>, fields: Seq<(int, Seq<char>)>)
    requires
        fresh_fields(fields, base.len() as int),
    ensures
        with_fields(base, fields).len() == base.len(),
    decreases fields.len(),
{
    if fields.len() > 0 {
        let front = fields.drop_last();
        assert forall|i: int| 0 <= i < front.len() implies 0 <= (#[trigger] front[i]).0
            < base.len() by {
            assert(front[i] == fields[i]);
        }
        assert forall|i: int, j: int| 0 <= i < j < front.len() implies (#[trigger] front[i]).0 != (
        #[trigger] front[j]).0 by {
            assert(front[i] == fields[i]);
            assert(front[j] == fields[j]);
        }
        lemma_with_fields_len(base, front);
    }
}

/// A place that none of the fields names keeps what it held.
pub proof fn lemma_with_fields_other(
    base: Seq<Option<Seq<char>>>,
    fields: Seq<(int, Seq<char>)>,
    k: int,
)
    requires
        fresh_fields(fields, base.len() as int),
        0 <= k < base.len(),
        !gives(fields, k),
    ensures
        with_fields(base, fields)[k] == base[k],
    decreases fields.len(),
{
    if fields.len() > 0 {
        let front = fields.drop_last();
        lemma_fresh_front(fields, base.len() as int);
        assert(!gives(front, k)) by {
            if gives(front, k) {
                let i = choose|i: int| 0 <= i < front.len() && (#[trigger] front[i]).0 == k;
                assert(fields[i] == front[i]);
            }
        }
        lemma_with_fields_other(base, front, k);
        lemma_with_fields_len(base, front);
        assert(fields[fields.len() - 1].0 != k);
    }
}

/// A place that one of the fields names holds a text.
pub proof fn lemma_with_fields_given(
    base: Seq<Option<Seq<char>>>,
    fields: Seq<(int, Seq<char>)>,
    k: int,
)
    requires
        fresh_fields(fields, base.len() as int),
        0 <= k < base.len(),
        gives(fields, k),
    ensures
        with_fields(base, fields)[k] is Some,
    decreases fields.len(),
{
    if fields.len() > 0 {
        let front = fields.drop_last();
        lemma_fresh_front(fields, base.len() as int);
        lemma_with_fields_len(base, front);
        if fields.last().0 != k {
            let i = choose|i: int| 0 <= i < fields.len() && (#[trigger] fields[i]).0 == k;
            assert(front[i] == fields[i]);
            lemma_with_fields_given(base, front, k);
        }
    }
}

/// All but the last of fresh fields are fresh, and none of them names the
/// place of the last.
pub proof fn lemma_fresh_front(fields: Seq<(int, Seq<char>)>, n: int)
    requires
        fresh_fields(fields, n),
        fields.len() > 0,
    ensures
        fresh_fields(fields.drop_last(), n),
        !gives(fields.drop_last(), fields.last().0),
        0 <= fields.last().0 < n,
{
    let front = fields.drop_last();
    assert forall|i: int| 0 <= i < front.len() implies 0 <= (#[trigger] front[i]).0 < n by {
        assert(front[i] == fields[i]);
    }
    assert forall|i: int, j: int| 0 <= i < j < front.len() implies (#[trigger] front[i]).0 != (
    #[trigger] front[j]).0 by {
        assert(front[i] == fields[i]);
        assert(front[j] == fields[j]);
    }
    assert(fields.last() == fields[fields.len() - 1]);
    if gives(front, fields.last().0) {
        let i = choose|i: int| 0 <= i < front.len() && (#[trigger] front[i]).0 == fields.last().0;
        assert(front[i] == fields[i]);
    }
}

/// Inside a service, the events of fields that were not seen before give
/// the fields their texts.
pub proof fn lemma_scan_service_fields(state: DescriptionScan, fields: Seq<(int, Seq<char>)>)
    requires
        in_service(state.path),
        state.service.len() == 5,
        fresh_fields(fields, 5),
        forall|i: int| 0 <= i < fields.len() ==> state.service[(#[trigger] fields[i]).0] is None,
    ensures
        scan_descriptions_from(state, service_fields_events(fields)) == (DescriptionScan {
            service: with_fields(state.service, fields),
            ..state
        }),
    decreases fields.len(),
{
    if fields.len() > 0 {
        let front = fields.drop_last();
        let last = fields.last();
        lemma_fresh_front(fields, 5);
        assert forall|i: int| 0 <= i < front.len() implies state.service[(
        #[trigger] front[i]).0] is None by {
            assert(front[i] == fields[i]);
        }
        lemma_scan_service_fields(state, front);
        let middle = DescriptionScan { service: with_fields(state.service, front), ..state };
        lemma_with_fields_len(state.service, front);
        lemma_with_fields_other(state.service, front, last.0);
        assert(last == fields[fields.len() - 1]);
        lemma_all_field_names();
        lemma_scan_service_field(middle, service_field_name(last.0), last.0, last.1);
        lemma_scan_descriptions_concat(
            state,
            service_fields_events(front),
            field_events(service_field_name(last.0), last.1),
        );
    }
}

/// Inside the service list, the events of one whole service add it to the
/// services read, whatever the order of its fields.
pub proof fn lemma_scan_written_service(state: DescriptionScan, fields: Seq<(int, Seq<char>)>)
    requires
        in_list(state.path),
        whole_service(fields),
    ensures
        scan_descriptions_from(state, written_service(fields)) == (DescriptionScan {
            service: with_fields(no_fields(5), fields),
            services: state.services.push(service_from(fields)),
            ..state
        }),
{
    let open = seq![XmlEventView::Start("service"@)];
    let close = seq![XmlEventView::End("service"@)];
    let inner = service_fields_events(fields);
    let path = state.path.push("service"@);
    assert(path[1] == state.path[1]);
    assert(path[2] == state.path[2]);
    assert(in_service(path));
    assert(scan_descriptions_from(state, open.drop_last()) == state);
    let opened = DescriptionScan { path, service: no_fields(5), ..state };
    assert(scan_descriptions_from(state, open) == opened);
    lemma_scan_service_fields(opened, fields);
    let filled = DescriptionScan { service: with_fields(no_fields(5), fields), ..opened };
    lemma_scan_descriptions_concat(state, open, inner);
    lemma_with_fields_len(no_fields(5), fields);
    lemma_with_fields_given(no_fields(5), fields, 0);
    lemma_with_fields_given(no_fields(5), fields, 1);
    lemma_with_fields_given(no_fields(5), fields, 2);
    lemma_with_fields_given(no_fields(5), fields, 3);
    lemma_with_fields_given(no_fields(5), fields, 4);
    assert(service_of(filled.service) == Some(service_from(fields)));
    lemma_scan_descriptions_concat(state, open + inner, close);
    assert(scan_descriptions_from(filled, close.drop_last()) == filled);
    assert(path.drop_last() =~= state.path);
}

/// Inside the service list, the events of whole services add them to the
/// services read, in their order.
pub proof fn lemma_scan_written_services(
    state: DescriptionScan,
    services: Seq<Seq<(int, Seq<char>)>>,
)
    requires
        in_list(state.path),
        forall|i: int| 0 <= i < services.len() ==> whole_service(#[trigger] services[i]),
    ensures
        scan_descriptions_from(state, written_services(services)) == (DescriptionScan {
            service: scan_descriptions_from(state, written_services(services)).service,
            services: state.services + services_from(services),
            ..state
        }),
    decreases services.len(),
{
    if services.len() == 0 {
        assert(state.services + services_from(services) =~= state.services);
    } else {
        let front = services.drop_last();
        assert forall|i: int| 0 <= i < front.len() implies whole_service(#[trigger] front[i]) by {
            assert(front[i] == services[i]);
        }
        lemma_scan_written_services(state, front);
        let middle = scan_descriptions_from(state, written_services(front));
        assert(services.last() == services[services.len() - 1]);
        lemma_scan_descriptions_concat(
            state,
            written_services(front),
            written_service(services.last()),
        );
        lemma_scan_written_service(middle, services.last());
        assert((state.services + services_from(front)).push(service_from(services.last()))
            =~= state.services + services_from(services)) by {
            let left = (state.services + services_from(front)).push(
                service_from(services.last()),
            );
            let right = state.services + services_from(services);
            assert(left.len() == right.len());
            assert forall|i: int| 0 <= i < left.len() implies left[i] == right[i] by {
                if state.services.len() <= i < left.len() - 1 {
                    assert(front[i - state.services.len()] == services[i - state.services.len()]);
                }
            }
        }
    }
}

/// A field holds the text that it was given.
pub proof fn lemma_field_as_written(
    base: Seq<Option<Seq<char>>>,
    fields: Seq<(int, Seq<char>)>,
    i: int,
)
    requires
        fresh_fields(fields, base.len() as int),
        0 <= i < fields.len(),
    ensures
        with_fields(base, fields)[fields[i].0] == Some(fields[i].1),
    decreases fields.len(),
{
    let front = fields.drop_last();
    lemma_fresh_front(fields, base.len() as int);
    lemma_with_fields_len(base, front);
    if i < fields.len() - 1 {
        assert(front[i] == fields[i]);
        lemma_field_as_written(base, front, i);
    }
}

/// One part of what stands inside the `device` element: a field, given by
/// its place and its text; the service list with its services; or an
/// element that the reading passes over, given by its name and the events
/// inside it.
pub ghost enum DevicePart {
    Field(int, Seq<char>),
    List(Seq<Seq<(int, Seq<char>)>>),
    Ignored(Seq<char>, Seq<XmlEventView>),
}

/// How many elements are left open by `events`.
pub open spec fn depth_after(events: Seq<XmlEventView>) -> int
    decreases events.len(),
{
    if events.len() == 0 {
        0
    } else {
        depth_after(events.drop_last()) + (match events.last() {
            XmlEventView::Start(_) => 1int,
            XmlEventView::End(_) => -1int,
            _ => 0int,
        })
    }
}

/// Whether `events` close every element that they open, and no other.
pub open spec fn nested(events: Seq<XmlEventView>) -> bool {
    &&& depth_after(events) == 0
    &&& forall|k: int| 0 <= k <= events.len() ==> depth_after(#[trigger] events.subrange(0, k)) >= 0
}

/// The events of an element called `name` with `inside` in it.
pub open spec fn element_events(name: Seq<char>, inside: Seq<XmlEventView>) -> Seq<XmlEventView> {
    seq![XmlEventView::Start(name)] + inside + seq![XmlEventView::End(name)]
}

/// The events of elements, each given by its name and the events inside it.
pub open spec fn elements_events(elements: Seq<(Seq<char>, Seq<XmlEventView>)>) -> Seq<
    XmlEventView,
>
    decreases elements.len(),
{
    if elements.len() == 0 {
        Seq::empty()
    } else {
        elements_events(elements.drop_last()) + element_events(
            elements.last().0,
            elements.last().1,
        )
    }
}

/// The events of one part.
pub open spec fn part_events(part: DevicePart) -> Seq<XmlEventView> {
    match part {
        DevicePart::Field(place, text) => field_events(device_field_name(place), text),
        DevicePart::List(services) => seq![XmlEventView::Start("serviceList"@)]
            + written_services(services) + seq![XmlEventView::End("serviceList"@)],
        DevicePart::Ignored(name, inside) => element_events(name, inside),
    }
}

/// The events of parts, in their order.
pub open spec fn parts_events(parts: Seq<DevicePart>) -> Seq<XmlEventView>
    decreases parts.len(),
{
    if parts.len() == 0 {
        Seq::empty()
    } else {
        parts_events(parts.drop_last()) + part_events(parts.last())
    }
}

/// The fields among `parts`, in their order.
pub open spec fn part_fields(parts: Seq<DevicePart>) -> Seq<(int, Seq<char>)>
    decreases parts.len(),
{
    if parts.len() == 0 {
        Seq::empty()
    } else {
        match parts.last() {
            DevicePart::Field(place, text) => part_fields(parts.drop_last()).push((place, text)),
            _ => part_fields(parts.drop_last()),
        }
    }
}

/// The services of the lists among `parts`, in their order.
pub open spec fn part_services(parts: Seq<DevicePart>) -> Seq<ServiceView>
    decreases parts.len(),
{
    if parts.len() == 0 {
        Seq::empty()
    } else {
        match parts.last() {
            DevicePart::List(services) => part_services(parts.drop_last()) + services_from(
                services,
            ),
            _ => part_services(parts.drop_last()),
        }
    }
}

/// The number of service lists among `parts`.
pub open spec fn list_count(parts: Seq<DevicePart>) -> nat
    decreases parts.len(),
{
    if parts.len() == 0 {
        0
    } else {
        list_count(parts.drop_last()) + (if parts.last() is List {
            1nat
        } else {
            0nat
        })
    }
}

/// Whether `part` is as a description has it: the services of a list are
/// whole, and an element that is passed over is none that the reading
/// knows and closes what it opens.
pub open spec fn valid_part(part: DevicePart) -> bool {
    match part {
        DevicePart::Field(_, _) => true,
        DevicePart::List(services) => forall|i: int|
            0 <= i < services.len() ==> whole_service(#[trigger] services[i]),
        DevicePart::Ignored(name, inside) => name != "serviceList"@ && device_field(name) is None
            && nested(inside),
    }
}

/// Whether `parts` make the content of a `device` element: every part is
/// valid, no field is given twice, the required fields are given, and
/// there is at most one service list.
pub open spec fn valid_parts(parts: Seq<DevicePart>) -> bool {
    &&& forall|i: int| 0 <= i < parts.len() ==> valid_part(#[trigger] parts[i])
    &&& fresh_fields(part_fields(parts), 10)
    &&& gives(part_fields(parts), 0)
    &&& gives(part_fields(parts), 1)
    &&& gives(part_fields(parts), 2)
    &&& gives(part_fields(parts), 5)
    &&& gives(part_fields(parts), 9)
    &&& list_count(parts) <= 1
}

/// Whether `elements` can stand beside the `device` element under the
/// root: none of them is called `device`, and each closes what it opens.
pub open spec fn valid_beside(elements: Seq<(Seq<char>, Seq<XmlEventView>)>) -> bool {
    forall|i: int|
        0 <= i < elements.len() ==> (#[trigger] elements[i]).0 != "device"@ && nested(
            elements[i].1,
        )
}

/// The events of a description under the element `root`: the elements
/// `ahead` of the device, the `device` element with `parts` inside it, and
/// the elements `behind` it.
pub open spec fn written_description(
    root: Seq<char>,
    ahead: Seq<(Seq<char>, Seq<XmlEventView>)>,
    parts: Seq<DevicePart>,
    behind: Seq<(Seq<char>, Seq<XmlEventView>)>,
) -> Seq<XmlEventView> {
    seq![XmlEventView::Start(root)] + elements_events(ahead) + seq![XmlEventView::Start("device"@)]
        + parts_events(parts) + seq![XmlEventView::End("device"@)] + elements_events(behind)
        + seq![XmlEventView::End(root)]
}

/// Whether the reading passes over everything at `path` and below it: the
/// path leads into an element beside the root device, or into an element
/// of the root device that is neither a field nor the service list.
pub open spec fn passed_over(path: Seq<Seq<char>>) -> bool {
    path.len() >= 2 && (path[1] != "device"@ || (path.len() >= 3 && path[2] != "serviceList"@
        && device_field(path[2]) is None))
}

/// Where the reading passes over, an event moves nothing but the path.
proof fn lemma_scan_passed_event(state: DescriptionScan, event: XmlEventView)
    requires
        passed_over(state.path),
    ensures
        scan_description(state, event) == (DescriptionScan {
            path: match event {
                XmlEventView::Start(name) => state.path.push(name),
                XmlEventView::End(_) => state.path.drop_last(),
                _ => state.path,
            },
            ..state
        }),
{
    let path = state.path;
    assert(!in_device(path) && !in_list(path) && !in_service(path) && !in_device_field(path)
        && !in_service_field(path));
    match event {
        XmlEventView::Empty(name) => {
            let inner = path.push(name);
            assert(inner[1] == path[1]);
            if path.len() >= 3 {
                assert(inner[2] == path[2]);
            }
            assert(!in_service(inner));
            assert(inner.drop_last() =~= path);
        },
        _ => {},
    }
}

/// Where the reading passes over, events that close no more than they open
/// move nothing but the path, which grows by the elements left open.
proof fn lemma_scan_passed(state: DescriptionScan, inside: Seq<XmlEventView>)
    requires
        passed_over(state.path),
        forall|k: int| 0 <= k <= inside.len() ==> depth_after(#[trigger] inside.subrange(0, k)) >= 0,
    ensures
        scan_descriptions_from(state, inside) == (DescriptionScan {
            path: scan_descriptions_from(state, inside).path,
            ..state
        }),
        scan_descriptions_from(state, inside).path.len() == state.path.len() + depth_after(inside),
        scan_descriptions_from(state, inside).path.subrange(0, state.path.len() as int)
            == state.path,
    decreases inside.len(),
{
    if inside.len() == 0 {
        assert(state.path.subrange(0, state.path.len() as int) =~= state.path);
    } else {
        let front = inside.drop_last();
        assert forall|k: int| 0 <= k <= front.len() implies depth_after(
            #[trigger] front.subrange(0, k),
        ) >= 0 by {
            assert(front.subrange(0, k) =~= inside.subrange(0, k));
        }
        lemma_scan_passed(state, front);
        let middle = scan_descriptions_from(state, front);
        let n = state.path.len() as int;
        assert(middle.path.subrange(0, n)[1] == middle.path[1]);
        if n >= 3 {
            assert(middle.path.subrange(0, n)[2] == middle.path[2]);
        }
        assert(passed_over(middle.path));
        lemma_scan_passed_event(middle, inside.last());
        assert(inside.subrange(0, inside.len() as int) =~= inside);
        let after = scan_descriptions_from(state, inside);
        assert(after.path.subrange(0, n) =~= state.path) by {
            assert forall|i: int| 0 <= i < n implies after.path[i] == state.path[i] by {
                assert(middle.path.subrange(0, n)[i] == middle.path[i]);
            }
        }
    }
}

/// An element that the reading passes over leaves the reading as it was.
proof fn lemma_scan_element(state: DescriptionScan, name: Seq<char>, inside: Seq<XmlEventView>)
    requires
        nested(inside),
        passed_over(state.path.push(name)),
        scan_description(state, XmlEventView::Start(name)) == (DescriptionScan {
            path: state.path.push(name),
            ..state
        }),
    ensures
        scan_descriptions_from(state, element_events(name, inside)) == state,
{
    let open = seq![XmlEventView::Start(name)];
    let close = seq![XmlEventView::End(name)];
    assert(scan_descriptions_from(state, open.drop_last()) == state);
    let opened = DescriptionScan { path: state.path.push(name), ..state };
    assert(scan_descriptions_from(state, open) == opened);
    lemma_scan_passed(opened, inside);
    let read = scan_descriptions_from(opened, inside);
    assert(read.path =~= opened.path) by {
        assert(read.path.subrange(0, opened.path.len() as int) =~= read.path);
    }
    lemma_scan_descriptions_concat(state, open, inside);
    lemma_scan_descriptions_concat(state, open + inside, close);
    assert(scan_descriptions_from(read, close.drop_last()) == read);
    lemma_scan_passed_event(read, XmlEventView::End(name));
    assert(opened.path.drop_last() =~= state.path);
}

/// Under the root, elements beside the root device leave the reading as it
/// was.
proof fn lemma_scan_beside(state: DescriptionScan, elements: Seq<(Seq<char>, Seq<XmlEventView>)>)
    requires
        state.path.len() == 1,
        valid_beside(elements),
    ensures
        scan_descriptions_from(state, elements_events(elements)) == state,
    decreases elements.len(),
{
    if elements.len() > 0 {
        let front = elements.drop_last();
        let last = elements.last();
        assert(last == elements[elements.len() - 1]);
        assert forall|i: int| 0 <= i < front.len() implies (#[trigger] front[i]).0 != "device"@
            && nested(front[i].1) by {
            assert(front[i] == elements[i]);
        }
        lemma_scan_beside(state, front);
        lemma_scan_descriptions_concat(
            state,
            elements_events(front),
            element_events(last.0, last.1),
        );
        assert(state.path.push(last.0)[1] == last.0);
        lemma_scan_element(state, last.0, last.1);
    }
}

/// The fields among all but the last of valid parts are fresh, and the last
/// part, where it is a field, gives a place that none of them gives.
proof fn lemma_part_fields_front(parts: Seq<DevicePart>)
    requires
        parts.len() > 0,
        fresh_fields(part_fields(parts), 10),
    ensures
        fresh_fields(part_fields(parts.drop_last()), 10),
        parts.last() matches DevicePart::Field(place, _) ==> 0 <= place < 10 && !gives(
            part_fields(parts.drop_last()),
            place,
        ),
{
    match parts.last() {
        DevicePart::Field(place, text) => {
            let fields = part_fields(parts);
            assert(fields.drop_last() =~= part_fields(parts.drop_last()));
            assert(fields.last() == (place, text));
            lemma_fresh_front(fields, 10);
        },
        _ => {},
    }
}

/// Inside the root device, the events of parts give the fields their
/// texts and add the services of the list, and leave all else as it was.
proof fn lemma_scan_parts(state: DescriptionScan, parts: Seq<DevicePart>)
    requires
        in_device(state.path),
        state.device == no_fields(10),
        !state.seen_list,
        state.services.len() == 0,
        forall|i: int| 0 <= i < parts.len() ==> valid_part(#[trigger] parts[i]),
        fresh_fields(part_fields(parts), 10),
        list_count(parts) <= 1,
    ensures
        scan_descriptions_from(state, parts_events(parts)) == (DescriptionScan {
            device: with_fields(no_fields(10), part_fields(parts)),
            seen_list: list_count(parts) == 1,
            service: scan_descriptions_from(state, parts_events(parts)).service,
            services: part_services(parts),
            ..state
        }),
    decreases parts.len(),
{
    if parts.len() == 0 {
        assert(state.services =~= part_services(parts));
    } else {
        let front = parts.drop_last();
        let last = parts.last();
        assert(last == parts[parts.len() - 1]);
        assert forall|i: int| 0 <= i < front.len() implies valid_part(#[trigger] front[i]) by {
            assert(front[i] == parts[i]);
        }
        lemma_part_fields_front(parts);
        lemma_scan_parts(state, front);
        let middle = scan_descriptions_from(state, parts_events(front));
        lemma_scan_descriptions_concat(state, parts_events(front), part_events(last));
        lemma_with_fields_len(no_fields(10), part_fields(front));
        lemma_all_field_names();
        match last {
            DevicePart::Field(place, text) => {
                lemma_with_fields_other(no_fields(10), part_fields(front), place);
                lemma_scan_device_field(middle, device_field_name(place), place, text);
                assert(part_fields(parts).drop_last() =~= part_fields(front));
            },
            DevicePart::List(services) => {
                let open = seq![XmlEventView::Start("serviceList"@)];
                let close = seq![XmlEventView::End("serviceList"@)];
                let list_path = state.path.push("serviceList"@);
                assert(list_path[1] == state.path[1]);
                assert(in_list(list_path));
                assert(scan_descriptions_from(middle, open.drop_last()) == middle);
                let l0 = DescriptionScan { path: list_path, seen_list: true, ..middle };
                assert(scan_descriptions_from(middle, open) == l0);
                lemma_scan_written_services(l0, services);
                let l1 = scan_descriptions_from(l0, written_services(services));
                lemma_scan_descriptions_concat(middle, open, written_services(services));
                lemma_scan_descriptions_concat(middle, open + written_services(services), close);
                assert(scan_descriptions_from(l1, close.drop_last()) == l1);
                assert(list_path.drop_last() =~= state.path);
            },
            DevicePart::Ignored(name, inside) => {
                let inner = middle.path.push(name);
                assert(inner[1] == middle.path[1]);
                assert(inner[2] == name);
                lemma_scan_element(middle, name, inside);
            },
        }
    }
}

/// A description yields the device that it was written for. The fields of
/// the device may stand in any order, before and after the service list and
/// between elements that the reading passes over; the optional ones may be
/// missing; the list may be missing; and the fields of each service may
/// stand in any order. The device has the text of every field that is
/// given, no text in the others, and the services in the order of the
/// document.
pub proof fn lemma_written_description(
    root: Seq<char>,
    ahead: Seq<(Seq<char>, Seq<XmlEventView>)>,
    parts: Seq<DevicePart>,
    behind: Seq<(Seq<char>, Seq<XmlEventView>)>,
)
    requires
        valid_beside(ahead),
        valid_parts(parts),
        valid_beside(behind),
    ensures
        description_of(written_description(root, ahead, parts, behind)) == Some(
            device_from(part_fields(parts), part_services(parts)),
        ),
{
    let start = DescriptionScan {
        path: Seq::empty(),
        device: no_fields(10),
        seen_device: false,
        seen_list: false,
        service: no_fields(5),
        services: Seq::empty(),
        failed: false,
    };
    let open_root = seq![XmlEventView::Start(root)];
    let open_device = seq![XmlEventView::Start("device"@)];
    let close_device = seq![XmlEventView::End("device"@)];
    let close_root = seq![XmlEventView::End(root)];
    let root_path = seq![root];
    let device_path = seq![root, "device"@];
    // The root and what stands ahead of the device.
    assert(scan_descriptions_from(start, open_root.drop_last()) == start);
    assert(start.path.push(root) =~= root_path);
    let a1 = DescriptionScan { path: root_path, ..start };
    assert(scan_descriptions_from(start, open_root) == a1);
    lemma_scan_beside(a1, ahead);
    lemma_scan_descriptions_concat(start, open_root, elements_events(ahead));
    // The device.
    let e2 = open_root + elements_events(ahead);
    assert(scan_descriptions_from(a1, open_device.drop_last()) == a1);
    assert(root_path.push("device"@) =~= device_path);
    let a2 = DescriptionScan { path: device_path, seen_device: true, ..a1 };
    assert(scan_descriptions_from(a1, open_device) == a2);
    lemma_scan_descriptions_concat(start, e2, open_device);
    let e3 = e2 + open_device;
    lemma_scan_parts(a2, parts);
    let filled = scan_descriptions_from(a2, parts_events(parts));
    lemma_scan_descriptions_concat(start, e3, parts_events(parts));
    let e4 = e3 + parts_events(parts);
    assert(scan_descriptions_from(filled, close_device.drop_last()) == filled);
    assert(device_path.drop_last() =~= root_path);
    let closed = DescriptionScan { path: root_path, ..filled };
    assert(scan_descriptions_from(filled, close_device) == closed);
    lemma_scan_descriptions_concat(start, e4, close_device);
    let e5 = e4 + close_device;
    // What stands behind the device, and the end of the root.
    lemma_scan_beside(closed, behind);
    lemma_scan_descriptions_concat(start, e5, elements_events(behind));
    let e6 = e5 + elements_events(behind);
    assert(scan_descriptions_from(closed, close_root.drop_last()) == closed);
    assert(root_path.drop_last() =~= Seq::<Seq<char>>::empty());
    lemma_scan_descriptions_concat(start, e6, close_root);
    let fields = part_fields(parts);
    lemma_with_fields_len(no_fields(10), fields);
    lemma_with_fields_given(no_fields(10), fields, 0);
    lemma_with_fields_given(no_fields(10), fields, 1);
    lemma_with_fields_given(no_fields(10), fields, 2);
    lemma_with_fields_given(no_fields(10), fields, 5);
    lemma_with_fields_given(no_fields(10), fields, 9);
}

/// Parts without a service list describe no services.
pub proof fn lemma_no_list_no_services(parts: Seq<DevicePart>)
    requires
        list_count(parts) == 0,
    ensures
        part_services(parts).len() == 0,
    decreases parts.len(),
{
    if parts.len() > 0 {
        lemma_no_list_no_services(parts.drop_last());
    }
}

/// A device without a service list has no services, and is no error: a
/// description that is valid and has no list yields the device with an
/// empty sequence of services.
pub proof fn lemma_description_without_list(
    root: Seq<char>,
    ahead: Seq<(Seq<char>, Seq<XmlEventView>)>,
    parts: Seq<DevicePart>,
    behind: Seq<(Seq<char>, Seq<XmlEventView>)>,
)
    requires
        valid_beside(ahead),
        valid_parts(parts),
        valid_beside(behind),
        list_count(parts) == 0,
    ensures
        description_of(written_description(root, ahead, parts, behind)) matches Some(device)
            && device.services.len() == 0,
{
    lemma_written_description(root, ahead, parts, behind);
    lemma_no_list_no_services(parts);
}

/// The services of a list keep their number and the texts of their fields:
/// each field of a whole service has the text that its element gives, and
/// so have the three addresses of the service.
pub proof fn lemma_service_field_as_written(
    services: Seq<Seq<(int, Seq<char>)>>,
    s: int,
    i: int,
)
    requires
        0 <= s < services.len(),
        whole_service(services[s]),
        0 <= i < services[s].len(),
    ensures
        services_from(services).len() == services.len(),
        with_fields(no_fields(5), services[s])[services[s][i].0] == Some(services[s][i].1),
        services[s][i].0 == 3 ==> services_from(services)[s].control_url == services[s][i].1,
        services[s][i].0 == 4 ==> services_from(services)[s].event_sub_url == services[s][i].1,
        services[s][i].0 == 2 ==> services_from(services)[s].scpd_url == services[s][i].1,
{
    lemma_field_as_written(no_fields(5), services[s], i);
}

/// A service keeps the control address that its description gives: where
/// the list of a valid description holds one service, the device has one
/// service, and its control address is the text of the `controlURL`
/// element as it stands.
pub proof fn lemma_control_url_as_written(
    root: Seq<char>,
    ahead: Seq<(Seq<char>, Seq<XmlEventView>)>,
    parts: Seq<DevicePart>,
    behind: Seq<(Seq<char>, Seq<XmlEventView>)>,
    p: int,
    i: int,
)
    requires
        valid_beside(ahead),
        valid_parts(parts),
        valid_beside(behind),
        0 <= p < parts.len(),
        parts[p] matches DevicePart::List(services) && services.len() == 1 && 0 <= i
            < services[0].len() && services[0][i].0 == 3,
    ensures
        description_of(written_description(root, ahead, parts, behind)) matches Some(device)
            && device.services.len() == 1 && device.services[0].control_url
            == parts[p]->List_0[0][i].1,
{
    lemma_written_description(root, ahead, parts, behind);
    let services = parts[p]->List_0;
    lemma_services_of_the_list(parts, p);
    lemma_service_field_as_written(services, 0, i);
}

/// Where parts hold one service list, their services are those of the
/// list.
pub proof fn lemma_services_of_the_list(parts: Seq<DevicePart>, p: int)
    requires
        0 <= p < parts.len(),
        parts[p] is List,
        list_count(parts) <= 1,
    ensures
        part_services(parts) == services_from(parts[p]->List_0),
    decreases parts.len(),
{
    let front = parts.drop_last();
    assert(parts.last() == parts[parts.len() - 1]);
    if p == parts.len() - 1 {
        lemma_no_list_no_services(front);
        assert(part_services(front) + services_from(parts[p]->List_0) =~= services_from(
            parts[p]->List_0,
        ));
    } else {
        assert(front[p] == parts[p]);
        lemma_list_counted(front, p);
        lemma_services_of_the_list(front, p);
    }
}

/// Parts that hold a service list count at least one.
proof fn lemma_list_counted(parts: Seq<DevicePart>, p: int)
    requires
        0 <= p < parts.len(),
        parts[p] is List,
    ensures
        list_count(parts) >= 1,
    decreases parts.len(),
{
    assert(parts.last() == parts[parts.len() - 1]);
    if p < parts.len() - 1 {
        assert(parts.drop_last()[p] == parts[p]);
        lemma_list_counted(parts.drop_last(), p);
    }
}

} // verus!
