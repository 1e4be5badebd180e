//! What holds of the eventing exchanges: that a property set gives the
//! variables of its containers, that a lease is granted as it is asked for,
//! and that a renewal keeps the identity of a subscription.

use super::{
    event_properties, granted_lease, lease_of, renewed, scan_properties_from, timeout_header,
    PropertyScan, SubscriptionView, DEFAULT_LEASE_SECONDS,
};
use crate::attributes::{put, put_all};
use crate::http::first_header;
use crate::text::decimal::{decimal, is_digit, lemma_decimal_digits, lemma_number_of_decimal};
use crate::xml::XmlEventView;
use vstd::prelude::*;

verus! {

/// The events of one `property` container with one named value.
pub open spec fn property_events(name: Seq<char>, value: Seq<char>) -> Seq<XmlEventView> {
    seq![
        XmlEventView::Start("property"@),
        XmlEventView::Start(name),
        XmlEventView::Text(value),
        XmlEventView::End(name),
        XmlEventView::End("property"@),
    ]
}

/// The events of the containers of `pairs`, in their order.
pub open spec fn properties_events(pairs: Seq<(Seq<char>, Seq<char>)>) -> Seq<XmlEventView>
    decreases pairs.len(),
{
    if pairs.len() == 0 {
        Seq::empty()
    } else {
        properties_events(pairs.drop_last()) + property_events(pairs.last().0, pairs.last().1)
    }
}

/// The events of a property set called `root` with the containers of
/// `pairs`.
pub open spec fn property_set_events(root: Seq<char>, pairs: Seq<(Seq<char>, Seq<char>)>) -> Seq<
    XmlEventView,
> {
    seq![XmlEventView::Start(root)] + properties_events(pairs) + seq![XmlEventView::End(root)]
}

/// Whether `name` can name a variable: it is not empty and not the name of
/// the container.
pub open spec fn names_variable(name: Seq<char>) -> bool {
    name.len() > 0 && name != "property"@
}

/// Reading two runs of events one after the other is reading their
/// concatenation.
pub proof fn lemma_scan_properties_concat(
    state: PropertyScan,
    first: Seq<XmlEventView>,
    second: Seq<XmlEventView>,
)
    ensures
        scan_properties_from(state, first + second) == scan_properties_from(
            scan_properties_from(state, first),
            second,
        ),
    decreases second.len(),
{
    if second.len() != 0 {
        lemma_scan_properties_concat(state, first, second.drop_last());
        assert((first + second).drop_last() =~= first + second.drop_last());
    }
}

/// Outside of a container, the events of one container put its variable
/// among those found.
pub proof fn lemma_scan_one_property(state: PropertyScan, name: Seq<char>, value: Seq<char>)
    requires
        !state.in_property,
        state.current.len() == 0,
        names_variable(name),
    ensures
        scan_properties_from(state, property_events(name, value)) == (PropertyScan {
            found: put(state.found, name, value),
            ..state
        }),
{
    let e5 = property_events(name, value);
    let e4 = e5.drop_last();
    let e3 = e4.drop_last();
    let e2 = e3.drop_last();
    let e1 = e2.drop_last();
    assert(scan_properties_from(state, e1.drop_last()) == state);
    let s1 = PropertyScan { in_property: true, ..state };
    assert(scan_properties_from(state, e1) == s1);
    let s2 = PropertyScan { current: name, ..s1 };
    assert(scan_properties_from(state, e2) == s2);
    let s3 = PropertyScan { found: put(state.found, name, value), ..s2 };
    assert(scan_properties_from(state, e3) == s3);
    assert(scan_properties_from(state, e4) == s3);
    assert(state.current =~= Seq::<char>::empty());
}

/// Outside of a container, the events of containers put their variables
/// among those found, in their order.
pub proof fn lemma_scan_properties_of_pairs(state: PropertyScan, pairs: Seq<(Seq<char>, Seq<char>)>)
    requires
        !state.in_property,
        state.current.len() == 0,
        forall|i: int| 0 <= i < pairs.len() ==> names_variable(#[trigger] pairs[i].0),
    ensures
        scan_properties_from(state, properties_events(pairs)) == (PropertyScan {
            found: put_all(state.found, pairs),
            ..state
        }),
    decreases pairs.len(),
{
    if pairs.len() > 0 {
        let front = pairs.drop_last();
        assert forall|i: int| 0 <= i < front.len() implies names_variable(
            #[trigger] front[i].0,
        ) by {}
        lemma_scan_properties_of_pairs(state, front);
        let middle = scan_properties_from(state, properties_events(front));
        lemma_scan_properties_concat(
            state,
            properties_events(front),
            property_events(pairs.last().0, pairs.last().1),
        );
        lemma_scan_one_property(middle, pairs.last().0, pairs.last().1);
    }
}

/// A property set yields the variables of its containers: read from the
/// events of a property set, the variables are the pairs of the containers
/// in their order, a later value replacing an earlier one of the same name.
pub proof fn lemma_property_set_variables(root: Seq<char>, pairs: Seq<(Seq<char>, Seq<char>)>)
    requires
        root != "property"@,
        forall|i: int| 0 <= i < pairs.len() ==> names_variable(#[trigger] pairs[i].0),
    ensures
        event_properties(property_set_events(root, pairs)) == Some(put_all(Seq::empty(), pairs)),
{
    let start = PropertyScan {
        in_property: false,
        current: Seq::empty(),
        found: Seq::empty(),
        failed: false,
    };
    let head = seq![XmlEventView::Start(root)];
    let foot = seq![XmlEventView::End(root)];
    assert(scan_properties_from(start, head.drop_last()) == start);
    lemma_scan_properties_of_pairs(start, pairs);
    let filled = scan_properties_from(start, properties_events(pairs));
    lemma_scan_properties_concat(start, head, properties_events(pairs));
    lemma_scan_properties_concat(start, head + properties_events(pairs), foot);
    assert(scan_properties_from(filled, foot.drop_last()) == filled);
}

/// A lease is granted as it is asked for: the header value that asks for a
/// lease grants that lease when a device echoes it, be it a number of
/// seconds or 0, the lease without end.
pub proof fn lemma_lease_as_asked(seconds: u32)
    ensures
        lease_of(timeout_header(seconds)) == seconds,
{
    reveal_strlit("Second-");
    reveal_strlit("Second-infinite");
    let prefix = "Second-"@;
    if seconds > 0 {
        let value = timeout_header(seconds);
        let digits = decimal(seconds as nat);
        lemma_decimal_digits(seconds as nat);
        assert(value[7] == digits[0]);
        assert(is_digit(digits[0]));
        assert("Second-infinite"@[7] == 'i');
        assert(value.subrange(0, prefix.len() as int) =~= prefix);
        assert(value.subrange(prefix.len() as int, value.len() as int) =~= digits);
        lemma_number_of_decimal(seconds);
    }
}

/// Only a header grants anything but the default: a response without a
/// `TIMEOUT` header grants the default lease.
pub proof fn lemma_lease_without_header(headers: Seq<(Seq<char>, Seq<char>)>)
    requires
        first_header(headers, "TIMEOUT"@) is None,
    ensures
        granted_lease(headers) == DEFAULT_LEASE_SECONDS,
{
}

/// A renewal keeps the identifier and the address of the subscription; only
/// the lease and the time of the grant are taken from the answer.
pub proof fn lemma_renew_keeps_identity(
    subscription: SubscriptionView,
    status: u16,
    headers: Seq<(Seq<char>, Seq<char>)>,
    body: Seq<char>,
    now: u64,
)
    requires
        renewed(subscription, status, headers, body, now) is Ok,
    ensures
        renewed(subscription, status, headers, body, now) matches Ok(next) && next.sid
            == subscription.sid && next.event_sub_url == subscription.event_sub_url && next == (
        SubscriptionView { timeout: granted_lease(headers), created_at: now, ..subscription }),
{
}

} // verus!
