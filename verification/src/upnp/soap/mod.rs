//! Action invocation: the request envelope, and the results that the
//! response envelope carries.

pub mod laws;

use crate::attributes::{put, AttributeMap};
use crate::error::{ErrorKind, UpnpError, UpnpErrorView};
use crate::http::{header, is_success, HttpRequest, HttpRequestView, HttpResponse};
use crate::text::{chars_of, has_local_name, local_name};
use crate::xml::{events_of, read_events, XmlEvent, XmlEventView};
use vstd::prelude::*;
use vstd::string::StringExecFns;

verus! {

/// What stands for `c` in character data: the entity reference of each of
/// the five characters of markup, and the character itself otherwise.
pub open spec fn escape_char(c: char) -> Seq<char> {
    if c == '&' {
        seq!['&', 'a', 'm', 'p', ';']
    } else if c == '<' {
        seq!['&', 'l', 't', ';']
    } else if c == '>' {
        seq!['&', 'g', 't', ';']
    } else if c == '"' {
        seq!['&', 'q', 'u', 'o', 't', ';']
    } else if c == '\'' {
        seq!['&', 'a', 'p', 'o', 's', ';']
    } else {
        seq![c]
    }
}

/// `s` with every character of markup replaced by its entity reference.
pub open spec fn escaped(s: Seq<char>) -> Seq<char>
    decreases s.len(),
{
    if s.len() == 0 {
        Seq::empty()
    } else {
        escape_char(s.first()) + escaped(s.drop_first())
    }
}

/// The element that carries one argument, on a line of its own.
pub open spec fn argument_xml(name: Seq<char>, value: Seq<char>) -> Seq<char> {
    "<"@ + name + ">"@ + escaped(value) + "</"@ + name + ">\n"@
}

/// The elements of all arguments, in their order.
pub open spec fn arguments_xml(arguments: Seq<(Seq<char>, Seq<char>)>) -> Seq<char>
    decreases arguments.len(),
{
    if arguments.len() == 0 {
        Seq::empty()
    } else {
        arguments_xml(arguments.drop_last()) + argument_xml(
            arguments.last().0,
            arguments.last().1,
        )
    }
}

/// The envelope that asks a service of `service_type` for `action`.
pub open spec fn soap_request(
    service_type: Seq<char>,
    action: Seq<char>,
    arguments: Seq<(Seq<char>, Seq<char>)>,
) -> Seq<char> {
    "<?xml version=\"1.0\"?>\n<s:Envelope xmlns:s=\"http://schemas.xmlsoap.org/soap/envelope/\" s:encodingStyle=\"http://schemas.xmlsoap.org/soap/encoding/\">\n  <s:Body>\n    <u:"@
        + action + " xmlns:u=\""@ + service_type + "\">\n"@ + arguments_xml(arguments)
        + "    </u:"@ + action + ">\n  </s:Body>\n</s:Envelope>"@
}

/// The value of the header that names the action.
pub open spec fn soap_action(service_type: Seq<char>, action: Seq<char>) -> Seq<char> {
    "\""@ + service_type + "#"@ + action + "\""@
}

/// The request that invokes `action` at `url`.
pub open spec fn action_request(
    url: Seq<char>,
    service_type: Seq<char>,
    action: Seq<char>,
    arguments: Seq<(Seq<char>, Seq<char>)>,
) -> HttpRequestView {
    HttpRequestView {
        method: "POST"@,
        url,
        headers: seq![
            ("Content-Type"@, "text/xml; charset=\"utf-8\""@),
            ("SOAPAction"@, soap_action(service_type, action)),
        ],
        body: soap_request(service_type, action, arguments),
    }
}

/// Where the reading of a response envelope stands: how many elements are
/// open, whether the body is among them, the result element that is open
/// with the character data read inside it, the results found so far, and
/// whether a value could not be resolved.
pub ghost struct ResultScan {
    pub depth: nat,
    pub in_body: bool,
    pub name: Seq<char>,
    pub text: Seq<char>,
    pub found: Seq<(Seq<char>, Seq<char>)>,
    pub failed: bool,
}

/// How one event moves the reading on. The body is the child of the
/// envelope whose local name is `Body`; the children of its children are
/// the results, each with all the character data inside it.
pub open spec fn scan_result(state: ResultScan, event: XmlEventView) -> ResultScan {
    match event {
        XmlEventView::Start(name) => if state.depth == 1 && local_name(name) == "Body"@ {
            ResultScan { depth: state.depth + 1, in_body: true, ..state }
        } else if state.depth == 3 && state.in_body {
            ResultScan { depth: state.depth + 1, name, text: Seq::empty(), ..state }
        } else {
            ResultScan { depth: state.depth + 1, ..state }
        },
        XmlEventView::Empty(name) => if state.depth == 3 && state.in_body {
            ResultScan { found: put(state.found, name, Seq::empty()), ..state }
        } else {
            state
        },
        XmlEventView::Text(text) | XmlEventView::CData(text) => if state.depth >= 4
            && state.in_body {
            ResultScan { text: state.text + text, ..state }
        } else {
            state
        },
        XmlEventView::BadText => if state.depth >= 4 && state.in_body {
            ResultScan { failed: true, ..state }
        } else {
            state
        },
        XmlEventView::End(_) => if state.depth == 0 {
            state
        } else if state.depth == 4 && state.in_body {
            ResultScan {
                depth: 3,
                found: put(state.found, state.name, state.text),
                ..state
            }
        } else if state.depth == 2 {
            ResultScan { depth: 1, in_body: false, ..state }
        } else {
            ResultScan { depth: (state.depth - 1) as nat, ..state }
        },
        _ => state,
    }
}

/// Where the reading that stood at `state` stands after `events`.
pub open spec fn scan_results_from(state: ResultScan, events: Seq<XmlEventView>) -> ResultScan
    decreases events.len(),
{
    if events.len() == 0 {
        state
    } else {
        scan_result(scan_results_from(state, events.drop_last()), events.last())
    }
}

/// Where the reading stands after `events`.
pub open spec fn scan_results(events: Seq<XmlEventView>) -> ResultScan {
    scan_results_from(
        ResultScan {
            depth: 0,
            in_body: false,
            name: Seq::empty(),
            text: Seq::empty(),
            found: Seq::empty(),
            failed: false,
        },
        events,
    )
}

/// The results that the events of a response give; none where a value
/// could not be resolved.
pub open spec fn action_results(events: Seq<XmlEventView>) -> Option<Seq<(Seq<char>, Seq<char>)>> {
    if scan_results(events).failed {
        None
    } else {
        Some(scan_results(events).found)
    }
}

/// The results that a response envelope gives, with their white space as
/// it stands; none where the envelope is not well-formed.
pub open spec fn action_response(xml: Seq<char>) -> Option<Seq<(Seq<char>, Seq<char>)>> {
    match events_of(xml, false) {
        Some(events) => action_results(events),
        None => None,
    }
}

/// Escaping works character by character.
pub proof fn lemma_escaped_push(s: Seq<char>, c: char)
    ensures
        escaped(s.push(c)) == escaped(s) + escape_char(c),
    decreases s.len(),
{
    if s.len() == 0 {
        assert(escaped(s.push(c).drop_first()) =~= Seq::<char>::empty());
    } else {
        lemma_escaped_push(s.drop_first(), c);
        assert(s.push(c).drop_first() =~= s.drop_first().push(c));
    }
}

/// A failure to resolve a value is never forgotten.
pub proof fn lemma_result_failure_stays(events: Seq<XmlEventView>, k: int)
    requires
        0 <= k <= events.len(),
        scan_results(events.subrange(0, k)).failed,
    ensures
        scan_results(events).failed,
    decreases events.len() - k,
{
    if k == events.len() {
        assert(events.subrange(0, k) =~= events);
    } else {
        assert(events.drop_last().subrange(0, k) =~= events.subrange(0, k));
        lemma_result_failure_stays(events.drop_last(), k);
    }
}

/// The client side of the control protocol.
#[derive(Debug, Clone, Copy, PartialEq, Eq, Structural)]
pub struct SoapClient {}

impl SoapClient {
    /// A client. It holds nothing: every exchange is made of its arguments
    /// alone.
    pub fn new() -> (client: SoapClient)
        ensures
            client == (SoapClient {  }),
    {
        SoapClient {  }
    }

    /// Builds the request that invokes `action_name` of the service of
    /// `service_type` at `control_url`, with `arguments` in their order.
    pub fn call_action(
        &self,
        control_url: &str,
        service_type: &str,
        action_name: &str,
        arguments: &AttributeMap,
    ) -> (request: HttpRequest)
        ensures
            request@ == action_request(control_url@, service_type@, action_name@, arguments@),
    {
        let mut action = "\"".to_owned();
        action.append(service_type);
        action.append("#");
        action.append(action_name);
        action.append("\"");
        let mut headers: Vec<(String, String)> = Vec::new();
        headers.push(header("Content-Type", "text/xml; charset=\"utf-8\"".to_owned()));
        headers.push(header("SOAPAction", action));
        let request = HttpRequest {
            method: "POST".to_owned(),
            url: control_url.to_owned(),
            headers,
            body: Self::build_soap_request(service_type, action_name, arguments),
        };
        proof {
            assert(request@.headers =~= action_request(
                control_url@,
                service_type@,
                action_name@,
                arguments@,
            ).headers);
        }
        request
    }

    /// Reads the answer to an action request: the body on success, and an
    /// error with the status and the body otherwise.
    pub fn action_response(response: &HttpResponse) -> (result: Result<String, UpnpError>)
        ensures
            match result {
                Ok(body) => is_success(response.status) && body@ == response.body@,
                Err(error) => !is_success(response.status) && error@ == (UpnpErrorView {
                    kind: ErrorKind::Action,
                    status: response.status,
                    detail: response.body@,
                }),
            },
    {
        if response.succeeded() {
            Ok(response.body.clone())
        } else {
            Err(
                UpnpError::from_response(
                    ErrorKind::Action,
                    response.status,
                    response.body.as_str(),
                ),
            )
        }
    }

    /// Writes the envelope of an action request: the action element, named
    /// after the action in the namespace of the service type, holds one
    /// element for each argument, with the value escaped.
    pub fn build_soap_request(
        service_type: &str,
        action_name: &str,
        arguments: &AttributeMap,
    ) -> (xml: String)
        ensures
            xml@ == soap_request(service_type@, action_name@, arguments@),
    {
        let mut args = String::new();
        let count = arguments.len();
        let mut i: usize = 0;
        while i < count
            invariant
                0 <= i <= count,
                count == arguments@.len(),
                args@ == arguments_xml(arguments@.subrange(0, i as int)),
            decreases count - i,
        {
            let entry = arguments.entry(i);
            proof {
                let next = arguments@.subrange(0, i + 1);
                assert(next.drop_last() =~= arguments@.subrange(0, i as int));
            }
            args.append("<");
            args.append(entry.0.as_str());
            args.append(">");
            args.append(Self::escape_xml(entry.1.as_str()).as_str());
            args.append("</");
            args.append(entry.0.as_str());
            args.append(">\n");
            i += 1;
        }
        assert(arguments@.subrange(0, count as int) =~= arguments@);
        let mut xml =
            "<?xml version=\"1.0\"?>\n<s:Envelope xmlns:s=\"http://schemas.xmlsoap.org/soap/envelope/\" s:encodingStyle=\"http://schemas.xmlsoap.org/soap/encoding/\">\n  <s:Body>\n    <u:".to_owned();
        xml.append(action_name);
        xml.append(" xmlns:u=\"");
        xml.append(service_type);
        xml.append("\">\n");
        xml.append(args.as_str());
        xml.append("    </u:");
        xml.append(action_name);
        xml.append(">\n  </s:Body>\n</s:Envelope>");
        xml
    }

    /// Replaces the five characters of markup, `&`, `<`, `>`, `"` and `'`,
    /// by their entity references.
    pub fn escape_xml(s: &str) -> (out: String)
        ensures
            out@ == escaped(s@),
    {
        let text = chars_of(s);
        let mut out = String::new();
        let mut i: usize = 0;
        while i < text.len()
            invariant
                0 <= i <= text.len(),
                out@ == escaped(text@.subrange(0, i as int)),
            decreases text.len() - i,
        {
            let c = text[i];
            proof {
                lemma_escaped_push(text@.subrange(0, i as int), c);
                assert(text@.subrange(0, i as int).push(c) =~= text@.subrange(0, i + 1));
                reveal_strlit("&amp;");
                reveal_strlit("&lt;");
                reveal_strlit("&gt;");
                reveal_strlit("&quot;");
                reveal_strlit("&apos;");
            }
            if c == '&' {
                out.append("&amp;");
            } else if c == '<' {
                out.append("&lt;");
            } else if c == '>' {
                out.append("&gt;");
            } else if c == '"' {
                out.append("&quot;");
            } else if c == '\'' {
                out.append("&apos;");
            } else {
                out.push(c);
            }
            i += 1;
        }
        assert(text@.subrange(0, text.len() as int) =~= text@);
        out
    }

    /// Collects the results that the events of a response envelope carry:
    /// for every child of the action-response element its name and all the
    /// character data inside it, in the order of the document. A name that
    /// comes again takes the later value.
    pub fn results_of(events: &Vec<XmlEvent>) -> (found: Option<AttributeMap>)
        ensures
            found.deep_view() == action_results(events.deep_view()),
    {
        let ghost all = events.deep_view();
        let mut depth: usize = 0;
        let mut in_body = false;
        let mut name = String::new();
        let mut text = String::new();
        let mut found = AttributeMap::new();
        let mut i: usize = 0;
        while i < events.len()
            invariant
                0 <= i <= events.len(),
                all == events.deep_view(),
                depth <= i,
                scan_results(all.subrange(0, i as int)) == (ResultScan {
                    depth: depth as nat,
                    in_body,
                    name: name@,
                    text: text@,
                    found: found@,
                    failed: false,
                }),
            decreases events.len() - i,
        {
            proof {
                let next = all.subrange(0, i + 1);
                assert(next.drop_last() =~= all.subrange(0, i as int));
            }
            match &events[i] {
                XmlEvent::Start(tag) => {
                    if depth == 1 && has_local_name(tag.as_str(), "Body") {
                        in_body = true;
                    } else if depth == 3 && in_body {
                        name = tag.clone();
                        text = String::new();
                    }
                    depth += 1;
                },
                XmlEvent::Empty(tag) => {
                    if depth == 3 && in_body {
                        found.insert(tag.clone(), String::new());
                    }
                },
                XmlEvent::Text(data) | XmlEvent::CData(data) => {
                    if depth >= 4 && in_body {
                        text.append(data.as_str());
                    }
                },
                XmlEvent::BadText => {
                    if depth >= 4 && in_body {
                        proof {
                            lemma_result_failure_stays(all, i + 1);
                        }
                        return None;
                    }
                },
                XmlEvent::End(_) => {
                    if depth == 4 && in_body {
                        depth = 3;
                        found.insert(name.clone(), text.clone());
                    } else if depth == 2 {
                        depth = 1;
                        in_body = false;
                    } else if depth > 0 {
                        depth -= 1;
                    }
                },
                _ => {},
            }
            i += 1;
        }
        assert(all.subrange(0, events.len() as int) =~= all);
        Some(found)
    }

    /// Reads the results out of a response envelope. A document that is not
    /// well-formed is an error.
    pub fn parse_response(&self, xml: &str) -> (result: Result<AttributeMap, UpnpError>)
        ensures
            match result {
                Ok(found) => action_response(xml@) == Some(found@),
                Err(error) => action_response(xml@) is None && error@ == (UpnpErrorView {
                    kind: ErrorKind::Parse,
                    status: 0,
                    detail: "XML parse error"@,
                }),
            },
    {
        let found = match read_events(xml, false) {
            Some(events) => Self::results_of(&events),
            None => None,
        };
        match found {
            Some(found) => Ok(found),
            None => Err(UpnpError::new(ErrorKind::Parse, "XML parse error".to_owned())),
        }
    }
}

impl Default for SoapClient {
    fn default() -> (client: SoapClient)
        ensures
            client == (SoapClient {  }),
    {
        SoapClient::new()
    }
}

} // verus!
