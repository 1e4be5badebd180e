//! What holds of the reading of discovery messages: which line gives a
//! header its value, and that a message is read as it was written.

use super::{
    header_of, header_value, names_header, presence_notification, search_response,
    SsdpDeviceView, SsdpNotificationView,
};
use crate::text::{
    is_space, lemma_find_char_at, lemma_trim_end_at, lemma_trim_start_at, lines, lower,
    starts_with, trim, trim_end, trim_start,
};
use vstd::prelude::*;

verus! {

/// The value of a header is the value on the last line that carries it.
pub proof fn lemma_header_value_of_last(lines: Seq<Seq<char>>, name: Seq<char>, k: int)
    requires
        0 <= k < lines.len(),
        names_header(lines[k], name),
        forall|j: int| k < j < lines.len() ==> !names_header(#[trigger] lines[j], name),
    ensures
        header_value(lines, name) == header_of(lines[k]).unwrap().1,
    decreases lines.len(),
{
    if k < lines.len() - 1 {
        let front = lines.drop_last();
        assert forall|j: int| k < j < front.len() implies !names_header(
            #[trigger] front[j],
            name,
        ) by {}
        lemma_header_value_of_last(front, name, k);
    }
}

/// A header that no line carries has the empty value.
pub proof fn lemma_header_value_absent(lines: Seq<Seq<char>>, name: Seq<char>)
    requires
        forall|j: int| 0 <= j < lines.len() ==> !names_header(#[trigger] lines[j], name),
    ensures
        header_value(lines, name) == Seq::<char>::empty(),
    decreases lines.len(),
{
    if lines.len() > 0 {
        let front = lines.drop_last();
        assert forall|j: int| 0 <= j < front.len() implies !names_header(
            #[trigger] front[j],
            name,
        ) by {}
        lemma_header_value_absent(front, name);
    }
}

/// A line made of a name, a colon, a space and a value carries that name
/// with that value, provided that the name holds no colon and that neither
/// of them begins or ends with white space.
pub proof fn lemma_header_of_plain_line(name: Seq<char>, value: Seq<char>)
    requires
        name.len() > 0,
        value.len() > 0,
        !is_space(name.first()) && !is_space(name.last()),
        !is_space(value.first()) && !is_space(value.last()),
        forall|i: int| 0 <= i < name.len() ==> name[i] != ':',
    ensures
        header_of(name + seq![':', ' '] + value) == Some((name, value)),
{
    let line = name + seq![':', ' '] + value;
    let n = name.len() as int;
    lemma_trim_start_at(line, 0);
    lemma_trim_end_at(line, line.len() as int);
    assert forall|j: int| 0 <= j < n implies line[j] != ':' by {}
    lemma_find_char_at(line, ':', n);
    lemma_trim_start_at(name, 0);
    lemma_trim_end_at(name, n);
    let rest = line.subrange(n + 1, line.len() as int);
    lemma_trim_start_at(rest, 1);
    lemma_trim_end_at(value, value.len() as int);
}

/// A search response with a location announces a device at that location:
/// where the text starts with the success status line and the last of its
/// lines that carry the `location` header gives a value, the response
/// yields a device with exactly that value as its location.
pub proof fn lemma_response_with_location(text: Seq<char>, k: int)
    requires
        starts_with(text, "HTTP/1.1 200 OK"@),
        0 <= k < lines(text).len(),
        names_header(lines(text)[k], "location"@),
        header_of(lines(text)[k]).unwrap().1.len() > 0,
        forall|j: int|
            k < j < lines(text).len() ==> !names_header(#[trigger] lines(text)[j], "location"@),
    ensures
        search_response(text) matches Some(device) && device.location == header_of(
            lines(text)[k],
        ).unwrap().1,
{
    lemma_header_value_of_last(lines(text), "location"@, k);
}

/// A text without a `location` header announces no device.
pub proof fn lemma_response_without_location(text: Seq<char>)
    requires
        forall|j: int|
            0 <= j < lines(text).len() ==> !names_header(#[trigger] lines(text)[j], "location"@),
    ensures
        search_response(text) is None,
{
    lemma_header_value_absent(lines(text), "location"@);
}

/// A notification of the sub-type `ssdp:byebye` says that the device is
/// leaving, with the unique service name and the notification type of its
/// headers; it never says that a device is alive or updated.
pub proof fn lemma_byebye_notification(text: Seq<char>)
    requires
        starts_with(text, "NOTIFY * HTTP/1.1"@),
        header_value(lines(text).drop_first(), "nts"@) == "ssdp:byebye"@,
    ensures
        presence_notification(text) == Some(
            SsdpNotificationView::ByeBye {
                usn: header_value(lines(text).drop_first(), "usn"@),
                nt: header_value(lines(text).drop_first(), "nt"@),
            },
        ),
{
    reveal_strlit("ssdp:alive");
    reveal_strlit("ssdp:byebye");
    assert("ssdp:alive"@.len() != "ssdp:byebye"@.len());
}

/// A notification announces a device only with its location: where no
/// line after the request line carries the `location` header, the
/// notification says neither that a device is alive nor that one is
/// updated.
pub proof fn lemma_notification_without_location(text: Seq<char>)
    requires
        forall|j: int|
            0 <= j < lines(text).drop_first().len() ==> !names_header(
                #[trigger] lines(text).drop_first()[j],
                "location"@,
            ),
    ensures
        presence_notification(text) is None || presence_notification(text).unwrap() is ByeBye,
{
    lemma_header_value_absent(lines(text).drop_first(), "location"@);
}

/// A notification that announces a device gives its location: the device
/// of an alive or update notification has the value of the `location`
/// header, and that value is not empty.
pub proof fn lemma_notification_location(text: Seq<char>)
    ensures
        presence_notification(text) matches Some(SsdpNotificationView::Alive(device))
            ==> device.location.len() > 0 && device.location == header_value(
            lines(text).drop_first(),
            "location"@,
        ),
        presence_notification(text) matches Some(SsdpNotificationView::Update(device))
            ==> device.location.len() > 0 && device.location == header_value(
            lines(text).drop_first(),
            "location"@,
        ),
{
}

/// The line that carries the header `name` with `value` on the wire,
/// without its line feed.
pub open spec fn header_line(name: Seq<char>, value: Seq<char>) -> Seq<char> {
    name + seq![':', ' '] + value + seq!['\r']
}

/// The lines of `headers`, each with its line feed, and the empty line that
/// ends them.
pub open spec fn header_block(headers: Seq<(Seq<char>, Seq<char>)>) -> Seq<char>
    decreases headers.len(),
{
    if headers.len() == 0 {
        seq!['\r', '\n']
    } else {
        header_line(headers.first().0, headers.first().1) + seq!['\n'] + header_block(
            headers.drop_first(),
        )
    }
}

/// The message with the first line `first` and the headers `headers`.
pub open spec fn message_text(first: Seq<char>, headers: Seq<(Seq<char>, Seq<char>)>) -> Seq<
    char,
> {
    first + seq!['\r', '\n'] + header_block(headers)
}

/// Whether `name` can be written as the name of a header: it is not empty,
/// neither begins nor ends with white space, and holds neither a colon nor
/// a line feed.
pub open spec fn plain_name(name: Seq<char>) -> bool {
    &&& name.len() > 0
    &&& !is_space(name.first())
    &&& !is_space(name.last())
    &&& forall|i: int| 0 <= i < name.len() ==> name[i] != ':' && name[i] != '\n'
}

/// Whether `value` can be written as the value of a header: it is not
/// empty, neither begins nor ends with white space, and holds no line feed.
pub open spec fn plain_value(value: Seq<char>) -> bool {
    &&& value.len() > 0
    &&& !is_space(value.first())
    &&& !is_space(value.last())
    &&& forall|i: int| 0 <= i < value.len() ==> value[i] != '\n'
}

/// Whether all of `headers` can be written.
pub open spec fn plain_headers(headers: Seq<(Seq<char>, Seq<char>)>) -> bool {
    forall|i: int|
        0 <= i < headers.len() ==> plain_name((#[trigger] headers[i]).0) && plain_value(
            headers[i].1,
        )
}

/// The lines of `headers` without their line feeds.
pub open spec fn header_lines(headers: Seq<(Seq<char>, Seq<char>)>) -> Seq<Seq<char>> {
    Seq::new(headers.len(), |i: int| header_line(headers[i].0, headers[i].1))
}

/// The value that `headers` give to `name`: that of the last header of that
/// name, read without regard to the case of ASCII letters, and `default`
/// where there is none.
pub open spec fn written_value_or(
    headers: Seq<(Seq<char>, Seq<char>)>,
    name: Seq<char>,
    default: Seq<char>,
) -> Seq<char>
    decreases headers.len(),
{
    if headers.len() == 0 {
        default
    } else if lower(headers.last().0) == lower(name) {
        headers.last().1
    } else {
        written_value_or(headers.drop_last(), name, default)
    }
}

/// The value that `headers` give to `name`, empty where they give none.
pub open spec fn written_value(headers: Seq<(Seq<char>, Seq<char>)>, name: Seq<char>) -> Seq<
    char,
> {
    written_value_or(headers, name, Seq::empty())
}

/// The device that `headers` describe; `target` names the header that
/// holds its type.
pub open spec fn written_device(
    headers: Seq<(Seq<char>, Seq<char>)>,
    target: Seq<char>,
) -> SsdpDeviceView {
    SsdpDeviceView {
        location: written_value(headers, "location"@),
        usn: written_value(headers, "usn"@),
        server: written_value(headers, "server"@),
        st: written_value(headers, target),
        cache_control: written_value(headers, "cache-control"@),
    }
}

/// A text begins with a line of its own where a line feed follows a part
/// that holds none.
pub proof fn lemma_lines_after_first(first: Seq<char>, rest: Seq<char>)
    requires
        forall|i: int| 0 <= i < first.len() ==> first[i] != '\n',
    ensures
        lines(first + seq!['\n'] + rest) == seq![first] + lines(rest),
{
    let text = first + seq!['\n'] + rest;
    let n = first.len() as int;
    assert forall|j: int| 0 <= j < n implies text[j] != '\n' by {}
    lemma_find_char_at(text, '\n', n);
    assert(text.subrange(0, n) =~= first);
    assert(text.subrange(n + 1, text.len() as int) =~= rest);
}

/// Trimming brings no character into a text.
pub proof fn lemma_trim_keeps_absence(s: Seq<char>, c: char)
    requires
        forall|i: int| 0 <= i < s.len() ==> s[i] != c,
    ensures
        forall|i: int| 0 <= i < trim(s).len() ==> trim(s)[i] != c,
{
    lemma_trim_start_keeps_absence(s, c);
    lemma_trim_end_keeps_absence(trim_start(s), c);
}

/// Trimming at the front brings no character into a text.
proof fn lemma_trim_start_keeps_absence(s: Seq<char>, c: char)
    requires
        forall|i: int| 0 <= i < s.len() ==> s[i] != c,
    ensures
        forall|i: int| 0 <= i < trim_start(s).len() ==> trim_start(s)[i] != c,
    decreases s.len(),
{
    if s.len() > 0 && is_space(s.first()) {
        let rest = s.drop_first();
        assert forall|i: int| 0 <= i < rest.len() implies rest[i] != c by {}
        lemma_trim_start_keeps_absence(rest, c);
        assert(trim_start(s) == trim_start(rest));
    } else {
        assert forall|i: int| 0 <= i < trim_start(s).len() implies trim_start(s)[i] != c by {}
    }
}

/// Trimming at the back brings no character into a text.
proof fn lemma_trim_end_keeps_absence(s: Seq<char>, c: char)
    requires
        forall|i: int| 0 <= i < s.len() ==> s[i] != c,
    ensures
        forall|i: int| 0 <= i < trim_end(s).len() ==> trim_end(s)[i] != c,
    decreases s.len(),
{
    if s.len() > 0 && is_space(s.last()) {
        let rest = s.drop_last();
        assert forall|i: int| 0 <= i < rest.len() implies rest[i] != c by {}
        lemma_trim_end_keeps_absence(rest, c);
        assert(trim_end(s) == trim_end(rest));
    } else {
        assert forall|i: int| 0 <= i < trim_end(s).len() implies trim_end(s)[i] != c by {}
    }
}

/// A line without a colon carries no header.
pub proof fn lemma_no_colon_no_header(line: Seq<char>)
    requires
        forall|i: int| 0 <= i < line.len() ==> line[i] != ':',
    ensures
        header_of(line) is None,
{
    lemma_trim_keeps_absence(line, ':');
    lemma_find_char_at(trim(line), ':', trim(line).len() as int);
}

/// A header line carries its name with its value.
pub proof fn lemma_header_of_line(name: Seq<char>, value: Seq<char>)
    requires
        plain_name(name),
        plain_value(value),
    ensures
        header_of(header_line(name, value)) == Some((name, value)),
        forall|i: int|
            0 <= i < header_line(name, value).len() ==> header_line(name, value)[i] != '\n',
{
    let plain = name + seq![':', ' '] + value;
    let line = header_line(name, value);
    lemma_header_of_plain_line(name, value);
    lemma_trim_start_at(plain, 0);
    lemma_trim_end_at(plain, plain.len() as int);
    lemma_trim_start_at(line, 0);
    assert forall|j: int| plain.len() <= j < line.len() implies is_space(line[j]) by {}
    lemma_trim_end_at(line, plain.len() as int);
    assert(line.subrange(0, plain.len() as int) =~= plain);
    assert forall|i: int| 0 <= i < line.len() implies line[i] != '\n' by {}
}

/// The lines of a header block are the lines of its headers, the line that
/// ends them, and what follows the last line feed.
pub proof fn lemma_lines_of_block(headers: Seq<(Seq<char>, Seq<char>)>)
    requires
        plain_headers(headers),
    ensures
        lines(header_block(headers)) == header_lines(headers) + seq![
            seq!['\r'],
            Seq::<char>::empty(),
        ],
    decreases headers.len(),
{
    let end = seq![seq!['\r'], Seq::<char>::empty()];
    if headers.len() == 0 {
        let blank = seq!['\r'];
        lemma_lines_after_first(blank, Seq::empty());
        assert(blank + seq!['\n'] + Seq::<char>::empty() =~= header_block(headers));
    } else {
        let head = headers.first();
        let tail = headers.drop_first();
        assert forall|i: int| 0 <= i < tail.len() implies plain_name((#[trigger] tail[i]).0)
            && plain_value(tail[i].1) by {}
        lemma_lines_of_block(tail);
        lemma_header_of_line(head.0, head.1);
        lemma_lines_after_first(header_line(head.0, head.1), header_block(tail));
        assert(seq![header_line(head.0, head.1)] + (header_lines(tail) + end) =~= header_lines(
            headers,
        ) + end) by {
            let left = seq![header_line(head.0, head.1)] + (header_lines(tail) + end);
            let right = header_lines(headers) + end;
            assert forall|i: int| 0 <= i < left.len() implies left[i] == right[i] by {}
        }
    }
}

/// Among lines that end with the lines of headers, a name has the value
/// that the headers give it, and otherwise the value that the lines before
/// them give it.
pub proof fn lemma_header_value_of_lines(
    before: Seq<Seq<char>>,
    headers: Seq<(Seq<char>, Seq<char>)>,
    name: Seq<char>,
)
    requires
        plain_headers(headers),
    ensures
        header_value(before + header_lines(headers), name) == written_value_or(
            headers,
            name,
            header_value(before, name),
        ),
    decreases headers.len(),
{
    let all = before + header_lines(headers);
    if headers.len() != 0 {
        let front = headers.drop_last();
        let last = headers.last();
        assert forall|i: int| 0 <= i < front.len() implies plain_name((#[trigger] front[i]).0)
            && plain_value(front[i].1) by {}
        lemma_header_value_of_lines(before, front, name);
        lemma_header_of_line(last.0, last.1);
        assert(all.drop_last() =~= before + header_lines(front)) by {
            let left = all.drop_last();
            let right = before + header_lines(front);
            assert forall|i: int| 0 <= i < left.len() implies left[i] == right[i] by {}
        }
    }
}

/// The headers of a written message are read as they were written: among
/// the lines of a message, and among its lines after the first, a name has
/// the value of the last header of that name, and the empty value where no
/// header has that name. The first line must hold neither a colon nor a
/// line feed.
pub proof fn lemma_message_headers(
    first: Seq<char>,
    headers: Seq<(Seq<char>, Seq<char>)>,
    name: Seq<char>,
)
    requires
        plain_headers(headers),
        forall|i: int| 0 <= i < first.len() ==> first[i] != ':' && first[i] != '\n',
    ensures
        starts_with(message_text(first, headers), first),
        header_value(lines(message_text(first, headers)), name) == written_value(headers, name),
        header_value(lines(message_text(first, headers)).drop_first(), name) == written_value(
            headers,
            name,
        ),
{
    let text = message_text(first, headers);
    let opening = first + seq!['\r'];
    let blank = seq!['\r'];
    let nothing = Seq::<char>::empty();
    assert(text.subrange(0, first.len() as int) =~= first);
    assert(text =~= opening + seq!['\n'] + header_block(headers));
    assert forall|i: int| 0 <= i < opening.len() implies opening[i] != '\n' && opening[i]
        != ':' by {}
    lemma_lines_after_first(opening, header_block(headers));
    lemma_lines_of_block(headers);
    let all = lines(text);
    let tail = header_lines(headers) + seq![blank, nothing];
    assert(all.drop_first() =~= tail);
    // The two lines behind the headers carry none.
    lemma_no_colon_no_header(blank);
    lemma_no_colon_no_header(nothing);
    lemma_no_colon_no_header(opening);
    assert(seq![opening].drop_last() =~= Seq::<Seq<char>>::empty());
    // Without the first line.
    let inner = Seq::<Seq<char>>::empty() + header_lines(headers);
    lemma_header_value_of_lines(Seq::empty(), headers, name);
    assert(tail.drop_last() =~= inner.push(blank));
    assert(inner.push(blank).drop_last() =~= inner);
    assert(header_value(inner.push(blank), name) == header_value(inner, name));
    // With the first line.
    let whole = seq![opening] + header_lines(headers);
    lemma_header_value_of_lines(seq![opening], headers, name);
    assert(all.drop_last() =~= whole.push(blank));
    assert(whole.push(blank).drop_last() =~= whole);
    assert(header_value(whole.push(blank), name) == header_value(whole, name));
}

/// A written search response is read as it was written: the message with
/// the success status line and any headers announces the device that the
/// headers describe, and none where they give no location.
pub proof fn lemma_written_response(headers: Seq<(Seq<char>, Seq<char>)>)
    requires
        plain_headers(headers),
    ensures
        search_response(message_text("HTTP/1.1 200 OK"@, headers)) == (if written_value(
            headers,
            "location"@,
        ).len() > 0 {
            Some(written_device(headers, "st"@))
        } else {
            None
        }),
{
    let first = "HTTP/1.1 200 OK"@;
    reveal_strlit("HTTP/1.1 200 OK");
    lemma_message_headers(first, headers, "location"@);
    lemma_message_headers(first, headers, "usn"@);
    lemma_message_headers(first, headers, "server"@);
    lemma_message_headers(first, headers, "st"@);
    lemma_message_headers(first, headers, "cache-control"@);
}

/// A written notification is read as it was written: the message with the
/// notify request line and any headers says what the sub-type among the
/// headers says, about the device that the headers describe. That a device
/// is alive or updated is said only where the headers give a location.
pub proof fn lemma_written_notification(headers: Seq<(Seq<char>, Seq<char>)>)
    requires
        plain_headers(headers),
    ensures
        presence_notification(message_text("NOTIFY * HTTP/1.1"@, headers)) == (if written_value(
            headers,
            "nts"@,
        ) == "ssdp:alive"@ {
            if written_value(headers, "location"@).len() > 0 {
                Some(SsdpNotificationView::Alive(written_device(headers, "nt"@)))
            } else {
                None
            }
        } else if written_value(headers, "nts"@) == "ssdp:byebye"@ {
            Some(
                SsdpNotificationView::ByeBye {
                    usn: written_value(headers, "usn"@),
                    nt: written_value(headers, "nt"@),
                },
            )
        } else if written_value(headers, "nts"@) == "ssdp:update"@ {
            if written_value(headers, "location"@).len() > 0 {
                Some(SsdpNotificationView::Update(written_device(headers, "nt"@)))
            } else {
                None
            }
        } else {
            None
        }),
{
    let first = "NOTIFY * HTTP/1.1"@;
    reveal_strlit("NOTIFY * HTTP/1.1");
    lemma_message_headers(first, headers, "nts"@);
    lemma_message_headers(first, headers, "location"@);
    lemma_message_headers(first, headers, "usn"@);
    lemma_message_headers(first, headers, "server"@);
    lemma_message_headers(first, headers, "nt"@);
    lemma_message_headers(first, headers, "cache-control"@);
}

} // verus!
