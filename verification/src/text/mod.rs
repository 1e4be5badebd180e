//! Character-level helpers shared by the wire codecs.
//!
//! Every text that the protocols exchange is modelled as a `Seq<char>`. The
//! executable functions work on a `Vec<char>` copy of the text and address a
//! part of it by a half-open window `from..to`.

pub mod decimal;

use vstd::prelude::*;

verus! {

/// `String::push` appends one character to the end of the string.
pub assume_specification[ std::string::String::push ](s: &mut std::string::String, c: char)
    ensures
        final(s)@ == old(s)@.push(c),
;

/// The text that a lossy decoding of `bytes` as UTF-8 gives.
pub uninterp spec fn utf8_lossy(bytes: Seq<u8>) -> Seq<char>;

/// `String::from_utf8_lossy` decodes `bytes` as UTF-8 and puts U+FFFD in the
/// place of every sequence that is not valid. The text depends on the bytes
/// alone.
#[verifier::external_body]
pub(crate) fn lossy_text(bytes: &[u8]) -> (text: String)
    ensures
        text@ == utf8_lossy(bytes@),
{
    String::from_utf8_lossy(bytes).into_owned()
}

/// The characters that count as white space when a header is trimmed: the
/// Unicode `White_Space` code points.
pub open spec fn is_space(c: char) -> bool {
    let n = c as u32;
    ||| 0x09 <= n <= 0x0D
    ||| n == 0x20
    ||| n == 0x85
    ||| n == 0xA0
    ||| n == 0x1680
    ||| 0x2000 <= n <= 0x200A
    ||| n == 0x2028
    ||| n == 0x2029
    ||| n == 0x202F
    ||| n == 0x205F
    ||| n == 0x3000
}

/// `s` without its leading white space.
pub open spec fn trim_start(s: Seq<char>) -> Seq<char>
    decreases s.len(),
{
    if s.len() > 0 && is_space(s.first()) {
        trim_start(s.drop_first())
    } else {
        s
    }
}

/// `s` without its trailing white space.
pub open spec fn trim_end(s: Seq<char>) -> Seq<char>
    decreases s.len(),
{
    if s.len() > 0 && is_space(s.last()) {
        trim_end(s.drop_last())
    } else {
        s
    }
}

/// `s` without leading and trailing white space.
pub open spec fn trim(s: Seq<char>) -> Seq<char> {
    trim_end(trim_start(s))
}

/// The index of the first `c` in `s`, or `s.len()` where `s` holds none.
pub open spec fn find_char(s: Seq<char>, c: char) -> int
    decreases s.len(),
{
    if s.len() == 0 {
        0
    } else if s.first() == c {
        0
    } else {
        1 + find_char(s.drop_first(), c)
    }
}

/// The lower-case form of an ASCII capital; every other character unchanged.
pub open spec fn ascii_lower(c: char) -> char {
    if 'A' <= c && c <= 'Z' {
        ((c as u8 + 32) as u8) as char
    } else {
        c
    }
}

/// `s` with every ASCII capital replaced by its lower-case form.
pub open spec fn lower(s: Seq<char>) -> Seq<char> {
    Seq::new(s.len(), |i: int| ascii_lower(s[i]))
}

/// Whether `s` begins with `prefix`.
pub open spec fn starts_with(s: Seq<char>, prefix: Seq<char>) -> bool {
    prefix.len() <= s.len() && s.subrange(0, prefix.len() as int) == prefix
}

/// `text` cut at every line feed. The line feeds themselves are dropped; a
/// text without any is one line.
pub open spec fn lines(text: Seq<char>) -> Seq<Seq<char>>
    decreases text.len(),
{
    let i = find_char(text, '\n');
    if 0 <= i < text.len() {
        seq![text.subrange(0, i)] + lines(text.subrange(i + 1, text.len() as int))
    } else {
        seq![text]
    }
}

/// Where the first `c` is found: within the text or at its end, at a `c`,
/// and behind characters that are all different from `c`.
pub proof fn lemma_find_char_bounds(s: Seq<char>, c: char)
    ensures
        0 <= find_char(s, c) <= s.len(),
        find_char(s, c) < s.len() ==> s[find_char(s, c)] == c,
        forall|j: int| 0 <= j < find_char(s, c) ==> s[j] != c,
    decreases s.len(),
{
    if s.len() > 0 && s.first() != c {
        let rest = s.drop_first();
        lemma_find_char_bounds(rest, c);
        assert forall|j: int| 0 <= j < find_char(s, c) implies s[j] != c by {
            if j > 0 {
                assert(s[j] == rest[j - 1]);
            }
        }
    }
}

/// The first occurrence is where the scan from the left stops.
pub proof fn lemma_find_char_at(s: Seq<char>, c: char, k: int)
    requires
        0 <= k <= s.len(),
        forall|j: int| 0 <= j < k ==> s[j] != c,
        k < s.len() ==> s[k] == c,
    ensures
        find_char(s, c) == k,
    decreases s.len(),
{
    if s.len() > 0 && k > 0 {
        let rest = s.drop_first();
        assert forall|j: int| 0 <= j < k - 1 implies rest[j] != c by {}
        lemma_find_char_at(rest, c, k - 1);
    }
}

/// Trimming at the front removes exactly the leading run of white space.
pub proof fn lemma_trim_start_at(s: Seq<char>, k: int)
    requires
        0 <= k <= s.len(),
        forall|j: int| 0 <= j < k ==> is_space(s[j]),
        k < s.len() ==> !is_space(s[k]),
    ensures
        trim_start(s) == s.subrange(k, s.len() as int),
    decreases s.len(),
{
    if k != 0 {
        let rest = s.drop_first();
        assert forall|j: int| 0 <= j < k - 1 implies is_space(rest[j]) by {}
        lemma_trim_start_at(rest, k - 1);
    }
}

/// Trimming at the back removes exactly the trailing run of white space.
pub proof fn lemma_trim_end_at(s: Seq<char>, k: int)
    requires
        0 <= k <= s.len(),
        forall|j: int| k <= j < s.len() ==> is_space(s[j]),
        k > 0 ==> !is_space(s[k - 1]),
    ensures
        trim_end(s) == s.subrange(0, k),
    decreases s.len(),
{
    if k != s.len() {
        let rest = s.drop_last();
        lemma_trim_end_at(rest, k);
    }
}

/// Copies the characters of `s` into a vector.
pub fn chars_of(s: &str) -> (v: Vec<char>)
    ensures
        v@ == s@,
{
    let mut v: Vec<char> = Vec::new();
    for c in it: s.chars()
        invariant
            v@ == it.seq().take(it.index()),
    {
        v.push(c);
    }
    v
}

/// Builds a string from the characters `v[from..to]`.
pub fn string_of(v: &Vec<char>, from: usize, to: usize) -> (s: String)
    requires
        from <= to <= v.len(),
    ensures
        s@ == v@.subrange(from as int, to as int),
{
    let mut s = String::new();
    let mut i: usize = from;
    while i < to
        invariant
            from <= i <= to <= v.len(),
            s@ == v@.subrange(from as int, i as int),
        decreases to - i,
    {
        s.push(v[i]);
        i += 1;
    }
    s
}

/// Decides whether `c` is white space.
pub fn char_is_space(c: char) -> (b: bool)
    ensures
        b == is_space(c),
{
    let n: u32 = c as u32;
    (0x09 <= n && n <= 0x0D) || n == 0x20 || n == 0x85 || n == 0xA0 || n == 0x1680 || (0x2000 <= n
        && n <= 0x200A) || n == 0x2028 || n == 0x2029 || n == 0x202F || n == 0x205F || n == 0x3000
}

/// Finds the first `c` in `v[from..to]`; the result is `to` where there is
/// none.
pub fn find_in(v: &Vec<char>, from: usize, to: usize, c: char) -> (i: usize)
    requires
        from <= to <= v.len(),
    ensures
        from <= i <= to,
        i - from == find_char(v@.subrange(from as int, to as int), c),
{
    let mut i: usize = from;
    while i < to && v[i] != c
        invariant
            from <= i <= to <= v.len(),
            forall|j: int| from <= j < i ==> v@[j] != c,
        decreases to - i,
    {
        i += 1;
    }
    proof {
        lemma_find_char_at(v@.subrange(from as int, to as int), c, i - from);
    }
    i
}

/// Narrows the window `from..to` of `v` until it neither begins nor ends
/// with white space.
pub fn trim_in(v: &Vec<char>, from: usize, to: usize) -> (w: (usize, usize))
    requires
        from <= to <= v.len(),
    ensures
        from <= w.0 <= w.1 <= to,
        v@.subrange(w.0 as int, w.1 as int) == trim(v@.subrange(from as int, to as int)),
{
    let mut a: usize = from;
    while a < to && char_is_space(v[a])
        invariant
            from <= a <= to <= v.len(),
            forall|j: int| from <= j < a ==> is_space(v@[j]),
        decreases to - a,
    {
        a += 1;
    }
    let mut b: usize = to;
    while b > a && char_is_space(v[b - 1])
        invariant
            a <= b <= to <= v.len(),
            forall|j: int| b <= j < to ==> is_space(v@[j]),
        decreases b,
    {
        b -= 1;
    }
    proof {
        let whole = v@.subrange(from as int, to as int);
        lemma_trim_start_at(whole, a - from);
        let front = v@.subrange(a as int, to as int);
        assert(whole.subrange(a - from, whole.len() as int) =~= front);
        lemma_trim_end_at(front, b - a);
    }
    (a, b)
}

/// Decides whether `v[from..to]`, read without regard to the case of ASCII
/// letters, is `name`.
pub fn matches_name(v: &Vec<char>, from: usize, to: usize, name: &Vec<char>) -> (b: bool)
    requires
        from <= to <= v.len(),
    ensures
        b == (lower(v@.subrange(from as int, to as int)) == lower(name@)),
{
    let ghost left = lower(v@.subrange(from as int, to as int));
    let ghost right = lower(name@);
    if to - from != name.len() {
        assert(left.len() != right.len());
        return false;
    }
    let mut i: usize = 0;
    while i < name.len()
        invariant
            from <= to <= v.len(),
            to - from == name.len(),
            0 <= i <= name.len(),
            left == lower(v@.subrange(from as int, to as int)),
            right == lower(name@),
            forall|j: int| 0 <= j < i ==> left[j] == right[j],
        decreases name.len() - i,
    {
        if to_ascii_lower(v[from + i]) != to_ascii_lower(name[i]) {
            assert(left[i as int] != right[i as int]);
            return false;
        }
        i += 1;
    }
    assert(left =~= right);
    true
}

/// The lower-case form of an ASCII capital; every other character unchanged.
pub fn to_ascii_lower(c: char) -> (r: char)
    ensures
        r == ascii_lower(c),
{
    if 'A' <= c && c <= 'Z' {
        ((c as u8) + 32) as char
    } else {
        c
    }
}

/// Decides whether `v` begins with `prefix`.
pub fn has_prefix(v: &Vec<char>, prefix: &Vec<char>) -> (b: bool)
    ensures
        b == starts_with(v@, prefix@),
{
    if prefix.len() > v.len() {
        return false;
    }
    let mut i: usize = 0;
    while i < prefix.len()
        invariant
            prefix.len() <= v.len(),
            0 <= i <= prefix.len(),
            forall|j: int| 0 <= j < i ==> v@[j] == prefix@[j],
        decreases prefix.len() - i,
    {
        if v[i] != prefix[i] {
            return false;
        }
        i += 1;
    }
    assert(v@.subrange(0, prefix.len() as int) =~= prefix@);
    true
}

/// Decides whether two texts hold the same characters.
pub fn same_text(a: &str, b: &str) -> (r: bool)
    ensures
        r == (a@ == b@),
{
    let x = chars_of(a);
    let y = chars_of(b);
    if x.len() != y.len() {
        return false;
    }
    let mut i: usize = 0;
    while i < x.len()
        invariant
            x@ == a@,
            y@ == b@,
            x.len() == y.len(),
            0 <= i <= x.len(),
            forall|j: int| 0 <= j < i ==> x@[j] == y@[j],
        decreases x.len() - i,
    {
        if x[i] != y[i] {
            return false;
        }
        i += 1;
    }
    assert(x@ =~= y@);
    true
}

/// Copies a list of texts.
pub fn clone_texts(texts: &Vec<String>) -> (copy: Vec<String>)
    ensures
        copy.deep_view() == texts.deep_view(),
{
    let mut copy: Vec<String> = Vec::new();
    let mut i: usize = 0;
    while i < texts.len()
        invariant
            0 <= i <= texts.len(),
            copy.deep_view() == texts.deep_view().subrange(0, i as int),
        decreases texts.len() - i,
    {
        let ghost before = copy.deep_view();
        copy.push(texts[i].clone());
        assert(copy.deep_view() =~= before.push(texts.deep_view()[i as int]));
        i += 1;
    }
    copy
}

/// Copies a list of pairs of texts.
pub fn clone_pairs(pairs: &Vec<(String, String)>) -> (copy: Vec<(String, String)>)
    ensures
        copy.deep_view() == pairs.deep_view(),
{
    let mut copy: Vec<(String, String)> = Vec::new();
    let mut i: usize = 0;
    while i < pairs.len()
        invariant
            0 <= i <= pairs.len(),
            copy.deep_view() == pairs.deep_view().subrange(0, i as int),
        decreases pairs.len() - i,
    {
        let ghost before = copy.deep_view();
        copy.push((pairs[i].0.clone(), pairs[i].1.clone()));
        assert(copy.deep_view() =~= before.push(pairs.deep_view()[i as int]));
        i += 1;
    }
    copy
}

/// The part of a qualified name after its prefix: what follows the first
/// colon, and the whole name where it has none.
pub open spec fn local_name(name: Seq<char>) -> Seq<char> {
    let i = find_char(name, ':');
    if 0 <= i < name.len() {
        name.subrange(i + 1, name.len() as int)
    } else {
        name
    }
}

/// Decides whether the local part of `name` is `local`.
pub fn has_local_name(name: &str, local: &str) -> (b: bool)
    ensures
        b == (local_name(name@) == local@),
{
    let v = chars_of(name);
    let w = chars_of(local);
    assert(v@.subrange(0, v.len() as int) =~= v@);
    let colon = find_in(&v, 0, v.len(), ':');
    let from: usize = if colon < v.len() {
        colon + 1
    } else {
        0
    };
    if v.len() - from != w.len() {
        return false;
    }
    let mut i: usize = 0;
    while i < w.len()
        invariant
            from <= v.len(),
            v.len() - from == w.len(),
            0 <= i <= w.len(),
            w@ == local@,
            local_name(name@) == v@.subrange(from as int, v.len() as int),
            forall|j: int| 0 <= j < i ==> v@[from + j] == w@[j],
        decreases w.len() - i,
    {
        if v[from + i] != w[i] {
            return false;
        }
        i += 1;
    }
    assert(v@.subrange(from as int, v.len() as int) =~= w@);
    true
}

/// Whether `needle` occurs in `hay` at position `i`.
pub open spec fn occurs_at(hay: Seq<char>, needle: Seq<char>, i: int) -> bool {
    0 <= i && i + needle.len() <= hay.len() && hay.subrange(i, i + needle.len()) == needle
}

/// Whether `needle` occurs somewhere in `hay`.
pub open spec fn contains_text(hay: Seq<char>, needle: Seq<char>) -> bool {
    exists|i: int| occurs_at(hay, needle, i)
}

/// Decides whether `needle` occurs in `hay` at position `at`.
fn found_at(hay: &Vec<char>, needle: &Vec<char>, at: usize) -> (b: bool)
    requires
        at + needle.len() <= hay.len(),
    ensures
        b == occurs_at(hay@, needle@, at as int),
{
    let mut j: usize = 0;
    while j < needle.len()
        invariant
            at + needle.len() <= hay.len(),
            0 <= j <= needle.len(),
            forall|k: int| 0 <= k < j ==> hay@[at + k] == needle@[k],
        decreases needle.len() - j,
    {
        if hay[at + j] != needle[j] {
            return false;
        }
        j += 1;
    }
    assert(hay@.subrange(at as int, at + needle.len()) =~= needle@);
    true
}

/// Decides whether `needle` occurs somewhere in `hay`.
pub fn has_text(hay: &str, needle: &str) -> (b: bool)
    ensures
        b == contains_text(hay@, needle@),
{
    let h = chars_of(hay);
    let n = chars_of(needle);
    if n.len() > h.len() {
        assert forall|i: int| !occurs_at(h@, n@, i) by {}
        return false;
    }
    let last = h.len() - n.len();
    let mut i: usize = 0;
    loop
        invariant
            n.len() <= h.len(),
            last == h.len() - n.len(),
            0 <= i <= last,
            h@ == hay@,
            n@ == needle@,
            forall|k: int| 0 <= k < i ==> !occurs_at(h@, n@, k),
        ensures
            forall|k: int| 0 <= k <= last ==> !occurs_at(h@, n@, k),
        decreases last - i,
    {
        if found_at(&h, &n, i) {
            return true;
        }
        if i == last {
            break ;
        }
        i += 1;
    }
    assert forall|k: int| !occurs_at(h@, n@, k) by {}
    false
}

} // verus!
