//! Amounts of money in Chinese capital numerals.

use crate::text::string_of;
use vstd::prelude::*;

verus! {

/// The amounts that can be written are those below this number of units.
pub const AMOUNT_LIMIT: u64 = 100000000000;

/// The capital numeral of the digit `d`.
pub open spec fn numeral(d: nat) -> char {
    if d == 0 {
        '零'
    } else if d == 1 {
        '壹'
    } else if d == 2 {
        '贰'
    } else if d == 3 {
        '叁'
    } else if d == 4 {
        '肆'
    } else if d == 5 {
        '伍'
    } else if d == 6 {
        '陆'
    } else if d == 7 {
        '柒'
    } else if d == 8 {
        '捌'
    } else {
        '玖'
    }
}

/// The unit of the place `pos` within a group of four digits: none for the
/// ones, then ten, hundred and thousand.
pub open spec fn unit(pos: nat) -> Seq<char> {
    if pos == 1 {
        seq!['拾']
    } else if pos == 2 {
        seq!['佰']
    } else if pos == 3 {
        seq!['仟']
    } else {
        Seq::empty()
    }
}

/// The unit of the group `index`, counted from the lowest: none, then ten
/// thousand and a hundred million.
pub open spec fn section(index: nat) -> Seq<char> {
    if index == 1 {
        seq!['万']
    } else if index == 2 {
        seq!['亿']
    } else {
        Seq::empty()
    }
}

/// Where the writing of a group stands: the text so far, whether a zero was
/// passed over since the last digit written, and whether any digit was
/// written.
pub ghost struct GroupScan {
    pub text: Seq<char>,
    pub zero: bool,
    pub any: bool,
}

/// The writing after the digit `d` at place `pos`. A digit other than zero
/// is written with its unit, after one zero where zeros were passed over.
pub open spec fn scan_digit(state: GroupScan, d: nat, pos: nat) -> GroupScan {
    if d != 0 {
        GroupScan {
            text: state.text + (if state.zero {
                seq!['零']
            } else {
                Seq::empty()
            }) + seq![numeral(d)] + unit(pos),
            zero: false,
            any: true,
        }
    } else {
        GroupScan { zero: true, ..state }
    }
}

/// The writing of the four digits of `grp`, from the thousands down.
pub open spec fn group(grp: nat) -> GroupScan {
    scan_digit(
        scan_digit(
            scan_digit(
                scan_digit(
                    GroupScan { text: Seq::empty(), zero: false, any: false },
                    grp / 1000 % 10,
                    3,
                ),
                grp / 100 % 10,
                2,
            ),
            grp / 10 % 10,
            1,
        ),
        grp % 10,
        0,
    )
}

/// The text `acc` of the lower groups with the group `grp` of place `index`
/// before it. A group of zeros leaves one zero between its neighbours.
pub open spec fn with_group(acc: Seq<char>, grp: nat, index: nat) -> Seq<char> {
    if group(grp).any {
        group(grp).text + section(index) + acc
    } else if index > 0 && acc.len() > 0 {
        seq!['零'] + acc
    } else {
        acc
    }
}

/// The text of `n`, whose lowest group has the place `index`, before the
/// text `acc` of the groups below it.
pub open spec fn integer_text_from(n: nat, index: nat, acc: Seq<char>) -> Seq<char>
    decreases n,
{
    if n / 10000 == 0 {
        with_group(acc, n % 10000, index)
    } else {
        integer_text_from(n / 10000, index + 1, with_group(acc, n % 10000, index))
    }
}

/// The text of the units `n`, group by group.
pub open spec fn integer_text(n: nat) -> Seq<char> {
    integer_text_from(n, 0, Seq::empty())
}

/// The text of `cents` hundredths: the word for a round amount, or the
/// tenths and the hundredths that are not zero.
pub open spec fn fraction_text(cents: nat) -> Seq<char> {
    if cents == 0 {
        seq!['整']
    } else {
        (if cents / 10 > 0 {
            seq![numeral(cents / 10), '角']
        } else {
            Seq::empty()
        }) + (if cents % 10 > 0 {
            seq![numeral(cents % 10), '分']
        } else {
            Seq::empty()
        })
    }
}

/// `s` without the run of `c` at its front.
pub open spec fn without_leading(s: Seq<char>, c: char) -> Seq<char>
    decreases s.len(),
{
    if s.len() > 0 && s.first() == c {
        without_leading(s.drop_first(), c)
    } else {
        s
    }
}

/// `s` without the run of `c` at its back.
pub open spec fn without_trailing(s: Seq<char>, c: char) -> Seq<char>
    decreases s.len(),
{
    if s.len() > 0 && s.last() == c {
        without_trailing(s.drop_last(), c)
    } else {
        s
    }
}

/// `s` with every pair of zeros, taken from the left, replaced by one.
pub open spec fn collapsed(s: Seq<char>) -> Seq<char>
    decreases s.len(),
{
    if s.len() < 2 {
        s
    } else if s[0] == '零' && s[1] == '零' {
        seq!['零'] + collapsed(s.subrange(2, s.len() as int))
    } else {
        seq![s[0]] + collapsed(s.drop_first())
    }
}

/// The amount of `units` and `cents` hundredths in capital numerals.
pub open spec fn amount_text(units: nat, cents: nat) -> Seq<char> {
    let joined = if units > 0 {
        without_leading(integer_text(units), '零') + seq!['元'] + fraction_text(cents)
    } else {
        seq!['零', '元'] + fraction_text(cents)
    };
    without_trailing(collapsed(joined), '零')
}

/// The run of `c` at the front of `s` ends at `k`.
proof fn lemma_without_leading_at(s: Seq<char>, c: char, k: int)
    requires
        0 <= k <= s.len(),
        forall|j: int| 0 <= j < k ==> s[j] == c,
        k < s.len() ==> s[k] != c,
    ensures
        without_leading(s, c) == s.subrange(k, s.len() as int),
    decreases s.len(),
{
    if k != 0 {
        let rest = s.drop_first();
        assert forall|j: int| 0 <= j < k - 1 implies rest[j] == c by {}
        lemma_without_leading_at(rest, c, k - 1);
    }
}

/// The run of `c` at the back of `s` begins at `k`.
proof fn lemma_without_trailing_at(s: Seq<char>, c: char, k: int)
    requires
        0 <= k <= s.len(),
        forall|j: int| k <= j < s.len() ==> s[j] == c,
        k > 0 ==> s[k - 1] != c,
    ensures
        without_trailing(s, c) == s.subrange(0, k),
    decreases s.len(),
{
    if k != s.len() {
        let rest = s.drop_last();
        lemma_without_trailing_at(rest, c, k);
    }
}

/// The capital numeral of the digit `d`.
fn numeral_of(d: u64) -> (c: char)
    requires
        d < 10,
    ensures
        c == numeral(d as nat),
{
    if d == 0 {
        '零'
    } else if d == 1 {
        '壹'
    } else if d == 2 {
        '贰'
    } else if d == 3 {
        '叁'
    } else if d == 4 {
        '肆'
    } else if d == 5 {
        '伍'
    } else if d == 6 {
        '陆'
    } else if d == 7 {
        '柒'
    } else if d == 8 {
        '捌'
    } else {
        '玖'
    }
}

/// Adds the characters of `more` to `out`.
fn push_all(out: &mut Vec<char>, more: &Vec<char>)
    ensures
        final(out)@ == old(out)@ + more@,
{
    let ghost start = out@;
    let mut i: usize = 0;
    while i < more.len()
        invariant
            0 <= i <= more.len(),
            out@ == start + more@.subrange(0, i as int),
        decreases more.len() - i,
    {
        out.push(more[i]);
        i += 1;
    }
}

/// The writing of a group in progress.
struct Writing {
    text: Vec<char>,
    zero: bool,
    any: bool,
}

impl Writing {
    /// The state that the writing stands for.
    spec fn state(&self) -> GroupScan {
        GroupScan { text: self.text@, zero: self.zero, any: self.any }
    }

    /// Takes the digit `d` at place `pos`.
    fn digit(&mut self, d: u64, pos: u8)
        requires
            d < 10,
        ensures
            final(self).state() == scan_digit(old(self).state(), d as nat, pos as nat),
    {
        if d != 0 {
            if self.zero {
                self.text.push('零');
                self.zero = false;
            }
            self.text.push(numeral_of(d));
            if pos == 1 {
                self.text.push('拾');
            } else if pos == 2 {
                self.text.push('佰');
            } else if pos == 3 {
                self.text.push('仟');
            }
            self.any = true;
            assert(self.text@ =~= scan_digit(old(self).state(), d as nat, pos as nat).text);
        } else {
            self.zero = true;
        }
    }
}

/// Writes the four digits of `grp`.
fn write_group(grp: u64) -> (written: Writing)
    requires
        grp < 10000,
    ensures
        written.state() == group(grp as nat),
{
    let mut writing = Writing { text: Vec::new(), zero: false, any: false };
    writing.digit(grp / 1000 % 10, 3);
    writing.digit(grp / 100 % 10, 2);
    writing.digit(grp / 10 % 10, 1);
    writing.digit(grp % 10, 0);
    writing
}

/// Writes the units `units`, group by group.
fn write_units(units: u64) -> (text: Vec<char>)
    ensures
        text@ == integer_text(units as nat),
{
    let mut acc: Vec<char> = Vec::new();
    let mut n: u64 = units;
    let mut index: u8 = 0;
    loop
        invariant_except_break
            integer_text(units as nat) == integer_text_from(n as nat, index as nat, acc@),
            index <= 4,
            index >= 1 ==> n < 1844674407370956,
            index >= 2 ==> n < 184467440738,
            index >= 3 ==> n < 18446745,
            index >= 4 ==> n < 1845,
        ensures
            acc@ == integer_text(units as nat),
        decreases n,
    {
        let written = write_group(n % 10000);
        if written.any {
            let mut next = written.text;
            if index == 1 {
                next.push('万');
            } else if index == 2 {
                next.push('亿');
            }
            push_all(&mut next, &acc);
            acc = next;
        } else if index > 0 && acc.len() > 0 {
            let mut next: Vec<char> = Vec::new();
            next.push('零');
            push_all(&mut next, &acc);
            acc = next;
        }
        if n / 10000 == 0 {
            break ;
        }
        n = n / 10000;
        index += 1;
    }
    acc
}

/// Writes `cents` hundredths.
fn write_fraction(cents: u8) -> (text: Vec<char>)
    requires
        cents <= 99,
    ensures
        text@ == fraction_text(cents as nat),
{
    let mut text: Vec<char> = Vec::new();
    if cents == 0 {
        text.push('整');
    } else {
        let jiao = cents / 10;
        let fen = cents % 10;
        if jiao > 0 {
            text.push(numeral_of(jiao as u64));
            text.push('角');
        }
        if fen > 0 {
            text.push(numeral_of(fen as u64));
            text.push('分');
        }
    }
    text
}

/// Replaces every pair of zeros, taken from the left, by one.
fn collapse(v: &Vec<char>) -> (out: Vec<char>)
    ensures
        out@ == collapsed(v@),
{
    let mut out: Vec<char> = Vec::new();
    let mut i: usize = 0;
    let len = v.len();
    assert(v@.subrange(0, len as int) =~= v@);
    while i < len
        invariant
            0 <= i <= len,
            len == v.len(),
            collapsed(v@) == out@ + collapsed(v@.subrange(i as int, len as int)),
        decreases len - i,
    {
        let ghost rest = v@.subrange(i as int, len as int);
        if i + 1 < len && v[i] == '零' && v[i + 1] == '零' {
            out.push('零');
            proof {
                assert(rest.subrange(2, rest.len() as int) =~= v@.subrange(i + 2, len as int));
            }
            i += 2;
        } else {
            out.push(v[i]);
            proof {
                assert(rest.drop_first() =~= v@.subrange(i + 1, len as int));
            }
            i += 1;
        }
    }
    out
}

/// Writes an amount of `units` and `cents` hundredths in capital numerals.
/// The units must stay below a hundred thousand million and the hundredths
/// below a hundred; any other amount is refused.
pub fn digit_uppercase(units: u64, cents: u8) -> (result: Result<String, &'static str>)
    ensures
        match result {
            Ok(text) => units < AMOUNT_LIMIT && cents <= 99 && text@ == amount_text(
                units as nat,
                cents as nat,
            ),
            Err(reason) => (units >= AMOUNT_LIMIT || cents > 99) && reason@ == "Invalid number"@,
        },
{
    if units >= AMOUNT_LIMIT || cents > 99 {
        return Err("Invalid number");
    }
    let mut joined: Vec<char> = Vec::new();
    if units > 0 {
        let whole = write_units(units);
        let mut from: usize = 0;
        while from < whole.len() && whole[from] == '零'
            invariant
                0 <= from <= whole.len(),
                forall|j: int| 0 <= j < from ==> whole@[j] == '零',
            decreases whole.len() - from,
        {
            from += 1;
        }
        proof {
            lemma_without_leading_at(whole@, '零', from as int);
        }
        let mut i: usize = from;
        while i < whole.len()
            invariant
                from <= i <= whole.len(),
                joined@ == whole@.subrange(from as int, i as int),
            decreases whole.len() - i,
        {
            joined.push(whole[i]);
            i += 1;
        }
        joined.push('元');
    } else {
        joined.push('零');
        joined.push('元');
    }
    let fraction = write_fraction(cents);
    push_all(&mut joined, &fraction);
    proof {
        if units > 0 {
            assert(joined@ =~= without_leading(integer_text(units as nat), '零') + seq!['元']
                + fraction_text(cents as nat));
        } else {
            assert(joined@ =~= seq!['零', '元'] + fraction_text(cents as nat));
        }
    }
    let short = collapse(&joined);
    let mut to: usize = short.len();
    while to > 0 && short[to - 1] == '零'
        invariant
            0 <= to <= short.len(),
            forall|j: int| to <= j < short.len() ==> short@[j] == '零',
        decreases to,
    {
        to -= 1;
    }
    proof {
        lemma_without_trailing_at(short@, '零', to as int);
    }
    Ok(string_of(&short, 0, to))
}

} // verus!
