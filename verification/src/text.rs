//! Decimal numbers and the other pieces that error messages are made of.

use vstd::prelude::*;
use vstd::string::*;

verus! {

/// The character of a decimal digit.
pub open spec fn digit(d: int) -> char {
    (48 + d) as char
}

/// A number in decimal, without leading zeros.
pub open spec fn decimal(n: nat) -> Seq<char>
    decreases n,
{
    if n < 10 {
        seq![digit(n as int)]
    } else {
        decimal(n / 10).push(digit((n % 10) as int))
    }
}

/// A signed number in decimal.
pub open spec fn signed_decimal(n: int) -> Seq<char> {
    if n < 0 {
        seq!['-'] + decimal((-n) as nat)
    } else {
        decimal(n as nat)
    }
}

/// Numbers in decimal, with commas between them.
pub open spec fn listed(list: Seq<u32>) -> Seq<char>
    decreases list.len(),
{
    if list.len() == 0 {
        Seq::<char>::empty()
    } else if list.len() == 1 {
        decimal(list[0] as nat)
    } else {
        listed(list.drop_last()) + ", "@ + decimal(list.last() as nat)
    }
}

/// `true` or `false`.
pub open spec fn bool_text(b: bool) -> Seq<char> {
    if b {
        "true"@
    } else {
        "false"@
    }
}

fn digit_text(d: u64) -> (r: &'static str)
    requires
        d < 10,
    ensures
        r@ == seq![digit(d as int)],
{
    proof {
        reveal_strlit("0");
        reveal_strlit("1");
        reveal_strlit("2");
        reveal_strlit("3");
        reveal_strlit("4");
        reveal_strlit("5");
        reveal_strlit("6");
        reveal_strlit("7");
        reveal_strlit("8");
        reveal_strlit("9");
    }
    let r = match d {
        0 => "0",
        1 => "1",
        2 => "2",
        3 => "3",
        4 => "4",
        5 => "5",
        6 => "6",
        7 => "7",
        8 => "8",
        _ => "9",
    };
    assert(r@ =~= seq![digit(d as int)]);
    r
}

/// Appends a number in decimal.
pub fn push_decimal(text: &mut String, n: u64)
    ensures
        final(text)@ == old(text)@ + decimal(n as nat),
    decreases n,
{
    let ghost start = text@;
    if n >= 10 {
        push_decimal(text, n / 10);
    }
    let last = digit_text(n % 10);
    text.append(last);
    proof {
        if n >= 10 {
            assert(text@ =~= start + decimal((n / 10) as nat).push(digit((n % 10) as int)));
        }
    }
}

/// Appends a signed number in decimal.
pub fn push_signed_decimal(text: &mut String, n: i64)
    ensures
        final(text)@ == old(text)@ + signed_decimal(n as int),
{
    if n < 0 {
        proof {
            reveal_strlit("-");
            assert("-"@ =~= seq!['-']);
        }
        let ghost start = text@;
        text.append("-");
        let magnitude: u64 = if n == i64::MIN {
            9223372036854775808u64
        } else {
            (-n) as u64
        };
        push_decimal(text, magnitude);
        proof {
            assert(text@ =~= start + (seq!['-'] + decimal((-n) as nat)));
        }
    } else {
        push_decimal(text, n as u64);
    }
}

/// Appends `true` or `false`.
pub fn push_bool(text: &mut String, b: bool)
    ensures
        final(text)@ == old(text)@ + bool_text(b),
{
    if b {
        text.append("true");
    } else {
        text.append("false");
    }
}

/// Appends numbers in decimal, with commas between them.
pub fn push_list(text: &mut String, list: &Vec<u32>)
    ensures
        final(text)@ == old(text)@ + listed(list@),
{
    let ghost start = text@;
    let mut i: usize = 0;
    assert(text@ =~= start + listed(list@.take(0)));
    while i < list.len()
        invariant
            i <= list@.len(),
            text@ == start + listed(list@.take(i as int)),
        decreases list@.len() - i,
    {
        let ghost before = list@.take(i as int);
        if i > 0 {
            text.append(", ");
        }
        push_decimal(text, list[i] as u64);
        i = i + 1;
        proof {
            let now = list@.take(i as int);
            assert(now.drop_last() =~= before);
            assert(now.last() == list@[i - 1]);
            assert(text@ =~= start + listed(now));
        }
    }
    assert(list@.take(i as int) =~= list@);
}

/// `head` followed by `tail`.
pub fn join(head: &str, tail: &str) -> (r: String)
    ensures
        r@ == head@ + tail@,
{
    head.to_owned().concat(tail)
}

/// The number that a row of decimal digits stands for.
pub open spec fn value(digits: Seq<char>) -> int
    decreases digits.len(),
{
    if digits.len() == 0 {
        0
    } else {
        value(digits.drop_last()) * 10 + (digits.last() as int - '0' as int)
    }
}

/// A number in decimal reads back as the number, is made of digits, and does not start with a
/// zero unless it is zero. So different numbers have different texts.
pub proof fn law_decimal_reads_back(n: nat)
    ensures
        value(decimal(n)) == n,
        decimal(n).len() > 0,
        forall|i: int| 0 <= i < decimal(n).len() ==> '0' <= #[trigger] decimal(n)[i] <= '9',
        n > 0 ==> decimal(n)[0] != '0',
    decreases n,
{
    if n < 10 {
        let one = decimal(n);
        assert(one.drop_last() =~= Seq::<char>::empty());
        assert(value(one) == value(one.drop_last()) * 10 + (one.last() as int - '0' as int));
    } else {
        law_decimal_reads_back(n / 10);
        let front = decimal(n / 10);
        let all = decimal(n);
        assert(all.drop_last() =~= front);
    }
}

/// What is appended for a number reads back as the number; one below zero has a minus in front of
/// it. What was there stays in front.
pub proof fn law_pushed_number_reads_back(
    text: &mut String,
    n: u64,
    signed: &mut String,
    m: i64,
)
    requires
        call_ensures(push_decimal, (text, n), ()),
        call_ensures(push_signed_decimal, (signed, m), ()),
    ensures
        final(text)@.take(old(text)@.len() as int) == old(text)@,
        value(final(text)@.skip(old(text)@.len() as int)) == n,
        final(signed)@.take(old(signed)@.len() as int) == old(signed)@,
        m >= 0 ==> value(final(signed)@.skip(old(signed)@.len() as int)) == m,
        m < 0 ==> final(signed)@[old(signed)@.len() as int] == '-' && value(
            final(signed)@.skip(old(signed)@.len() + 1int),
        ) == -m,
{
    law_decimal_reads_back(n as nat);
    assert(final(text)@.take(old(text)@.len() as int) =~= old(text)@);
    assert(final(text)@.skip(old(text)@.len() as int) =~= decimal(n as nat));
    assert(final(signed)@.take(old(signed)@.len() as int) =~= old(signed)@);
    if m >= 0 {
        law_decimal_reads_back(m as nat);
        assert(final(signed)@.skip(old(signed)@.len() as int) =~= decimal(m as nat));
    } else {
        law_decimal_reads_back((-m) as nat);
        assert(final(signed)@.skip(old(signed)@.len() + 1int) =~= decimal((-m) as nat));
    }
}

/// Joined texts are one behind the other.
pub proof fn law_joined_texts(head: &str, tail: &str, r: String)
    requires
        call_ensures(join, (head, tail), r),
    ensures
        r@.take(head@.len() as int) == head@,
        r@.skip(head@.len() as int) == tail@,
{
    assert(r@.take(head@.len() as int) =~= head@);
    assert(r@.skip(head@.len() as int) =~= tail@);
}

/// A truth value is written out, and so is a list of numbers: the first one as it is, each further
/// one behind a comma and a blank. What was there stays in front.
pub proof fn law_pushed_list_and_truth(
    text: &mut String,
    b: bool,
    longer: &mut String,
    list: Vec<u32>,
    shorter: &mut String,
    front: Vec<u32>,
)
    requires
        call_ensures(push_bool, (text, b), ()),
        call_ensures(push_list, (longer, &list), ()),
        call_ensures(push_list, (shorter, &front), ()),
        list@.len() > 0,
        front@ == list@.drop_last(),
        old(longer)@ == old(shorter)@,
    ensures
        b ==> final(text)@ == old(text)@ + "true"@,
        !b ==> final(text)@ == old(text)@ + "false"@,
        list@.len() == 1 ==> final(shorter)@ == old(shorter)@ && value(
            final(longer)@.skip(old(longer)@.len() as int),
        ) == list@[0],
        list@.len() > 1 ==> {
            let start = final(shorter)@ + ", "@;
            &&& final(longer)@.take(start.len() as int) == start
            &&& value(final(longer)@.skip(start.len() as int)) == list@.last()
        },
{
    law_decimal_reads_back(list@.last() as nat);
    if list@.len() == 1 {
        assert(final(shorter)@ =~= old(shorter)@);
        assert(final(longer)@.skip(old(longer)@.len() as int) =~= decimal(list@[0] as nat));
    } else {
        let start = final(shorter)@ + ", "@;
        assert(final(longer)@ =~= start + decimal(list@.last() as nat));
        assert(final(longer)@.take(start.len() as int) =~= start);
        assert(final(longer)@.skip(start.len() as int) =~= decimal(list@.last() as nat));
    }
}

} // verus!
