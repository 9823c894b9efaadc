//! Building text.
use vstd::prelude::*;

verus! {

/// The bytes of a text.
pub open spec fn utf8(text: Seq<char>) -> Seq<u8> {
    vstd::utf8::encode_utf8(text)
}

/// The bytes of a text of ASCII characters are those characters.
pub proof fn ascii_bytes(text: Seq<char>)
    requires
        forall|i: int| 0 <= i < text.len() ==> '\0' <= #[trigger] text[i] <= '\u{7f}',
    ensures
        utf8(text).len() == text.len(),
        forall|i: int| 0 <= i < text.len() ==> #[trigger] utf8(text)[i] == text[i] as u8,
{
    vstd::utf8::is_ascii_chars_encode_utf8(text);
}

/// The decimal digit `d`, for `d` below ten.
pub open spec fn digit(d: nat) -> char {
    (('0' as nat) + d) as char
}

/// `n` in decimal, without leading zeros.
pub open spec fn decimal(n: nat) -> Seq<char>
    decreases n,
{
    if n < 10 {
        seq![digit(n)]
    } else {
        decimal(n / 10).push(digit(n % 10))
    }
}

/// Append the decimal digit `d` to `out`.
fn push_digit(out: &mut String, d: u64)
    requires
        d < 10,
    ensures
        final(out)@ == old(out)@.push(digit(d as nat)),
{
    let s: &str = if d == 0 {
        "0"
    } else if d == 1 {
        "1"
    } else if d == 2 {
        "2"
    } else if d == 3 {
        "3"
    } else if d == 4 {
        "4"
    } else if d == 5 {
        "5"
    } else if d == 6 {
        "6"
    } else if d == 7 {
        "7"
    } else if d == 8 {
        "8"
    } else {
        "9"
    };
    proof {
        reveal_strlit("0");
        reveal_strlit("1");
        reveal_strlit("2");
        reveal_strlit("3");
        reveal_strlit("4");
        reveal_strlit("5");
        reveal_strlit("6");
        reveal_strlit("7");
        reveal_strlit("8");
        reveal_strlit("9");
    }
    assert(s@ =~= seq![digit(d as nat)]);
    out.append(s);
    assert(old(out)@ + s@ =~= old(out)@.push(digit(d as nat)));
}

/// Append `n` in decimal to `out`.
pub fn push_decimal(out: &mut String, n: u64)
    ensures
        final(out)@ == old(out)@ + decimal(n as nat),
    decreases n,
{
    if n >= 10 {
        push_decimal(out, n / 10);
    }
    let ghost before = out@;
    push_digit(out, n % 10);
    assert(out@ =~= old(out)@ + decimal(n as nat));
}

/// `n` in decimal, behind a minus sign where it is negative.
pub open spec fn signed(n: int) -> Seq<char> {
    if n < 0 {
        "-"@ + decimal((-n) as nat)
    } else {
        decimal(n as nat)
    }
}

/// Append `n` in decimal to `out`.
pub fn push_signed(out: &mut String, n: i128)
    requires
        i64::MIN <= n <= u64::MAX,
    ensures
        final(out)@ == old(out)@ + signed(n as int),
{
    if n < 0 {
        out.append("-");
        push_decimal(out, (-n) as u64);
    } else {
        push_decimal(out, n as u64);
    }
    assert(out@ =~= old(out)@ + signed(n as int));
}

/// A number in decimal is what its digits write, and begins with a zero only
/// where it is zero.
pub proof fn decimals_write_their_number(n: nat)
    ensures
        decimal(n).len() > 0,
        n > 0 ==> decimal(n)[0] != '0',
        n == 0 ==> decimal(n) == seq!['0'],
        forall|i: int| 0 <= i < decimal(n).len() ==> '0' <= #[trigger] decimal(n)[i] <= '9',
        written(decimal(n)) == n,
    decreases n,
{
    if n >= 10 {
        decimals_write_their_number(n / 10);
        let before = decimal(n / 10);
        assert(decimal(n) == before.push(digit(n % 10)));
        assert(decimal(n).drop_last() =~= before);
        assert forall|i: int| 0 <= i < decimal(n).len() implies '0' <= #[trigger] decimal(n)[i]
            <= '9' by {
            if i < before.len() {
                assert(before[i] == decimal(n)[i]);
            }
        }
        assert(decimal(n)[0] == before[0]);
    } else {
        assert(seq![digit(n)].drop_last() =~= Seq::empty());
        assert(written(Seq::empty()) == 0);
    }
}

/// The number that decimal digits write.
pub open spec fn written(digits: Seq<char>) -> nat
    decreases digits.len(),
{
    if digits.len() == 0 {
        0
    } else {
        (written(digits.drop_last()) * 10 + (digits.last() as int - '0' as int)) as nat
    }
}

/// A number is appended as its digits, behind what the text holds, and behind a
/// minus sign where it is negative.
pub proof fn numbers_are_appended_in_decimal()
    ensures
        forall|out: &mut String, n: u64| #[trigger]
            call_ensures(push_decimal, (out, n), ()) ==> {
                let digits = final(out)@.skip(out@.len() as int);
                &&& final(out)@ == out@ + digits
                &&& written(digits) == n
                &&& digits.len() > 0
                &&& digits.len() > 1 ==> digits[0] != '0'
            },
        forall|out: &mut String, n: i128| #[trigger]
            call_ensures(push_signed, (out, n), ()) ==> {
                &&& n >= 0 ==> final(out)@ == out@ + decimal(n as nat)
                &&& n < 0 ==> final(out)@ == out@ + "-"@ + decimal((-n) as nat)
            },
{
    assert forall|out: &mut String, n: u64| #[trigger]
        call_ensures(push_decimal, (out, n), ()) implies {
        let digits = final(out)@.skip(out@.len() as int);
        &&& final(out)@ == out@ + digits
        &&& written(digits) == n
        &&& digits.len() > 0
        &&& digits.len() > 1 ==> digits[0] != '0'
    } by {
        let digits = final(out)@.skip(out@.len() as int);
        assert(digits =~= decimal(n as nat));
        decimals_write_their_number(n as nat);
    }
    assert forall|out: &mut String, n: i128| #[trigger]
        call_ensures(push_signed, (out, n), ()) && n < 0 implies final(out)@ == out@ + "-"@
        + decimal((-n) as nat) by {
        assert(out@ + signed(n as int) =~= out@ + "-"@ + decimal((-n) as nat));
    }
}

} // verus!
