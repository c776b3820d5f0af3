//! Small pieces of text: number formatting and string comparison.

use vstd::prelude::*;
use vstd::utf8::*;

verus! {

/// `String::push` appends the given character to the end of the string.
pub assume_specification[ String::push ](s: &mut String, ch: char)
    ensures
        final(s)@ == old(s)@.push(ch),
;

/// `String::pop` removes the last character and returns it, or returns
/// `None` and changes nothing when the string is empty.
pub assume_specification[ String::pop ](s: &mut String) -> (ch: Option<char>)
    ensures
        old(s)@.len() == 0 ==> ch is None && final(s)@ == old(s)@,
        old(s)@.len() > 0 ==> ch == Some(old(s)@.last()) && final(s)@ == old(s)@.drop_last(),
;

/// `std::str::from_utf8`: the text that the bytes encode, if and only if they
/// are valid UTF-8.
#[verifier::external_body]
pub(crate) fn utf8_text(bytes: &[u8]) -> (text: Option<String>)
    ensures
        text is Some <==> valid_utf8(bytes@),
        text matches Some(s) ==> s@ == decode_utf8(bytes@),
{
    std::str::from_utf8(bytes).ok().map(|s| s.to_string())
}

/// The ASCII decimal digits of `n`, without leading zeros.
pub open spec fn decimal(n: nat) -> Seq<u8>
    decreases n,
{
    if n < 10 {
        seq![(48 + n) as u8]
    } else {
        decimal(n / 10).push((48 + n % 10) as u8)
    }
}

/// Appends the decimal digits of `n` to `out`.
pub fn push_decimal(out: &mut Vec<u8>, n: usize)
    ensures
        final(out)@ == old(out)@ + decimal(n as nat),
    decreases n,
{
    if n >= 10 {
        push_decimal(out, n / 10);
    }
    out.push(48 + (n % 10) as u8);
    assert(out@ =~= old(out)@ + decimal(n as nat));
}

/// The lower case hexadecimal digit for `d`.
pub open spec fn hex_digit(d: int) -> char {
    if d < 10 {
        (48 + d) as char
    } else {
        (87 + d) as char
    }
}

/// The lower case hexadecimal digits of `n`, padded with zeros in front to
/// at least `width` digits.
pub open spec fn hex(n: nat, width: nat) -> Seq<char>
    decreases n, width,
{
    if n < 16 && width <= 1 {
        seq![hex_digit(n as int)]
    } else {
        hex(n / 16, if width == 0 { 0 } else { (width - 1) as nat }).push(hex_digit((n % 16) as int))
    }
}

/// Appends the hexadecimal digits of `n`, at least `width` of them, to `out`.
pub fn push_hex(out: &mut String, n: u32, width: u32)
    ensures
        final(out)@ == old(out)@ + hex(n as nat, width as nat),
    decreases n, width,
{
    if n >= 16 || width > 1 {
        push_hex(
            out,
            n / 16,
            if width == 0 {
                0
            } else {
                width - 1
            },
        );
    }
    let d: u8 = (n % 16) as u8;
    let c: char = if d < 10 {
        (48 + d) as char
    } else {
        (87 + d) as char
    };
    out.push(c);
    assert(out@ =~= old(out)@ + hex(n as nat, width as nat));
}

/// Appends `more` to `out`.
pub fn push_text(out: &mut String, more: &str)
    ensures
        final(out)@ == old(out)@ + more@,
{
    let n: usize = more.unicode_len();
    let mut i: usize = 0;
    assert(more@.take(0) =~= Seq::<char>::empty());
    assert(out@ =~= old(out)@ + more@.take(0));
    while i < n
        invariant
            i <= n,
            n == more@.len(),
            out@ == old(out)@ + more@.take(i as int),
        decreases n - i,
    {
        out.push(more.get_char(i));
        assert(more@.take(i + 1) =~= more@.take(i as int).push(more@[i as int]));
        assert(out@ =~= old(out)@ + more@.take(i + 1));
        i += 1;
    }
    assert(more@.take(n as int) =~= more@);
}

/// Whether two pieces of text are the same.
pub fn same_text(a: &str, b: &str) -> (same: bool)
    ensures
        same == (a@ == b@),
{
    let n: usize = a.unicode_len();
    if n != b.unicode_len() {
        return false;
    }
    let mut i: usize = 0;
    while i < n
        invariant
            i <= n,
            n == a@.len(),
            n == b@.len(),
            forall|j: int| 0 <= j < i ==> a@[j] == b@[j],
        decreases n - i,
    {
        if a.get_char(i) != b.get_char(i) {
            return false;
        }
        i += 1;
    }
    assert(a@ =~= b@);
    true
}

/// The number that decimal digits stand for.
pub open spec fn decimal_value(digits: Seq<u8>) -> int
    decreases digits.len(),
{
    if digits.len() == 0 {
        0
    } else {
        decimal_value(digits.drop_last()) * 10 + (digits.last() - 0x30)
    }
}

/// The decimal digits of a number are digits, stand for that number, and do
/// not start with a zero that could be left out.
pub proof fn lemma_decimal_is_read_back(n: nat)
    ensures
        decimal_value(decimal(n)) == n,
        forall|i: int| 0 <= i < decimal(n).len() ==> 0x30 <= #[trigger] decimal(n)[i] <= 0x39,
        decimal(n).len() > 0,
        n > 0 ==> decimal(n)[0] != 0x30,
        n == 0 ==> decimal(n).len() == 1,
    decreases n,
{
    reveal_with_fuel(decimal_value, 2);
    if n < 10 {
        assert(decimal(n).drop_last() =~= Seq::<u8>::empty());
    } else {
        lemma_decimal_is_read_back(n / 10);
        assert(decimal(n).drop_last() =~= decimal(n / 10));
        assert(decimal(n)[0] == decimal(n / 10)[0]);
        assert forall|i: int| 0 <= i < decimal(n).len() implies 0x30 <= #[trigger] decimal(n)[i]
            <= 0x39 by {
            if i < decimal(n).len() - 1 {
                assert(decimal(n)[i] == decimal(n / 10)[i]);
            }
        }
    }
}

/// The number that hexadecimal digits stand for.
pub open spec fn hex_value(digits: Seq<char>) -> int
    decreases digits.len(),
{
    if digits.len() == 0 {
        0
    } else {
        let c = digits.last();
        hex_value(digits.drop_last()) * 16 + (if '0' <= c <= '9' {
            c as int - '0' as int
        } else {
            c as int - 'a' as int + 10
        })
    }
}

/// The hexadecimal digits of a number are digits in lower case and stand for
/// that number. There are at least as many as asked for, and more only where
/// the number takes them.
pub proof fn lemma_hex_is_read_back(n: nat, width: nat)
    requires
        width > 0,
    ensures
        hex_value(hex(n, width)) == n,
        forall|i: int|
            0 <= i < hex(n, width).len() ==> '0' <= #[trigger] hex(n, width)[i] <= '9' || 'a' <= hex(
                n,
                width,
            )[i] <= 'f',
        hex(n, width).len() >= width,
        hex(n, width).len() > width ==> hex(n, width)[0] != '0',
    decreases n, width,
{
    reveal_with_fuel(hex_value, 2);
    if n < 16 && width <= 1 {
        assert(hex(n, width).drop_last() =~= Seq::<char>::empty());
    } else {
        let w = (width - 1) as nat;
        let less = if w == 0 {
            1
        } else {
            w
        };
        if w == 0 {
            lemma_hex_width_one(n / 16);
        }
        lemma_hex_is_read_back(n / 16, less);
        let rest = hex(n / 16, w);
        assert(rest == hex(n / 16, less));
        assert(hex(n, width) == rest.push(hex_digit((n % 16) as int)));
        assert(hex(n, width).drop_last() =~= rest);
        assert(hex(n, width)[0] == rest[0]);
        assert forall|i: int| 0 <= i < hex(n, width).len() implies '0' <= #[trigger] hex(n, width)[i]
            <= '9' || 'a' <= hex(n, width)[i] <= 'f' by {
            if i < hex(n, width).len() - 1 {
                assert(hex(n, width)[i] == rest[i]);
            }
        }
        if w == 0 && rest.len() == 1 {
            lemma_hex_short(n / 16);
        }
    }
}

/// At least one digit is written in any case.
proof fn lemma_hex_width_one(n: nat)
    ensures
        hex(n, 0) == hex(n, 1),
{
    reveal_with_fuel(hex, 2);
}

/// A number of one digit other than zero does not read as zero.
proof fn lemma_hex_short(n: nat)
    requires
        hex(n, 1).len() == 1,
    ensures
        n < 16,
        hex(n, 1) == seq![hex_digit(n as int)],
{
    reveal_with_fuel(hex, 2);
}

} // verus!
