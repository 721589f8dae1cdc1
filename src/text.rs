//! Rendering of integers as text: decimal and lower-case hexadecimal.

use vstd::prelude::*;

verus! {

/// The ASCII digit for `d` in base 16 (lower case).
pub open spec fn digit_char(d: nat) -> char {
    if d < 10 {
        ((d + 48) as u8) as char
    } else {
        ((d + 87) as u8) as char
    }
}

/// Decimal digits of `n`, most significant first, with no leading zero.
pub open spec fn dec(n: nat) -> Seq<char>
    decreases n,
{
    if n < 10 {
        seq![digit_char(n)]
    } else {
        dec(n / 10).push(digit_char(n % 10))
    }
}

/// Lower-case hexadecimal digits of `n`, most significant first, with no
/// leading zero.
pub open spec fn hex(n: nat) -> Seq<char>
    decreases n,
{
    if n < 16 {
        seq![digit_char(n)]
    } else {
        hex(n / 16).push(digit_char(n % 16))
    }
}

/// Digits of `n` in base 10 or 16.
pub open spec fn digits(n: nat, base: nat) -> Seq<char> {
    if base == 16 {
        hex(n)
    } else {
        dec(n)
    }
}

/// Decimal text of a signed value: a leading '-' for negatives.
pub open spec fn sdec(i: int) -> Seq<char> {
    if i < 0 {
        seq!['-'] + dec((-i) as nat)
    } else {
        dec(i as nat)
    }
}

/// `s` padded on the left with `c` up to `width` characters.
pub open spec fn pad_left(s: Seq<char>, width: nat, c: char) -> Seq<char> {
    if s.len() >= width {
        s
    } else {
        Seq::new((width - s.len()) as nat, |_i: int| c) + s
    }
}

/// `s` padded on the right with spaces up to `width` characters.
pub open spec fn pad_right(s: Seq<char>, width: nat) -> Seq<char> {
    if s.len() >= width {
        s
    } else {
        s + Seq::new((width - s.len()) as nat, |_i: int| ' ')
    }
}

/// Hexadecimal text of `n`, zero-padded to at least `width` digits.
pub open spec fn hex_pad(n: nat, width: nat) -> Seq<char> {
    pad_left(hex(n), width, '0')
}

fn digit_str(d: u64) -> (r: &'static str)
    requires
        d < 16,
    ensures
        r@ == seq![digit_char(d as nat)],
{
    proof {
        reveal_strlit("0");
        reveal_strlit("1");
        reveal_strlit("2");
        reveal_strlit("3");
        reveal_strlit("4");
        reveal_strlit("5");
        reveal_strlit("6");
        reveal_strlit("7");
        reveal_strlit("8");
        reveal_strlit("9");
        reveal_strlit("a");
        reveal_strlit("b");
        reveal_strlit("c");
        reveal_strlit("d");
        reveal_strlit("e");
        reveal_strlit("f");
    }
    match d {
        0 => "0",
        1 => "1",
        2 => "2",
        3 => "3",
        4 => "4",
        5 => "5",
        6 => "6",
        7 => "7",
        8 => "8",
        9 => "9",
        10 => "a",
        11 => "b",
        12 => "c",
        13 => "d",
        14 => "e",
        _ => "f",
    }
}

/// The items of `s` separated by `sep`.
pub open spec fn join(s: Seq<Seq<char>>, sep: Seq<char>) -> Seq<char>
    decreases s.len(),
{
    if s.len() == 0 {
        Seq::empty()
    } else if s.len() == 1 {
        s[0]
    } else {
        join(s.drop_last(), sep) + sep + s.last()
    }
}

/// The items of `s` one after another.
pub open spec fn concat_all<T>(s: Seq<Seq<T>>) -> Seq<T>
    decreases s.len(),
{
    if s.len() == 0 {
        Seq::empty()
    } else {
        concat_all(s.drop_last()) + s.last()
    }
}

/// Relies on `String::push`: the character is appended at the end.
#[verifier::external_body]
pub(crate) fn push_char(s: &mut String, c: u8)
    ensures
        final(s)@ == old(s)@.push(c as char),
{
    s.push(c as char)
}

/// Text of `n` in base 10 or 16.
pub fn digits_of(n: u64, base: u64) -> (r: String)
    requires
        base == 10 || base == 16,
    ensures
        r@ == digits(n as nat, base as nat),
    decreases n,
{
    if n < base {
        let mut s = String::new();
        s.append(digit_str(n));
        s
    } else {
        let mut s = digits_of(n / base, base);
        s.append(digit_str(n % base));
        s
    }
}

/// Appends the decimal text of `n`.
pub fn push_dec(s: &mut String, n: u64)
    ensures
        final(s)@ == old(s)@ + dec(n as nat),
{
    let d = digits_of(n, 10);
    s.append(d.as_str());
}

/// Appends the decimal text of a signed `i`.
pub fn push_sdec(s: &mut String, i: i64)
    ensures
        final(s)@ == old(s)@ + sdec(i as int),
{
    if i < 0 {
        s.append("-");
        proof {
            reveal_strlit("-");
        }
        let m: u64 = if i == i64::MIN {
            0x8000_0000_0000_0000u64
        } else {
            (-i) as u64
        };
        push_dec(s, m);
    } else {
        push_dec(s, i as u64);
    }
}

/// Appends the hexadecimal text of `n`, zero-padded to `width` digits.
pub fn push_hex(s: &mut String, n: u64, width: usize)
    ensures
        final(s)@ == old(s)@ + hex_pad(n as nat, width as nat),
{
    let h = digits_of(n, 16);
    let len = h.as_str().unicode_len();
    let mut k: usize = len;
    let ghost start = s@;
    let ghost mut pad: Seq<char> = Seq::empty();
    proof {
        reveal_strlit("0");
    }
    while k < width
        invariant
            len == hex(n as nat).len(),
            len <= k,
            k <= width || k == len,
            pad.len() == k - len,
            forall|i: int| 0 <= i < pad.len() ==> pad[i] == '0',
            s@ == start + pad,
        decreases width - k,
    {
        s.append("0");
        proof {
            reveal_strlit("0");
            assert("0"@ =~= seq!['0']);
            pad = pad.push('0');
            assert(s@ =~= start + pad);
        }
        k = k + 1;
    }
    s.append(h.as_str());
    proof {
        if len < width {
            assert(pad =~= Seq::new((width - len) as nat, |_i: int| '0'));
        } else {
            assert(pad =~= Seq::<char>::empty());
        }
        assert(s@ =~= start + hex_pad(n as nat, width as nat));
    }
}

} // verus!
