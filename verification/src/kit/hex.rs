//! Numbers as lowercase hexadecimal text.

use vstd::prelude::*;
use vstd::string::*;

verus! {

/// The character of the hexadecimal digit `d`, for `d` from 0 to 15.
pub open spec fn hex_digit(d: int) -> char {
    if d == 0 {
        '0'
    } else if d == 1 {
        '1'
    } else if d == 2 {
        '2'
    } else if d == 3 {
        '3'
    } else if d == 4 {
        '4'
    } else if d == 5 {
        '5'
    } else if d == 6 {
        '6'
    } else if d == 7 {
        '7'
    } else if d == 8 {
        '8'
    } else if d == 9 {
        '9'
    } else if d == 10 {
        'a'
    } else if d == 11 {
        'b'
    } else if d == 12 {
        'c'
    } else if d == 13 {
        'd'
    } else if d == 14 {
        'e'
    } else {
        'f'
    }
}

/// The hexadecimal digits of `v`, most significant first, with zeros in
/// front up to `width` digits, and one digit at least.
pub open spec fn hex_spec(v: nat, width: nat) -> Seq<char>
    decreases v, width,
{
    if v < 16 && width <= 1 {
        seq![hex_digit(v as int)]
    } else {
        hex_spec(v / 16, if width == 0 { 0 } else { (width - 1) as nat }).push(
            hex_digit((v % 16) as int),
        )
    }
}

/// The number that the hexadecimal digit `c` stands for.
pub open spec fn digit_value(c: char) -> nat {
    if c == '0' {
        0
    } else if c == '1' {
        1
    } else if c == '2' {
        2
    } else if c == '3' {
        3
    } else if c == '4' {
        4
    } else if c == '5' {
        5
    } else if c == '6' {
        6
    } else if c == '7' {
        7
    } else if c == '8' {
        8
    } else if c == '9' {
        9
    } else if c == 'a' {
        10
    } else if c == 'b' {
        11
    } else if c == 'c' {
        12
    } else if c == 'd' {
        13
    } else if c == 'e' {
        14
    } else {
        15
    }
}

/// The number that a text of hexadecimal digits spells.
pub open spec fn hex_value(s: Seq<char>) -> nat
    decreases s.len(),
{
    if s.len() == 0 {
        0
    } else {
        16 * hex_value(s.drop_last()) + digit_value(s.last())
    }
}

/// The hexadecimal text of a number spells that number, whatever the
/// width.
pub proof fn lemma_hex_value(v: nat, width: nat)
    ensures
        hex_value(hex_spec(v, width)) == v,
    decreases v, width,
{
    let s = hex_spec(v, width);
    if v < 16 && width <= 1 {
        assert(s.drop_last() =~= Seq::<char>::empty());
        assert(s.last() == hex_digit(v as int));
        assert(hex_value(s.drop_last()) == 0);
    } else {
        let rest = hex_spec(v / 16, if width == 0 { 0 } else { (width - 1) as nat });
        lemma_hex_value(v / 16, if width == 0 { 0 } else { (width - 1) as nat });
        assert(s.drop_last() =~= rest);
        assert(s.last() == hex_digit((v % 16) as int));
    }
}

/// The length of a number's hexadecimal text is the number of its digits
/// or `width`, whichever is larger.
pub proof fn lemma_hex_len(v: nat, width: nat)
    ensures
        hex_spec(v, width).len() >= 1,
        hex_spec(v, width).len() >= width,
        v < 16 ==> hex_spec(v, width).len() == if width <= 1 { 1 } else { width },
        v >= 16 ==> hex_spec(v, width).len() == 1 + hex_spec(
            v / 16,
            if width == 0 { 0 } else { (width - 1) as nat },
        ).len(),
    decreases v, width,
{
    if !(v < 16 && width <= 1) {
        lemma_hex_len(v / 16, if width == 0 { 0 } else { (width - 1) as nat });
    }
}

/// The text of one hexadecimal digit.
fn digit(d: u64) -> (r: &'static str)
    requires
        d < 16,
    ensures
        r@ == seq![hex_digit(d as int)],
{
    proof {
        reveal_strlit("0");
        reveal_strlit("1");
        reveal_strlit("2");
        reveal_strlit("3");
        reveal_strlit("4");
        reveal_strlit("5");
        reveal_strlit("6");
        reveal_strlit("7");
        reveal_strlit("8");
        reveal_strlit("9");
        reveal_strlit("a");
        reveal_strlit("b");
        reveal_strlit("c");
        reveal_strlit("d");
        reveal_strlit("e");
        reveal_strlit("f");
    }
    let r: &'static str = if d == 0 {
        "0"
    } else if d == 1 {
        "1"
    } else if d == 2 {
        "2"
    } else if d == 3 {
        "3"
    } else if d == 4 {
        "4"
    } else if d == 5 {
        "5"
    } else if d == 6 {
        "6"
    } else if d == 7 {
        "7"
    } else if d == 8 {
        "8"
    } else if d == 9 {
        "9"
    } else if d == 10 {
        "a"
    } else if d == 11 {
        "b"
    } else if d == 12 {
        "c"
    } else if d == 13 {
        "d"
    } else if d == 14 {
        "e"
    } else {
        "f"
    };
    assert(r@ =~= seq![hex_digit(d as int)]);
    r
}

/// Appends the hexadecimal text of `v`, at least `width` digits wide, to
/// `out`.
pub fn push_hex(out: &mut String, v: u64, width: u8)
    ensures
        final(out)@ == old(out)@ + hex_spec(v as nat, width as nat),
    decreases v, width,
{
    if v < 16 && width <= 1 {
        out.append(digit(v));
    } else {
        push_hex(
            out,
            v / 16,
            if width == 0 {
                0
            } else {
                width - 1
            },
        );
        out.append(digit(v % 16));
        assert(out@ =~= old(out)@ + hex_spec(v as nat, width as nat));
    }
}

/// The hexadecimal text of `v`, at least `width` digits wide.
pub fn hex(v: u64, width: u8) -> (r: String)
    ensures
        r@ == hex_spec(v as nat, width as nat),
{
    let mut r = String::new();
    push_hex(&mut r, v, width);
    assert(r@ =~= hex_spec(v as nat, width as nat));
    r
}

} // verus!
