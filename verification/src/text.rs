//! Text that topics, identifiers and payloads are made of.

use vstd::prelude::*;
use vstd::string::*;
use vstd::utf8::*;

verus! {

/// The character of a hexadecimal digit, in lower case.
pub open spec fn digit_char(d: nat) -> char {
    if d < 10 {
        (48 + d) as char
    } else {
        (87 + d) as char
    }
}

/// A number in decimal, without leading zeros.
pub open spec fn decimal(n: nat) -> Seq<char>
    decreases n,
{
    if n < 10 {
        seq![digit_char(n)]
    } else {
        decimal(n / 10).push(digit_char(n % 10))
    }
}

/// An integer in decimal, with a minus sign if it is negative.
pub open spec fn signed_decimal(n: int) -> Seq<char> {
    if n < 0 {
        seq!['-'] + decimal((-n) as nat)
    } else {
        decimal(n as nat)
    }
}

/// The four hexadecimal digits of a 16-bit number.
pub open spec fn hex4(n: nat) -> Seq<char> {
    seq![
        digit_char(n / 4096 % 16),
        digit_char(n / 256 % 16),
        digit_char(n / 16 % 16),
        digit_char(n % 16),
    ]
}

/// The texts of a list, one after the other, with `sep` between neighbours.
pub open spec fn joined(parts: Seq<String>, sep: Seq<char>) -> Seq<char>
    decreases parts.len(),
{
    if parts.len() == 0 {
        Seq::empty()
    } else if parts.len() == 1 {
        parts[0]@
    } else {
        joined(parts.drop_last(), sep) + sep + parts.last()@
    }
}

/// A character with `A` to `Z` replaced by `a` to `z`.
pub open spec fn ascii_lower(c: char) -> char {
    if 'A' <= c <= 'Z' {
        (c as nat + 32) as char
    } else {
        c
    }
}

/// The lower-case form that Unicode gives a text.
pub uninterp spec fn lowercase(s: Seq<char>) -> Seq<char>;

/// Calls `str::to_lowercase`.
///
/// The result depends on the text alone and is named [`lowercase`]. Of a text
/// that is all ASCII it is known: the letters `A` to `Z` become `a` to `z` and
/// every other character stays. What the Unicode tables say of other
/// characters is left to the name.
#[verifier::external_body]
pub(crate) fn to_lowercase(s: &str) -> (r: String)
    ensures
        r@ == lowercase(s@),
        is_ascii_chars(s@) ==> r@ == s@.map_values(|c: char| ascii_lower(c)),
{
    s.to_lowercase()
}

/// A text of two parts.
pub(crate) fn concat2(a: &str, b: &str) -> (r: String)
    ensures
        r@ == a@ + b@,
{
    let mut r = a.to_owned();
    r.append(b);
    r
}

/// A text of three parts.
pub(crate) fn concat3(a: &str, b: &str, c: &str) -> (r: String)
    ensures
        r@ == a@ + b@ + c@,
{
    let mut r = concat2(a, b);
    r.append(c);
    r
}

/// The bytes of a text in UTF-8.
pub(crate) fn utf8(s: &str) -> (r: Vec<u8>)
    ensures
        r@ == encode_utf8(s@),
{
    s.as_bytes_vec()
}

fn digit_text(d: u8) -> (r: &'static str)
    requires
        d < 16,
    ensures
        r@ == seq![digit_char(d as nat)],
{
    proof {
        reveal_strlit("0");
        reveal_strlit("1");
        reveal_strlit("2");
        reveal_strlit("3");
        reveal_strlit("4");
        reveal_strlit("5");
        reveal_strlit("6");
        reveal_strlit("7");
        reveal_strlit("8");
        reveal_strlit("9");
        reveal_strlit("a");
        reveal_strlit("b");
        reveal_strlit("c");
        reveal_strlit("d");
        reveal_strlit("e");
        reveal_strlit("f");
    }
    match d {
        0 => "0",
        1 => "1",
        2 => "2",
        3 => "3",
        4 => "4",
        5 => "5",
        6 => "6",
        7 => "7",
        8 => "8",
        9 => "9",
        10 => "a",
        11 => "b",
        12 => "c",
        13 => "d",
        14 => "e",
        _ => "f",
    }
}

/// Writes a number in decimal.
pub fn decimal_text(n: u64) -> (r: String)
    ensures
        r@ == decimal(n as nat),
    decreases n,
{
    if n < 10 {
        digit_text(n as u8).to_owned()
    } else {
        let mut r = decimal_text(n / 10);
        let ghost head = r@;
        let d = digit_text((n % 10) as u8);
        r.append(d);
        assert(r@ == head.push(digit_char((n % 10) as nat)));
        r
    }
}

/// Writes a signed number in decimal.
pub fn signed_decimal_text(n: i64) -> (r: String)
    ensures
        r@ == signed_decimal(n as int),
{
    if n >= 0 {
        decimal_text(n as u64)
    } else {
        proof {
            reveal_strlit("-");
        }
        // The magnitude of the smallest i64 is one more than the largest.
        let magnitude: u64 = (-(n + 1)) as u64 + 1;
        let digits = decimal_text(magnitude);
        let r = concat2("-", digits.as_str());
        assert("-"@ == seq!['-']);
        r
    }
}

/// Writes a 16-bit number as four hexadecimal digits.
pub fn hex4_text(n: u16) -> (r: String)
    ensures
        r@ == hex4(n as nat),
{
    let mut r = digit_text((n / 4096 % 16) as u8).to_owned();
    r.append(digit_text((n / 256 % 16) as u8));
    r.append(digit_text((n / 16 % 16) as u8));
    r.append(digit_text((n % 16) as u8));
    assert(r@ =~= hex4(n as nat));
    r
}

/// Joins the texts of a list.
pub fn join(parts: &Vec<String>, sep: &str) -> (r: String)
    ensures
        r@ == joined(parts@, sep@),
{
    let mut r = String::new();
    for i in 0..parts.len()
        invariant
            r@ == joined(parts@.take(i as int), sep@),
    {
        if i > 0 {
            r.append(sep);
        }
        r.append(parts[i].as_str());
        assert(parts@.take(i + 1).drop_last() == parts@.take(i as int));
        assert(parts@.take(i + 1).last() == parts@[i as int]);
    }
    assert(parts@.take(parts@.len() as int) == parts@);
    r
}

/// The number that decimal digits stand for.
pub open spec fn decimal_value(s: Seq<char>) -> int
    decreases s.len(),
{
    if s.len() == 0 {
        0
    } else {
        10 * decimal_value(s.drop_last()) + (s.last() as int - 48)
    }
}

/// What is written in decimal reads back as the same number.
pub proof fn law_decimal_reads_back(n: nat)
    ensures
        decimal_value(decimal(n)) == n,
    decreases n,
{
    if n < 10 {
        assert(decimal(n).drop_last() == Seq::<char>::empty());
        assert(decimal_value(Seq::<char>::empty()) == 0);
    } else {
        law_decimal_reads_back(n / 10);
        assert(decimal(n).drop_last() == decimal(n / 10));
    }
}

/// A number is written in the digits `0` to `9`, without zeros in front, and
/// reads back as itself.
pub proof fn law_numbers_are_written_in_digits(n: u64, r: String, i: int)
    requires
        call_ensures(decimal_text, (n,), r),
        0 <= i < r@.len(),
    ensures
        '0' <= r@[i] <= '9',
        r@.len() > 1 ==> r@[0] != '0',
        decimal_value(r@) == n,
{
    law_decimal_reads_back(n as nat);
    lemma_decimal_digits(n as nat, i);
}

proof fn lemma_decimal_digits(n: nat, i: int)
    requires
        0 <= i < decimal(n).len(),
    ensures
        '0' <= decimal(n)[i] <= '9',
        n > 0 ==> decimal(n)[0] != '0',
        n >= 10 <==> decimal(n).len() > 1,
    decreases n,
{
    if n >= 10 {
        lemma_decimal_digits(n / 10, 0);
        if i < decimal(n / 10).len() {
            lemma_decimal_digits(n / 10, i);
        }
    }
}

/// A negative number is written with a minus sign before its magnitude, any
/// other as it is.
pub proof fn law_negative_numbers_have_a_sign(n: i64, r: String)
    requires
        call_ensures(signed_decimal_text, (n,), r),
    ensures
        n < 0 ==> r@.len() > 0 && r@[0] == '-' && decimal_value(r@.skip(1)) == -n,
        n >= 0 ==> decimal_value(r@) == n,
        n >= 0 ==> forall|i: int| 0 <= i < r@.len() ==> '0' <= #[trigger] r@[i] <= '9',
{
    if n < 0 {
        law_decimal_reads_back((-n) as nat);
        assert(r@.skip(1) =~= decimal((-n) as nat));
    } else {
        law_decimal_reads_back(n as nat);
        assert forall|i: int| 0 <= i < r@.len() implies '0' <= #[trigger] r@[i] <= '9' by {
            lemma_decimal_digits(n as nat, i);
        }
    }
}

/// The number that a hexadecimal digit in lower case stands for.
pub open spec fn hex_value(c: char) -> int {
    if '0' <= c <= '9' {
        c as int - '0' as int
    } else {
        c as int - 'a' as int + 10
    }
}

/// A 16-bit number is written in four hexadecimal digits, in lower case, and
/// reads back as itself.
pub proof fn law_hexadecimal_reads_back(n: u16, r: String)
    requires
        call_ensures(hex4_text, (n,), r),
    ensures
        r@.len() == 4,
        forall|i: int| 0 <= i < 4 ==> '0' <= #[trigger] r@[i] <= '9' || 'a' <= r@[i] <= 'f',
        hex_value(r@[0]) * 4096 + hex_value(r@[1]) * 256 + hex_value(r@[2]) * 16 + hex_value(r@[3]) == n,
{
    lemma_hex4_value(n);
}

/// Four hexadecimal digits stand for the number that they were made of.
pub(crate) proof fn lemma_hex4_value(n: u16)
    ensures
        forall|i: int| 0 <= i < 4 ==> '0' <= #[trigger] hex4(n as nat)[i] <= '9' || 'a' <= hex4(n as nat)[i] <= 'f',
        hex_value(hex4(n as nat)[0]) * 4096 + hex_value(hex4(n as nat)[1]) * 256 + hex_value(hex4(n as nat)[2])
            * 16 + hex_value(hex4(n as nat)[3]) == n,
{
    lemma_hex_digit((n / 4096 % 16) as nat);
    lemma_hex_digit((n / 256 % 16) as nat);
    lemma_hex_digit((n / 16 % 16) as nat);
    lemma_hex_digit((n % 16) as nat);
    assert((n / 4096 % 16) * 4096 + (n / 256 % 16) * 256 + (n / 16 % 16) * 16 + n % 16 == n) by (bit_vector);
}

proof fn lemma_hex_digit(d: nat)
    requires
        d < 16,
    ensures
        hex_value(digit_char(d)) == d,
        '0' <= digit_char(d) <= '9' || 'a' <= digit_char(d) <= 'f',
{
}

/// Texts are joined in their order: the join of two lists is the join of each
/// with the separator between them, and a single text stands alone.
pub proof fn law_joining_keeps_the_order(a: Seq<String>, b: Seq<String>, x: String, sep: Seq<char>)
    ensures
        joined(Seq::empty(), sep).len() == 0,
        joined(seq![x], sep) == x@,
        a.len() > 0 && b.len() > 0 ==> joined(a + b, sep) == joined(a, sep) + sep + joined(b, sep),
    decreases b.len(),
{
    assert(joined(Seq::empty(), sep).len() == 0);
    if a.len() > 0 && b.len() > 0 {
        assert((a + b).drop_last() == a + b.drop_last());
        assert((a + b).last() == b.last());
        if b.len() == 1 {
            assert(a + b.drop_last() == a);
            assert(b.last() == b[0]);
        } else {
            law_joining_keeps_the_order(a, b.drop_last(), x, sep);
            assert(joined(a + b, sep) =~= joined(a, sep) + sep + joined(b, sep));
        }
    }
}

/// Of the letters only capitals change, each to its own small letter.
pub proof fn law_capitals_become_small(c: char)
    ensures
        'A' <= c <= 'Z' ==> ascii_lower(c) as int == c as int + 32 && 'a' <= ascii_lower(c) <= 'z',
        !('A' <= c <= 'Z') ==> ascii_lower(c) == c,
{
}

} // verus!
