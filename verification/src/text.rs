//! Numbers as text: decimal and hexadecimal digits, and reading a decimal back.

use vstd::prelude::*;
use vstd::string::*;

verus! {

/// What an optional string holds.
pub open spec fn opt_view(s: Option<String>) -> Option<Seq<char>> {
    match s {
        Some(t) => Some(t@),
        None => None,
    }
}

/// The digits of the hexadecimal system, in upper case. The first ten are the decimal digits.
const UPPER_DIGITS: [&'static str; 16] = [
    "0", "1", "2", "3", "4", "5", "6", "7", "8", "9", "A", "B", "C", "D", "E", "F",
];

/// The digits of the hexadecimal system, in lower case.
const LOWER_DIGITS: [&'static str; 16] = [
    "0", "1", "2", "3", "4", "5", "6", "7", "8", "9", "a", "b", "c", "d", "e", "f",
];

/// The character that stands for the digit `d`, letters in upper case.
pub open spec fn upper_digit(d: int) -> char {
    if d < 10 {
        ('0' as int + d) as char
    } else {
        ('A' as int + d - 10) as char
    }
}

/// The character that stands for the digit `d`, letters in lower case.
pub open spec fn lower_digit(d: int) -> char {
    if d < 10 {
        ('0' as int + d) as char
    } else {
        ('a' as int + d - 10) as char
    }
}

/// `n` in decimal, without leading zeros.
pub open spec fn decimal(n: nat) -> Seq<char>
    decreases n,
{
    if n < 10 {
        seq![upper_digit(n as int)]
    } else {
        decimal(n / 10).push(upper_digit((n % 10) as int))
    }
}

/// A byte as two hexadecimal digits in upper case.
pub open spec fn hex_byte(n: u8) -> Seq<char> {
    seq![upper_digit(n as int / 16), upper_digit(n as int % 16)]
}

/// A 16-bit number as four hexadecimal digits in lower case.
pub open spec fn hex_word(n: u16) -> Seq<char> {
    seq![
        lower_digit(n as int / 4096),
        lower_digit(n as int / 256 % 16),
        lower_digit(n as int / 16 % 16),
        lower_digit(n as int % 16),
    ]
}

/// Whether `c` is one of the ten decimal digits.
pub open spec fn is_digit(c: char) -> bool {
    '0' as int <= c as int <= '9' as int
}

pub open spec fn all_digits(s: Seq<char>) -> bool {
    forall|i: int| 0 <= i < s.len() ==> is_digit(#[trigger] s[i])
}

/// The number that a sequence of decimal digits denotes.
pub open spec fn digits_value(s: Seq<char>) -> int
    decreases s.len(),
{
    if s.len() == 0 {
        0
    } else {
        digits_value(s.drop_last()) * 10 + (s.last() as int - '0' as int)
    }
}

/// `s` without the plus sign that may stand in front of a number.
pub open spec fn unsigned_part(s: Seq<char>) -> Seq<char> {
    if s.len() > 0 && s[0] == '+' {
        s.skip(1)
    } else {
        s
    }
}

/// The 64-bit number that `s` denotes: at least one decimal digit and nothing else, but for
/// one plus sign in front.
pub open spec fn parsed_u64(s: Seq<char>) -> Option<u64> {
    let digits = unsigned_part(s);
    if digits.len() > 0 && all_digits(digits) && digits_value(digits) <= u64::MAX {
        Some(digits_value(digits) as u64)
    } else {
        None
    }
}

proof fn lemma_upper_digits()
    ensures
        forall|d: int| 0 <= d < 16 ==> (#[trigger] UPPER_DIGITS@[d])@ == seq![upper_digit(d)],
{
    reveal_strlit("0");
    reveal_strlit("1");
    reveal_strlit("2");
    reveal_strlit("3");
    reveal_strlit("4");
    reveal_strlit("5");
    reveal_strlit("6");
    reveal_strlit("7");
    reveal_strlit("8");
    reveal_strlit("9");
    reveal_strlit("A");
    reveal_strlit("B");
    reveal_strlit("C");
    reveal_strlit("D");
    reveal_strlit("E");
    reveal_strlit("F");
    assert forall|d: int| 0 <= d < 16 implies (#[trigger] UPPER_DIGITS@[d])@ == seq![
        upper_digit(d),
    ] by {
        assert(UPPER_DIGITS@[d]@ =~= seq![upper_digit(d)]);
    }
}

proof fn lemma_lower_digits()
    ensures
        forall|d: int| 0 <= d < 16 ==> (#[trigger] LOWER_DIGITS@[d])@ == seq![lower_digit(d)],
{
    reveal_strlit("0");
    reveal_strlit("1");
    reveal_strlit("2");
    reveal_strlit("3");
    reveal_strlit("4");
    reveal_strlit("5");
    reveal_strlit("6");
    reveal_strlit("7");
    reveal_strlit("8");
    reveal_strlit("9");
    reveal_strlit("a");
    reveal_strlit("b");
    reveal_strlit("c");
    reveal_strlit("d");
    reveal_strlit("e");
    reveal_strlit("f");
    assert forall|d: int| 0 <= d < 16 implies (#[trigger] LOWER_DIGITS@[d])@ == seq![
        lower_digit(d),
    ] by {
        assert(LOWER_DIGITS@[d]@ =~= seq![lower_digit(d)]);
    }
}

/// Appends `n` in decimal.
pub fn push_decimal(out: &mut String, n: u64)
    ensures
        final(out)@ == old(out)@ + decimal(n as nat),
    decreases n,
{
    proof {
        lemma_upper_digits();
    }
    if n < 10 {
        out.append(UPPER_DIGITS[n as usize]);
    } else {
        push_decimal(out, n / 10);
        out.append(UPPER_DIGITS[(n % 10) as usize]);
        assert(out@ =~= old(out)@ + decimal(n as nat));
    }
}

/// Appends the two upper-case hexadecimal digits of a byte.
pub fn push_hex_byte(out: &mut String, n: u8)
    ensures
        final(out)@ == old(out)@ + hex_byte(n),
{
    proof {
        lemma_upper_digits();
    }
    out.append(UPPER_DIGITS[(n / 16) as usize]);
    out.append(UPPER_DIGITS[(n % 16) as usize]);
    assert(out@ =~= old(out)@ + hex_byte(n));
}

/// Appends the four lower-case hexadecimal digits of a 16-bit number.
pub fn push_hex_word(out: &mut String, n: u16)
    ensures
        final(out)@ == old(out)@ + hex_word(n),
{
    proof {
        lemma_lower_digits();
    }
    out.append(LOWER_DIGITS[(n / 4096) as usize]);
    out.append(LOWER_DIGITS[(n / 256 % 16) as usize]);
    out.append(LOWER_DIGITS[(n / 16 % 16) as usize]);
    out.append(LOWER_DIGITS[(n % 16) as usize]);
    assert(out@ =~= old(out)@ + hex_word(n));
}

/// A prefix of a sequence of digits denotes no more than the whole of it.
proof fn lemma_prefix_value(s: Seq<char>, n: int)
    requires
        all_digits(s),
        0 <= n <= s.len(),
    ensures
        0 <= digits_value(s.take(n)) <= digits_value(s),
    decreases s.len(),
{
    if n == s.len() {
        assert(s.take(n) =~= s);
        if n > 0 {
            assert(s.drop_last() =~= s.take(n - 1));
            assert(is_digit(s[n - 1]));
            lemma_prefix_value(s.drop_last(), n - 1);
            assert(s.drop_last().take(n - 1) =~= s.drop_last());
        }
    } else {
        let front = s.drop_last();
        assert(forall|i: int| 0 <= i < front.len() ==> front[i] == s[i]);
        assert(front.take(n) =~= s.take(n));
        assert(is_digit(s[s.len() - 1]));
        lemma_prefix_value(front, n);
    }
}

/// Reads a 64-bit number written in decimal.
pub fn parse_u64(s: &str) -> (n: Option<u64>)
    ensures
        n == parsed_u64(s@),
{
    let mut value: u64 = 0;
    let mut first: bool = true;
    let mut any: bool = false;
    // Where the digits begin: behind the plus sign, if there is one.
    let ghost mut start: int = 0;
    let ghost digits = unsigned_part(s@);
    for c in it: s.chars()
        invariant
            it.seq() == s@,
            digits == unsigned_part(s@),
            first == (it.index() == 0),
            start == (if !first && s@[0] == '+' {
                1int
            } else {
                0
            }),
            any == (it.index() > start),
            all_digits(s@.subrange(start, it.index() as int)),
            value == digits_value(s@.subrange(start, it.index() as int)),
    {
        let ghost n = it.index() as int;
        let ghost seen = s@.subrange(start, n);
        if first && c == '+' {
            proof {
                start = 1;
            }
            assert(s@.subrange(1, 1) =~= Seq::<char>::empty());
        } else {
            proof {
                if first {
                    assert(digits =~= s@.skip(0));
                }
                assert(digits =~= s@.skip(start));
                assert(digits.take(n - start) =~= seen);
                assert(digits[n - start] == c);
                assert(s@.subrange(start, n + 1).drop_last() =~= seen);
                assert(digits.take(n - start + 1) =~= s@.subrange(start, n + 1));
            }
            if !('0' <= c && c <= '9') {
                assert(!is_digit(digits[n - start]));
                return None;
            }
            let digit: u64 = c as u64 - '0' as u64;
            proof {
                if all_digits(digits) {
                    lemma_prefix_value(digits, n - start + 1);
                }
                assert(digits_value(s@.subrange(start, n + 1)) == value * 10 + digit);
            }
            if value > (u64::MAX - digit) / 10 {
                return None;
            }
            value = value * 10 + digit;
            any = true;
        }
        first = false;
    }
    proof {
        assert(s@.subrange(start, s@.len() as int) =~= digits);
    }
    if any {
        Some(value)
    } else {
        None
    }
}

/// Writing a number in decimal and reading it back gives the number.
pub proof fn law_decimal_reads_back(n: u64)
    ensures
        parsed_u64(decimal(n as nat)) == Some(n),
{
    lemma_decimal(n as nat);
}

proof fn lemma_decimal(n: nat)
    ensures
        decimal(n).len() > 0,
        all_digits(decimal(n)),
        digits_value(decimal(n)) == n,
        unsigned_part(decimal(n)) == decimal(n),
    decreases n,
{
    let s = decimal(n);
    if n >= 10 {
        let front = decimal(n / 10);
        lemma_decimal(n / 10);
        assert(s.drop_last() =~= front);
        assert(s[0] == front[0]);
        assert forall|i: int| 0 <= i < s.len() implies is_digit(#[trigger] s[i]) by {
            if i < front.len() {
                assert(is_digit(front[i]));
            }
        }
    } else {
        assert(s.drop_last() =~= Seq::<char>::empty());
        assert(digits_value(s.drop_last()) == 0);
    }
    assert(is_digit(s[0]));
}

/// A digit below ten stands for itself, and a number in decimal is the number without its last
/// digit, followed by that digit.
pub proof fn law_decimal_digit_by_digit(n: nat, d: nat)
    requires
        d < 10,
    ensures
        decimal(d) == seq![('0' as int + d) as char],
        n > 0 ==> decimal(10 * n + d) == decimal(n).push(('0' as int + d) as char),
{
    if n > 0 {
        assert((10 * n + d) / 10 == n);
        assert((10 * n + d) % 10 == d);
    }
}

/// A text with a digit behind it denotes ten times as much, and the digit; a digit alone denotes
/// itself; a text that holds anything but digits denotes nothing, and neither does the empty one.
/// A single plus sign may stand in front.
pub proof fn law_numbers_read_digit_by_digit(s: Seq<char>, d: u64)
    requires
        d < 10,
    ensures
        parsed_u64(Seq::empty()) is None,
        parsed_u64(seq!['+']) is None,
        parsed_u64(seq![('0' as int + d) as char]) == Some(d),
        (parsed_u64(s) matches Some(n) ==> parsed_u64(s.push(('0' as int + d) as char)) == (if 10
            * n + d <= u64::MAX {
            Some((10 * n + d) as u64)
        } else {
            None
        })),
        s.len() > 0 && s[0] != '+' ==> parsed_u64(seq!['+'] + s) == parsed_u64(s),
        forall|i: int|
            0 < i < s.len() && !('0' as int <= (#[trigger] s[i]) as int <= '9' as int)
                ==> parsed_u64(s) is None,
        s.len() > 0 && !('0' as int <= s[0] as int <= '9' as int) && s[0] != '+' ==> parsed_u64(
            s,
        ) is None,
{
    let c = ('0' as int + d) as char;
    assert(c as int == '0' as int + d);
    let one = seq![c];
    assert(unsigned_part(seq!['+']) =~= Seq::<char>::empty());
    assert(unsigned_part(one) == one);
    assert(one.drop_last() =~= Seq::<char>::empty());
    assert(digits_value(one.drop_last()) == 0);
    assert(digits_value(one) == d);
    assert(is_digit(one[0]));
    if parsed_u64(s) is Some {
        let digits = unsigned_part(s);
        let more = s.push(c);
        assert(unsigned_part(more) =~= digits.push(c));
        assert(digits.push(c).drop_last() =~= digits);
        assert forall|i: int| 0 <= i < digits.push(c).len() implies is_digit(
            #[trigger] digits.push(c)[i],
        ) by {
            if i < digits.len() {
                assert(is_digit(digits[i]));
            }
        }
        lemma_prefix_value(digits, 0);
    }
    if s.len() > 0 && s[0] != '+' {
        assert(unsigned_part(seq!['+'] + s) =~= s);
    }
    assert forall|i: int|
        0 < i < s.len() && !('0' as int <= (#[trigger] s[i]) as int
            <= '9' as int) implies parsed_u64(s) is None by {
        let digits = unsigned_part(s);
        if s[0] == '+' {
            assert(digits[i - 1] == s[i]);
        } else {
            assert(digits[i] == s[i]);
        }
    }
    if s.len() > 0 && !('0' as int <= s[0] as int <= '9' as int) && s[0] != '+' {
        assert(unsigned_part(s)[0] == s[0]);
    }
}

/// The number that a hexadecimal digit denotes, in upper or in lower case.
pub open spec fn hex_digit_value(c: char) -> int {
    if '0' as int <= c as int <= '9' as int {
        c as int - '0' as int
    } else if 'A' as int <= c as int <= 'F' as int {
        c as int - 'A' as int + 10
    } else if 'a' as int <= c as int <= 'f' as int {
        c as int - 'a' as int + 10
    } else {
        -1
    }
}

/// A byte is written as two hexadecimal digits with no lower-case letter, a 16-bit number as four
/// with no upper-case letter, the most significant first.
pub proof fn law_hex_digits(byte: u8, word: u16)
    ensures
        hex_byte(byte).len() == 2,
        forall|i: int|
            0 <= i < 2 ==> 0 <= hex_digit_value(#[trigger] hex_byte(byte)[i]) < 16 && hex_byte(
                byte,
            )[i] as int <= 'F' as int,
        16 * hex_digit_value(hex_byte(byte)[0]) + hex_digit_value(hex_byte(byte)[1]) == byte,
        hex_word(word).len() == 4,
        forall|i: int|
            0 <= i < 4 ==> 0 <= hex_digit_value(#[trigger] hex_word(word)[i]) < 16 && (hex_word(
                word,
            )[i] as int <= '9' as int || hex_word(word)[i] as int >= 'a' as int),
        4096 * hex_digit_value(hex_word(word)[0]) + 256 * hex_digit_value(hex_word(word)[1]) + 16
            * hex_digit_value(hex_word(word)[2]) + hex_digit_value(hex_word(word)[3]) == word,
{
    assert forall|d: int| 0 <= d < 16 implies hex_digit_value(#[trigger] upper_digit(d)) == d
        && upper_digit(d) as int <= 'F' as int by {}
    assert forall|d: int| 0 <= d < 16 implies hex_digit_value(#[trigger] lower_digit(d)) == d && (
    lower_digit(d) as int <= '9' as int || lower_digit(d) as int >= 'a' as int) by {}
}

} // verus!
