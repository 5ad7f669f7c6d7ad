//! Text building blocks: decimal and hexadecimal digits, and the shape of a
//! hexadecimal literal.
use vstd::prelude::*;
use vstd::string::*;

verus! {

/// The texts of a sequence of strings, in order.
pub open spec fn texts(v: Seq<String>) -> Seq<Seq<char>> {
    Seq::new(v.len(), |i: int| v[i]@)
}

/// The character of one digit below sixteen, in lower case.
pub open spec fn digit_char(d: nat) -> char {
    if d == 0 {
        '0'
    } else if d == 1 {
        '1'
    } else if d == 2 {
        '2'
    } else if d == 3 {
        '3'
    } else if d == 4 {
        '4'
    } else if d == 5 {
        '5'
    } else if d == 6 {
        '6'
    } else if d == 7 {
        '7'
    } else if d == 8 {
        '8'
    } else if d == 9 {
        '9'
    } else if d == 10 {
        'a'
    } else if d == 11 {
        'b'
    } else if d == 12 {
        'c'
    } else if d == 13 {
        'd'
    } else if d == 14 {
        'e'
    } else {
        'f'
    }
}

/// The decimal digits of `n`, most significant first, without leading zeros.
pub open spec fn decimal_digits(n: nat) -> Seq<char>
    decreases n,
{
    if n < 10 {
        seq![digit_char(n)]
    } else {
        decimal_digits(n / 10).push(digit_char(n % 10))
    }
}

/// Two lower-case hexadecimal digits for each byte, in order.
pub open spec fn hex_digits(bytes: Seq<u8>) -> Seq<char>
    decreases bytes.len(),
{
    if bytes.len() == 0 {
        Seq::empty()
    } else {
        hex_digits(bytes.drop_last()).push(digit_char(bytes.last() as nat / 16)).push(
            digit_char(bytes.last() as nat % 16),
        )
    }
}

/// `0x` followed by the hexadecimal digits of `bytes`.
pub open spec fn prefixed_hex(bytes: Seq<u8>) -> Seq<char> {
    seq!['0', 'x'] + hex_digits(bytes)
}

/// The one-character string of a digit below sixteen.
pub fn digit_str(d: usize) -> (s: &'static str)
    requires
        d < 16,
    ensures
        s@ == seq![digit_char(d as nat)],
{
    proof {
        reveal_strlit("0");
        reveal_strlit("1");
        reveal_strlit("2");
        reveal_strlit("3");
        reveal_strlit("4");
        reveal_strlit("5");
        reveal_strlit("6");
        reveal_strlit("7");
        reveal_strlit("8");
        reveal_strlit("9");
        reveal_strlit("a");
        reveal_strlit("b");
        reveal_strlit("c");
        reveal_strlit("d");
        reveal_strlit("e");
        reveal_strlit("f");
    }
    let s = if d == 0 {
        "0"
    } else if d == 1 {
        "1"
    } else if d == 2 {
        "2"
    } else if d == 3 {
        "3"
    } else if d == 4 {
        "4"
    } else if d == 5 {
        "5"
    } else if d == 6 {
        "6"
    } else if d == 7 {
        "7"
    } else if d == 8 {
        "8"
    } else if d == 9 {
        "9"
    } else if d == 10 {
        "a"
    } else if d == 11 {
        "b"
    } else if d == 12 {
        "c"
    } else if d == 13 {
        "d"
    } else if d == 14 {
        "e"
    } else {
        "f"
    };
    assert(s@ =~= seq![digit_char(d as nat)]);
    s
}

/// The number that bytes stand for, the most significant byte first.
pub open spec fn be_nat(bytes: Seq<u8>) -> nat
    decreases bytes.len(),
{
    if bytes.len() == 0 {
        0
    } else {
        be_nat(bytes.drop_last()) * 256 + bytes.last() as nat
    }
}

/// Writes `n` in decimal.
pub fn decimal_string(n: u64) -> (s: String)
    ensures
        s@ == decimal_digits(n as nat),
    decreases n,
{
    if n < 10 {
        String::from_str(digit_str(n as usize))
    } else {
        let mut s = decimal_string(n / 10);
        s.append(digit_str((n % 10) as usize));
        assert(s@ =~= decimal_digits(n as nat));
        s
    }
}

/// Writes `bytes` as `0x` and two lower-case hexadecimal digits a byte.
pub fn hex_string(bytes: &Vec<u8>) -> (s: String)
    ensures
        s@ == prefixed_hex(bytes@),
{
    proof {
        reveal_strlit("0x");
    }
    let mut s = String::from_str("0x");
    let mut i: usize = 0;
    assert(bytes@.subrange(0, 0) =~= Seq::<u8>::empty());
    assert(s@ =~= prefixed_hex(bytes@.subrange(0, 0)));
    while i < bytes.len()
        invariant
            i <= bytes.len(),
            s@ == prefixed_hex(bytes@.subrange(0, i as int)),
        decreases bytes.len() - i,
    {
        let b: u8 = bytes[i];
        let hi: usize = (b / 16) as usize;
        let lo: usize = (b % 16) as usize;
        s.append(digit_str(hi));
        s.append(digit_str(lo));
        proof {
            let next = bytes@.subrange(0, i + 1);
            assert(next.drop_last() =~= bytes@.subrange(0, i as int));
            assert(next.last() == b);
            assert(s@ =~= prefixed_hex(next));
        }
        i += 1;
    }
    assert(bytes@.subrange(0, i as int) =~= bytes@);
    s
}

/// A hexadecimal digit, in either case.
pub open spec fn is_hex_char(c: char) -> bool {
    ('0' <= c && c <= '9') || ('a' <= c && c <= 'f') || ('A' <= c && c <= 'F')
}

/// `0x` followed by hexadecimal digits only, if by any.
pub open spec fn hex_literal(s: Seq<char>) -> bool {
    &&& s.len() >= 2
    &&& s[0] == '0'
    &&& s[1] == 'x'
    &&& forall|i: int| 2 <= i < s.len() ==> is_hex_char(#[trigger] s[i])
}

/// Whether `s` is `0x` followed by hexadecimal digits only; if so, how many.
pub fn hex_literal_digits(s: &str) -> (r: Option<usize>)
    ensures
        match r {
            Some(n) => hex_literal(s@) && s@.len() == n + 2,
            None => !hex_literal(s@),
        },
{
    broadcast use is_ascii_spec_bytes;

    if !s.is_ascii() {
        assert(!hex_literal(s@)) by {
            if hex_literal(s@) {
                assert forall|i: int| 0 <= i < s@.len() implies '\0' <= #[trigger] s@[i] <= '\u{7f}' by {
                    if i >= 2 {
                        assert(is_hex_char(s@[i]));
                    }
                }
            }
        }
        return None;
    }
    let bytes = s.as_bytes();
    let n: usize = bytes.len();
    assert(n == s@.len());
    if n < 2 {
        return None;
    }
    if bytes[0] != 48u8 || bytes[1] != 120u8 {
        return None;
    }
    let mut i: usize = 2;
    while i < n
        invariant
            2 <= i <= n,
            n == s@.len(),
            s.is_ascii(),
            bytes@ == s.spec_bytes(),
            forall|j: int| 2 <= j < i ==> is_hex_char(#[trigger] s@[j]),
        decreases n - i,
    {
        let b: u8 = bytes[i];
        let digit = (48u8 <= b && b <= 57u8) || (97u8 <= b && b <= 102u8) || (65u8 <= b && b <= 70u8);
        assert(digit == is_hex_char(s@[i as int]));
        if !digit {
            return None;
        }
        i += 1;
    }
    Some(n - 2)
}

/// A hexadecimal digit in lower case: the letters `A` to `F` become `a` to `f`.
pub open spec fn lower_hex(c: char) -> char {
    if c == 'A' {
        'a'
    } else if c == 'B' {
        'b'
    } else if c == 'C' {
        'c'
    } else if c == 'D' {
        'd'
    } else if c == 'E' {
        'e'
    } else if c == 'F' {
        'f'
    } else {
        c
    }
}

/// The literal writes exactly these bytes: after its first two characters it
/// holds two digits for each byte, and the digits of each byte, in either
/// case, are those of the byte.
pub open spec fn hex_agrees(bytes: Seq<u8>, literal: Seq<char>) -> bool {
    &&& literal.len() == 2 + 2 * bytes.len()
    &&& forall|i: int|
        0 <= i < bytes.len() ==> lower_hex(literal[2 + 2 * i]) == digit_char(#[trigger] bytes[i] as nat / 16)
            && lower_hex(literal[3 + 2 * i]) == digit_char(bytes[i] as nat % 16)
}

/// The byte of a digit below sixteen, in lower case.
fn digit_byte(d: u8) -> (b: u8)
    requires
        d < 16,
    ensures
        b as char == digit_char(d as nat),
        b < 128,
{
    if d < 10 {
        48 + d
    } else {
        87 + d
    }
}

/// The byte of a character in lower case, as far as hexadecimal digits go.
fn lower_byte(b: u8) -> (l: u8)
    requires
        b < 128,
    ensures
        l as char == lower_hex(b as char),
        l < 128,
{
    if 65 <= b && b <= 70 {
        b + 32
    } else {
        b
    }
}

/// Whether the text is a hexadecimal literal that writes exactly the first
/// `n` of these bytes: see [`hex_literal`] and [`hex_agrees`].
pub fn hex_writes(bytes: &[u8], n: usize, literal: &str) -> (r: bool)
    requires
        n <= bytes@.len(),
    ensures
        r == (hex_literal(literal@) && hex_agrees(bytes@.subrange(0, n as int), literal@)),
{
    broadcast use is_ascii_spec_bytes;

    if hex_literal_digits(literal).is_none() {
        return false;
    }

    assert(literal.is_ascii()) by {
        assert forall|i: int| 0 <= i < literal@.len() implies '\0' <= #[trigger] literal@[i] <= '\u{7f}' by {
            if i >= 2 {
                assert(is_hex_char(literal@[i]));
            }
        }
    }
    let text = literal.as_bytes();
    let ghost wanted = bytes@.subrange(0, n as int);
    let m: usize = text.len();
    assert(m == literal@.len());
    if n > (usize::MAX - 2) / 2 {
        return false;
    }
    if m != 2 + 2 * n {
        return false;
    }
    let mut i: usize = 0;
    while i < n
        invariant
            i <= n <= bytes@.len(),
            n <= (usize::MAX - 2) / 2,
            text@.len() == 2 + 2 * n,
            text@.len() == literal@.len(),
            literal.is_ascii(),
            text@ == literal.spec_bytes(),
            wanted == bytes@.subrange(0, n as int),
            forall|j: int|
                0 <= j < i ==> lower_hex(literal@[2 + 2 * j]) == digit_char(#[trigger] wanted[j] as nat / 16)
                    && lower_hex(literal@[3 + 2 * j]) == digit_char(wanted[j] as nat % 16),
        decreases n - i,
    {
        let b: u8 = bytes[i];
        let hi: u8 = text[2 + 2 * i];
        let lo: u8 = text[3 + 2 * i];
        assert(hi as char == literal@[2 + 2 * i]);
        assert(lo as char == literal@[3 + 2 * i]);
        assert(wanted[i as int] == b);
        if lower_byte(hi) != digit_byte(b / 16) || lower_byte(lo) != digit_byte(b % 16) {
            return false;
        }
        i += 1;
    }
    true
}

/// One decimal digit or more, and nothing else.
pub open spec fn is_decimal(s: Seq<char>) -> bool {
    s.len() > 0 && forall|i: int| 0 <= i < s.len() ==> '0' <= #[trigger] s[i] <= '9'
}

/// Whether `s` is one decimal digit or more, and nothing else.
pub fn is_decimal_text(s: &str) -> (r: bool)
    ensures
        r == is_decimal(s@),
{
    broadcast use is_ascii_spec_bytes;

    if !s.is_ascii() {
        return false;
    }
    let bytes = s.as_bytes();
    let n: usize = bytes.len();
    if n == 0 {
        return false;
    }
    let mut i: usize = 0;
    while i < n
        invariant
            i <= n,
            n == s@.len(),
            s.is_ascii(),
            bytes@ == s.spec_bytes(),
            forall|j: int| 0 <= j < i ==> '0' <= #[trigger] s@[j] <= '9',
        decreases n - i,
    {
        let b: u8 = bytes[i];
        if !(48u8 <= b && b <= 57u8) {
            assert(!('0' <= s@[i as int] <= '9'));
            return false;
        }
        i += 1;
    }
    true
}

/// A number in decimal as it is written without a sign: digits only, and no
/// zero before another digit.
pub open spec fn canonical_decimal(s: Seq<char>) -> bool {
    is_decimal(s) && (s.len() == 1 || s[0] != '0')
}

/// The value of a hexadecimal digit, in either case; zero for any other character.
pub open spec fn hex_value(c: char) -> nat {
    if '0' <= c && c <= '9' {
        (c as nat - '0' as nat) as nat
    } else if 'a' <= c && c <= 'f' {
        (c as nat - 'a' as nat + 10) as nat
    } else if 'A' <= c && c <= 'F' {
        (c as nat - 'A' as nat + 10) as nat
    } else {
        0
    }
}

/// The digit of a word at place `k`, counted from its end in sixteens: the
/// low half of the last byte is place zero. Beyond the word every digit is zero.
pub open spec fn nibble(word: Seq<u8>, k: int) -> nat {
    if 0 <= k < 2 * word.len() {
        let b = word[word.len() - 1 - k / 2] as nat;
        if k % 2 == 0 {
            b % 16
        } else {
            b / 16
        }
    } else {
        0
    }
}

/// The digit of hexadecimal digits at place `k`, counted from their end.
/// Beyond the digits every digit is zero.
pub open spec fn hex_digit_at(digits: Seq<char>, k: int) -> nat {
    if 0 <= k < digits.len() {
        hex_value(digits[digits.len() - 1 - k])
    } else {
        0
    }
}

/// The word is the number that the hexadecimal digits write: set one under
/// the other with their ends aligned, they agree at every place, with zeros
/// where either has run out.
pub open spec fn hex_number_agrees(word: Seq<u8>, digits: Seq<char>) -> bool {
    forall|k: int| 0 <= k < 2 * word.len() + digits.len() ==> #[trigger] nibble(word, k) == hex_digit_at(digits, k)
}

/// Decimal digits without the zeros at their front, but for the last digit.
pub open spec fn trimmed(digits: Seq<char>) -> Seq<char>
    decreases digits.len(),
{
    if digits.len() > 1 && digits[0] == '0' {
        trimmed(digits.subrange(1, digits.len() as int))
    } else {
        digits
    }
}

/// The literal without the minus sign at its front, if it has one.
pub open spec fn unsigned_part(literal: Seq<char>) -> Seq<char> {
    if literal.len() > 0 && literal[0] == '-' {
        literal.subrange(1, literal.len() as int)
    } else {
        literal
    }
}

/// An integer as it may be written: a minus sign or none, and then either
/// decimal digits, or `0x` and hexadecimal digits, one at least.
pub open spec fn integer_literal(literal: Seq<char>) -> bool {
    let body = unsigned_part(literal);
    is_decimal(body) || (hex_literal(body) && body.len() > 2)
}

/// Whether the text is an integer as it may be written: see [`integer_literal`].
pub fn is_integer_literal(literal: &str) -> (r: bool)
    ensures
        r == integer_literal(literal@),
{
    broadcast use is_ascii_spec_bytes;

    let ghost body = unsigned_part(literal@);
    if !literal.is_ascii() {
        assert(!integer_literal(literal@)) by {
            if integer_literal(literal@) {
                assert forall|i: int| 0 <= i < literal@.len() implies '\0' <= #[trigger] literal@[i] <= '\u{7f}' by {
                    if literal@[0] == '-' {
                        if i > 0 {
                            assert(literal@[i] == body[i - 1]);
                            if hex_literal(body) && i - 1 >= 2 {
                                assert(is_hex_char(body[i - 1]));
                            }
                        }
                    } else {
                        if hex_literal(body) && i >= 2 {
                            assert(is_hex_char(body[i]));
                        }
                    }
                }
            }
        }
        return false;
    }
    let bytes = literal.as_bytes();
    let n: usize = bytes.len();
    let start: usize = if n > 0 && bytes[0] == 45u8 {
        1
    } else {
        0
    };
    assert(start == 0 ==> body =~= literal@);
    assert(body == literal@.subrange(start as int, n as int));
    if start == n {
        return false;
    }
    let hex = n - start >= 2 && bytes[start] == 48u8 && bytes[start + 1] == 120u8;
    assert(hex ==> body[0] == '0' && body[1] == 'x');
    assert(!hex && n - start >= 2 ==> !(body[0] == '0' && body[1] == 'x'));
    if hex && n - start == 2 {
        return false;
    }
    let first: usize = if hex {
        start + 2
    } else {
        start
    };
    let mut i: usize = first;
    while i < n
        invariant
            start <= first <= i <= n,
            first == if hex { start + 2 } else { start as int },
            n == literal@.len(),
            literal.is_ascii(),
            bytes@ == literal.spec_bytes(),
            body == literal@.subrange(start as int, n as int),
            body == unsigned_part(literal@),
            hex ==> body.len() > 2 && body[0] == '0' && body[1] == 'x',
            !hex ==> !(body.len() >= 2 && body[0] == '0' && body[1] == 'x'),
            hex ==> forall|j: int| 2 <= j < i - start ==> is_hex_char(#[trigger] body[j]),
            !hex ==> forall|j: int| 0 <= j < i - start ==> '0' <= #[trigger] body[j] <= '9',
        decreases n - i,
    {
        let b: u8 = bytes[i];
        assert(body[i - start] == literal@[i as int]);
        let digit = 48u8 <= b && b <= 57u8;
        let letter = (97u8 <= b && b <= 102u8) || (65u8 <= b && b <= 70u8);
        if hex {
            assert((digit || letter) == is_hex_char(body[i - start]));
            if !(digit || letter) {
                assert(!hex_literal(body));
                assert(!is_decimal(body)) by {
                    assert(body[1] == 'x');
                }
                return false;
            }
        } else {
            assert(digit == ('0' <= body[i - start] <= '9'));
            if !digit {
                assert(!is_decimal(body));
                assert(!hex_literal(body));
                return false;
            }
        }
        i += 1;
    }
    assert(!hex ==> !hex_literal(body)) by {
        if !hex && body.len() >= 2 {
            assert('0' <= body[1] <= '9');
        }
    }
    assert(hex ==> !is_decimal(body)) by {
        if hex {
            assert(body[1] == 'x');
        }
    }
    true
}

/// A byte that is a hexadecimal digit, in either case.
pub open spec fn is_hex_byte(b: u8) -> bool {
    (48 <= b && b <= 57) || (97 <= b && b <= 102) || (65 <= b && b <= 70)
}

/// The value of a byte that is a hexadecimal digit.
fn hex_byte_value(b: u8) -> (v: u8)
    requires
        is_hex_byte(b),
    ensures
        v as nat == hex_value(b as char),
        v < 16,
{
    if b <= 57 {
        b - 48
    } else if b >= 97 {
        b - 87
    } else {
        b - 55
    }
}

/// Whether the word is the number that the hexadecimal digits of the text
/// from `start` on write: see [`hex_number_agrees`].
pub fn writes_hex_number(word: &[u8; 32], literal: &str, start: usize) -> (r: bool)
    requires
        start <= literal@.len(),
        forall|j: int| start <= j < literal@.len() ==> is_hex_char(#[trigger] literal@[j]),
        literal.is_ascii(),
    ensures
        r == hex_number_agrees(word@, literal@.subrange(start as int, literal@.len() as int)),
{
    broadcast use is_ascii_spec_bytes;

    proof {
        vstd::array::array_len_matches_n(word);
    }
    let bytes = literal.as_bytes();
    let n: usize = bytes.len();
    let count: usize = n - start;
    let ghost digits = literal@.subrange(start as int, n as int);
    let places: usize = if count > 64 {
        count
    } else {
        64
    };
    let mut k: usize = 0;
    while k < places
        invariant
            k <= places,
            places == if count > 64 { count } else { 64usize },
            count == n - start,
            start <= n == literal@.len(),
            literal.is_ascii(),
            bytes@ == literal.spec_bytes(),
            word@.len() == 32,
            digits == literal@.subrange(start as int, n as int),
            forall|j: int| start <= j < literal@.len() ==> is_hex_char(#[trigger] literal@[j]),
            forall|j: int| 0 <= j < k ==> #[trigger] nibble(word@, j) == hex_digit_at(digits, j),
        decreases places - k,
    {
        let of_word: u8 = if k < 64 {
            let b: u8 = word[31 - k / 2];
            if k % 2 == 0 {
                b % 16
            } else {
                b / 16
            }
        } else {
            0
        };
        let of_digits: u8 = if k < count {
            let b: u8 = bytes[n - 1 - k];
            assert(b as char == literal@[n - 1 - k]);
            assert(is_hex_char(literal@[n - 1 - k]));
            assert(digits[count - 1 - k] == literal@[n - 1 - k]);
            hex_byte_value(b)
        } else {
            0
        };
        assert(of_word as nat == nibble(word@, k as int));
        assert(of_digits as nat == hex_digit_at(digits, k as int));
        if of_word != of_digits {
            return false;
        }
        k += 1;
    }
    assert forall|j: int| 0 <= j < 2 * word@.len() + digits.len() implies #[trigger] nibble(word@, j)
        == hex_digit_at(digits, j) by {
        if j >= places {
            assert(nibble(word@, j) == 0);
            assert(hex_digit_at(digits, j) == 0);
        }
    }
    true
}

/// The place of the last byte that is not zero; minus one where all are zero.
pub open spec fn last_nonzero(word: Seq<u8>) -> int
    decreases word.len(),
{
    if word.len() == 0 {
        -1
    } else if word.last() != 0 {
        word.len() - 1
    } else {
        last_nonzero(word.drop_last())
    }
}

/// The word of the negated number, in two's complement: the zeros at the end
/// stay, the last byte that is not zero is taken from 256, and every byte
/// before it from 255.
pub open spec fn twos_complement(word: Seq<u8>) -> Seq<u8> {
    let p = last_nonzero(word);
    Seq::new(
        word.len(),
        |i: int|
            if i > p {
                0u8
            } else if i == p {
                (256 - word[i]) as u8
            } else {
                (255 - word[i]) as u8
            },
    )
}

/// Negates a word in two's complement: see [`twos_complement`].
pub fn negate(word: &[u8; 32]) -> (r: [u8; 32])
    ensures
        r@ == twos_complement(word@),
{
    proof {
        vstd::array::array_len_matches_n(word);
    }
    let mut end: usize = 32;
    assert(word@.subrange(0, 32) =~= word@);
    while end > 0 && word[end - 1] == 0
        invariant
            end <= 32,
            word@.len() == 32,
            last_nonzero(word@) == last_nonzero(word@.subrange(0, end as int)),
        decreases end,
    {
        assert(word@.subrange(0, end as int).drop_last() =~= word@.subrange(0, end - 1));
        end -= 1;
    }
    assert(last_nonzero(word@) == end - 1) by {
        let front = word@.subrange(0, end as int);
        if end > 0 {
            assert(front.last() == word@[end - 1]);
        }
    }
    let mut m: Vec<u8> = Vec::new();
    let mut i: usize = 0;
    while i < 32
        invariant
            i <= 32,
            end <= 32,
            word@.len() == 32,
            m@.len() == i,
            end > 0 ==> word@[end - 1] != 0,
            last_nonzero(word@) == end - 1,
            forall|j: int| 0 <= j < i ==> #[trigger] m@[j] == twos_complement(word@)[j],
        decreases 32 - i,
    {
        let b: u8 = word[i];
        let negated: u8 = if i + 1 > end {
            0
        } else if i + 1 == end {
            255 - b + 1
        } else {
            255 - b
        };
        m.push(negated);
        i += 1;
    }
    let r: [u8; 32] = [
        m[0], m[1], m[2], m[3], m[4], m[5], m[6], m[7], m[8], m[9], m[10], m[11], m[12], m[13], m[14], m[15],
        m[16], m[17], m[18], m[19], m[20], m[21], m[22], m[23], m[24], m[25], m[26], m[27], m[28], m[29], m[30],
        m[31],
    ];
    assert(r@ =~= twos_complement(word@));
    r
}

} // verus!
