//! Text: conversions between strings and character vectors, and decimal
//! numerals.
use vstd::prelude::*;
use vstd::string::StringExecFns;

verus! {

/// `String::push` appends one character to the end of a string.
pub assume_specification[ String::push ](s: &mut String, c: char)
    ensures
        final(s)@ == old(s)@.push(c),
;

/// The number of bytes that a character takes in UTF-8.
pub open spec fn utf8_width(c: char) -> int {
    if (c as u32) < 0x80 {
        1
    } else if (c as u32) < 0x800 {
        2
    } else if (c as u32) < 0x10000 {
        3
    } else {
        4
    }
}

/// The byte offset at which the character at index `i` of a text begins;
/// for `i` the length of the text, the number of its bytes.
pub open spec fn byte_offset(s: Seq<char>, i: int) -> int
    decreases i,
{
    if i <= 0 {
        0
    } else {
        byte_offset(s, i - 1) + utf8_width(s[i - 1])
    }
}

/// Each character begins at least one byte behind the one before it.
pub proof fn lemma_byte_offset_grows(s: Seq<char>, i: int, j: int)
    requires
        0 <= i <= j,
    ensures
        byte_offset(s, i) + (j - i) <= byte_offset(s, j),
    decreases j - i,
{
    if i < j {
        lemma_byte_offset_grows(s, i, j - 1);
    }
}

/// The offsets of a text without its first character are those of the
/// text, less the width of that character.
proof fn lemma_byte_offset_shift(s: Seq<char>, i: int)
    requires
        0 <= i < s.len(),
    ensures
        byte_offset(s, i + 1) == utf8_width(s[0]) + byte_offset(s.drop_first(), i),
    decreases i,
{
    reveal_with_fuel(byte_offset, 2);
    if i > 0 {
        lemma_byte_offset_shift(s, i - 1);
        assert(s.drop_first()[i - 1] == s[i]);
    }
}

/// The byte offset of the end of a text is the length of its encoding.
pub proof fn lemma_byte_offset_total(s: Seq<char>)
    ensures
        byte_offset(s, s.len() as int) == vstd::utf8::encode_utf8(s).len(),
    decreases s.len(),
{
    if s.len() > 0 {
        lemma_byte_offset_total(s.drop_first());
        lemma_byte_offset_shift(s, s.len() - 1);
        vstd::utf8::char_is_scalar(s[0]);
    }
}

/// The number of bytes that a character takes in UTF-8.
pub fn char_width(c: char) -> (w: usize)
    ensures
        w == utf8_width(c),
{
    let code: u32 = c as u32;
    if code < 0x80 {
        1
    } else if code < 0x800 {
        2
    } else if code < 0x10000 {
        3
    } else {
        4
    }
}

/// The characters of a string, in order. Their number and the number of
/// their bytes are known to fit the machine's word.
pub fn to_chars(s: &str) -> (v: Vec<char>)
    ensures
        v@ == s@,
        v@.len() < usize::MAX,
        byte_offset(s@, s@.len() as int) <= usize::MAX,
{
    let bytes = s.as_bytes().len();
    proof {
        lemma_byte_offset_total(s@);
    }
    let mut v: Vec<char> = Vec::new();
    for c in it: s.chars()
        invariant
            it.seq() == s@,
            v@ == it.seq().take(it.index()),
    {
        v.push(c);
    }
    assert(v@ == s@);
    // One more character still fits, so the count lies below the limit.
    let ghost count = v@.len();
    v.push(' ');
    assert(v.len() == count + 1);
    v.pop();
    assert(v@ =~= s@);
    v
}

/// The string made of the characters `v[from..to]`.
pub fn from_chars(v: &Vec<char>, from: usize, to: usize) -> (s: String)
    requires
        from <= to <= v.len(),
    ensures
        s@ == v@.subrange(from as int, to as int),
{
    let mut s = String::new();
    let mut i: usize = from;
    while i < to
        invariant
            from <= i <= to <= v.len(),
            s@ == v@.subrange(from as int, i as int),
        decreases to - i,
    {
        s.push(v[i]);
        proof {
            assert(v@.subrange(from as int, i + 1) =~= v@.subrange(from as int, i as int).push(
                v@[i as int],
            ));
        }
        i += 1;
    }
    s
}

/// Whether two strings hold the same characters.
pub fn same_text(a: &String, b: &String) -> (r: bool)
    ensures
        r == (a@ == b@),
{
    *a == *b
}

/// Whether a string holds exactly the characters of `lit`.
pub fn is_text(a: &String, lit: &str) -> (r: bool)
    ensures
        r == (a@ == lit@),
{
    let other = String::from_str(lit);
    *a == other
}

/// The character of a decimal digit.
pub open spec fn digit_spec(d: int) -> char {
    if d == 0 {
        '0'
    } else if d == 1 {
        '1'
    } else if d == 2 {
        '2'
    } else if d == 3 {
        '3'
    } else if d == 4 {
        '4'
    } else if d == 5 {
        '5'
    } else if d == 6 {
        '6'
    } else if d == 7 {
        '7'
    } else if d == 8 {
        '8'
    } else {
        '9'
    }
}

/// The decimal numeral of a natural number, without leading zeros.
pub open spec fn decimal(n: nat) -> Seq<char>
    decreases n,
{
    if n < 10 {
        seq![digit_spec(n as int)]
    } else {
        decimal(n / 10).push(digit_spec((n % 10) as int))
    }
}

/// The decimal numeral of an integer, with a minus sign where it is negative.
pub open spec fn decimal_int(i: int) -> Seq<char> {
    if i < 0 {
        seq!['-'] + decimal((-i) as nat)
    } else {
        decimal(i as nat)
    }
}

/// The character of a decimal digit.
pub fn digit(d: u128) -> (c: char)
    requires
        d < 10,
    ensures
        c == digit_spec(d as int),
{
    if d == 0 {
        '0'
    } else if d == 1 {
        '1'
    } else if d == 2 {
        '2'
    } else if d == 3 {
        '3'
    } else if d == 4 {
        '4'
    } else if d == 5 {
        '5'
    } else if d == 6 {
        '6'
    } else if d == 7 {
        '7'
    } else if d == 8 {
        '8'
    } else {
        '9'
    }
}

/// The numeral of `n` where `n` is positive, nothing where it is zero: the
/// digits that stand before the digits already taken off.
pub open spec fn leading(n: nat) -> Seq<char> {
    if n == 0 {
        Seq::empty()
    } else {
        decimal(n)
    }
}

/// The decimal numeral of a natural number.
pub fn decimal_text(n: u128) -> (s: String)
    ensures
        s@ == decimal(n as nat),
{
    // The digits, least significant first.
    let mut digits: Vec<char> = Vec::new();
    digits.push(digit(n % 10));
    let mut rest: u128 = n / 10;
    let ghost mut tail: Seq<char> = seq![digit_spec((n % 10) as int)];
    proof {
        assert(decimal(n as nat) =~= leading(rest as nat) + tail);
    }
    while rest > 0
        invariant
            decimal(n as nat) == leading(rest as nat) + tail,
            tail.len() == digits.len(),
            digits.len() >= 1,
            forall|j: int| 0 <= j < tail.len() ==> tail[j] == digits@[tail.len() - 1 - j],
        decreases rest,
    {
        let d = digit(rest % 10);
        digits.push(d);
        proof {
            let old_tail = tail;
            tail = seq![d] + old_tail;
            assert(leading(rest as nat) + old_tail =~= leading((rest / 10) as nat) + tail);
        }
        rest = rest / 10;
    }
    proof {
        assert(decimal(n as nat) =~= tail);
    }
    let mut s = String::new();
    let mut k: usize = digits.len();
    while k > 0
        invariant
            k <= digits.len(),
            tail.len() == digits.len(),
            forall|j: int| 0 <= j < tail.len() ==> tail[j] == digits@[tail.len() - 1 - j],
            s@ == tail.take(digits.len() - k),
        decreases k,
    {
        k -= 1;
        s.push(digits[k]);
        proof {
            assert(tail.take(digits.len() - k) =~= tail.take(digits.len() - k - 1).push(
                digits@[k as int],
            ));
        }
    }
    proof {
        assert(tail.take(digits.len() as int) =~= tail);
    }
    s
}

/// The decimal numeral of a 32-bit integer.
pub fn decimal_int_text(i: i32) -> (s: String)
    ensures
        s@ == decimal_int(i as int),
{
    let wide: i64 = i as i64;
    if wide < 0 {
        let mut s = String::new();
        s.push('-');
        let digits = decimal_text((-wide) as u128);
        s.append(digits.as_str());
        proof {
            assert(s@ =~= seq!['-'] + decimal((-i) as nat));
        }
        s
    } else {
        decimal_text(wide as u128)
    }
}

/// The decimal numeral of a count.
pub fn decimal_usize_text(n: usize) -> (s: String)
    ensures
        s@ == decimal(n as nat),
{
    decimal_text(n as u128)
}

} // verus!
