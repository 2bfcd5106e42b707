//! Text helpers: decimal rendering, character classes and prefix tests on strings.

use vstd::prelude::*;
use vstd::string::*;

verus! {

/// `String::push`: the character becomes the last one of the string.
pub assume_specification[ String::push ](s: &mut String, c: char)
    ensures
        final(s)@ == old(s)@.push(c),
;

/// The character of one decimal digit.
pub open spec fn digit_char(d: nat) -> char
    recommends
        d < 10,
{
    ((48 + d) as u8) as char
}

/// The decimal numeral of `n`, without leading zeros.
pub open spec fn decimal(n: nat) -> Seq<char>
    decreases n,
{
    if n < 10 {
        seq![digit_char(n)]
    } else {
        decimal(n / 10).push(digit_char(n % 10))
    }
}

/// Appends the decimal numeral of `n`.
pub fn push_decimal(out: &mut String, n: u64)
    ensures
        final(out)@ == old(out)@ + decimal(n as nat),
    decreases n,
{
    if n >= 10 {
        push_decimal(out, n / 10);
    }
    let digit: u8 = (n % 10) as u8;
    out.push((48u8 + digit) as char);
}

/// Whether two strings hold the same characters.
pub fn same_text(left: &str, right: &str) -> (r: bool)
    ensures
        r == (left@ == right@),
{
    left.to_owned() == right.to_owned()
}

/// `before`, then the numeral of `n`.
pub fn with_number(before: &str, n: u64) -> (r: String)
    ensures
        r@ == before@ + decimal(n as nat),
{
    let mut out = before.to_owned();
    push_decimal(&mut out, n);
    out
}

/// `before`, the numeral of `n`, `between`, the numeral of `m`.
pub fn with_two_numbers(before: &str, n: u64, between: &str, m: u64) -> (r: String)
    ensures
        r@ == before@ + decimal(n as nat) + between@ + decimal(m as nat),
{
    let mut out = with_number(before, n);
    out.append(between);
    push_decimal(&mut out, m);
    out
}

/// The characters of a string.
pub fn chars_of(value: &str) -> (r: Vec<char>)
    ensures
        r@ == value@,
{
    let mut out: Vec<char> = Vec::new();
    for c in it: value.chars()
        invariant
            it.seq() == value@,
            out@ == value@.take(it.index() as int),
    {
        out.push(c);
    }
    out
}

/// Whether a character is an ASCII letter or digit.
pub open spec fn is_ascii_alphanumeric(c: char) -> bool {
    'a' <= c <= 'z' || 'A' <= c <= 'Z' || '0' <= c <= '9'
}

pub fn ascii_alphanumeric(c: char) -> (r: bool)
    ensures
        r == is_ascii_alphanumeric(c),
{
    ('a' <= c && c <= 'z') || ('A' <= c && c <= 'Z') || ('0' <= c && c <= '9')
}

/// Whether a character has the Unicode property White_Space.
pub open spec fn is_white_space(c: char) -> bool {
    let u = c as u32;
    ||| 0x9 <= u <= 0xd
    ||| u == 0x20
    ||| u == 0x85
    ||| u == 0xa0
    ||| u == 0x1680
    ||| 0x2000 <= u <= 0x200a
    ||| u == 0x2028
    ||| u == 0x2029
    ||| u == 0x202f
    ||| u == 0x205f
    ||| u == 0x3000
}

pub fn white_space(c: char) -> (r: bool)
    ensures
        r == is_white_space(c),
{
    let u: u32 = c as u32;
    (0x9 <= u && u <= 0xd) || u == 0x20 || u == 0x85 || u == 0xa0 || u == 0x1680 || (0x2000 <= u
        && u <= 0x200a) || u == 0x2028 || u == 0x2029 || u == 0x202f || u == 0x205f || u == 0x3000
}

/// Whether a text holds nothing but white space.
pub open spec fn is_blank_text(value: Seq<char>) -> bool {
    forall|i: int| 0 <= i < value.len() ==> is_white_space(#[trigger] value[i])
}

/// Whether nothing is left of a string once white space is trimmed off.
pub fn is_blank(value: &str) -> (r: bool)
    ensures
        r == is_blank_text(value@),
{
    let chars = chars_of(value);
    for i in 0..chars.len()
        invariant
            chars@ == value@,
            forall|j: int| 0 <= j < i ==> is_white_space(#[trigger] value@[j]),
    {
        if !white_space(chars[i]) {
            assert(!is_white_space(value@[i as int]));
            return false;
        }
    }
    true
}

/// Whether `value` opens with `prefix`.
pub fn starts_with(value: &str, prefix: &str) -> (r: bool)
    ensures
        r == prefix@.is_prefix_of(value@),
{
    let chars = chars_of(value);
    let wanted = chars_of(prefix);
    if wanted.len() > chars.len() {
        return false;
    }
    for i in 0..wanted.len()
        invariant
            chars@ == value@,
            wanted@ == prefix@,
            wanted.len() <= chars.len(),
            forall|j: int| 0 <= j < i ==> value@[j] == prefix@[j],
    {
        if chars[i] != wanted[i] {
            assert(value@.take(prefix@.len() as int)[i as int] != prefix@[i as int]);
            return false;
        }
    }
    assert(prefix@ =~= value@.take(prefix@.len() as int));
    true
}

/// A text without the slashes that end it.
pub open spec fn without_end_slashes(value: Seq<char>) -> Seq<char>
    decreases value.len(),
{
    if value.len() > 0 && value.last() == '/' {
        without_end_slashes(value.drop_last())
    } else {
        value
    }
}

pub fn trim_end_slashes(value: &str) -> (r: String)
    ensures
        r@ == without_end_slashes(value@),
{
    let chars = chars_of(value);
    let mut end: usize = chars.len();
    proof {
        assert(value@.take(end as int) =~= value@);
    }
    while end > 0 && chars[end - 1] == '/'
        invariant
            chars@ == value@,
            end <= chars@.len(),
            without_end_slashes(value@.take(end as int)) == without_end_slashes(value@),
        decreases end,
    {
        proof {
            assert(value@.take(end as int).drop_last() =~= value@.take(end - 1));
        }
        end = end - 1;
    }
    let mut out = "".to_owned();
    proof {
        reveal_strlit("");
        assert(value@.take(0) =~= ""@);
    }
    for i in 0..end
        invariant
            chars@ == value@,
            end <= chars@.len(),
            out@ == value@.take(i as int),
    {
        out.push(chars[i]);
        assert(out@ =~= value@.take(i + 1));
    }
    out
}

/// The word for a truth value.
pub open spec fn bool_word(value: bool) -> Seq<char> {
    if value {
        "true"@
    } else {
        "false"@
    }
}

/// Appends the word for a truth value.
pub fn push_bool(out: &mut String, value: bool)
    ensures
        final(out)@ == old(out)@ + bool_word(value),
{
    if value {
        out.append("true");
    } else {
        out.append("false");
    }
}

/// `left` and `right`, one behind the other.
pub fn joined(left: &str, right: &str) -> (r: String)
    ensures
        r@ == left@ + right@,
{
    let mut out = left.to_owned();
    out.append(right);
    out
}

/// The number that decimal digits stand for, the most significant first.
pub open spec fn numeral_value(digits: Seq<char>) -> int
    decreases digits.len(),
{
    if digits.len() == 0 {
        0
    } else {
        10 * numeral_value(digits.drop_last()) + (digits.last() as int - '0' as int)
    }
}

/// A numeral reads back as its number. It is made of digits, and begins with a zero only where it is
/// zero. So two numbers have two numerals.
pub proof fn numerals_read_back(n: nat)
    ensures
        decimal(n).len() > 0,
        numeral_value(decimal(n)) == n,
        forall|i: int| 0 <= i < decimal(n).len() ==> '0' <= #[trigger] decimal(n)[i] <= '9',
        decimal(n)[0] == '0' ==> n == 0 && decimal(n).len() == 1,
    decreases n,
{
    reveal_with_fuel(numeral_value, 2);
    if n < 10 {
        assert(decimal(n).drop_last() =~= Seq::empty());
    } else {
        numerals_read_back(n / 10);
        let shorter = decimal(n / 10);
        assert(decimal(n).drop_last() =~= shorter);
        assert forall|i: int| 0 <= i < decimal(n).len() implies '0' <= #[trigger] decimal(n)[i]
            <= '9' by {
            if i < shorter.len() {
                assert(decimal(n)[i] == shorter[i]);
            }
        }
        assert(decimal(n)[0] == shorter[0]);
    }
}

/// Trimming the end of a text takes off slashes, all that end it, and nothing else.
pub proof fn only_end_slashes_are_trimmed(value: Seq<char>)
    ensures
        ({
            let trimmed = without_end_slashes(value);
            &&& trimmed.len() <= value.len()
            &&& trimmed == value.take(trimmed.len() as int)
            &&& trimmed.len() > 0 ==> trimmed.last() != '/'
            &&& forall|i: int| trimmed.len() <= i < value.len() ==> #[trigger] value[i] == '/'
        }),
    decreases value.len(),
{
    if value.len() > 0 && value.last() == '/' {
        let rest = value.drop_last();
        only_end_slashes_are_trimmed(rest);
        let trimmed = without_end_slashes(value);
        assert(rest.take(trimmed.len() as int) =~= value.take(trimmed.len() as int));
        assert forall|i: int| trimmed.len() <= i < value.len() implies #[trigger] value[i] == '/' by {
            if i < rest.len() {
                assert(rest[i] == value[i]);
            }
        }
    } else {
        assert(value.take(value.len() as int) =~= value);
    }
}

/// A text is blank exactly where each of its parts is. Letters, digits and punctuation of ASCII are
/// never blank; its spaces, tabs and line ends are.
pub proof fn blank_texts_are_blank_throughout(left: Seq<char>, right: Seq<char>, c: char)
    ensures
        is_blank_text(Seq::empty()),
        is_blank_text(left + right) <==> is_blank_text(left) && is_blank_text(right),
        '!' <= c <= '~' ==> !is_blank_text(left.push(c)),
        c == ' ' || c == '\t' || c == '\n' || c == '\r' ==> is_blank_text(left.push(c))
            == is_blank_text(left),
{
    let both = left + right;
    if is_blank_text(both) {
        assert forall|i: int| 0 <= i < left.len() implies is_white_space(#[trigger] left[i]) by {
            assert(both[i] == left[i]);
        }
        assert forall|i: int| 0 <= i < right.len() implies is_white_space(#[trigger] right[i]) by {
            assert(both[left.len() + i] == right[i]);
        }
    }
    let longer = left.push(c);
    assert(longer[left.len() as int] == c);
    if is_blank_text(longer) {
        assert forall|i: int| 0 <= i < left.len() implies is_white_space(#[trigger] left[i]) by {
            assert(longer[i] == left[i]);
        }
    }
}

/// A numeral ends where the digits end: two texts that open with numerals and go on with something
/// else than a digit are the same only where the numbers are and what follows them is.
pub proof fn numerals_end_with_their_digits(n: nat, m: nat, after: Seq<char>, behind: Seq<char>)
    requires
        after.len() > 0 && !('0' <= after[0] <= '9'),
        behind.len() > 0 && !('0' <= behind[0] <= '9'),
        decimal(n) + after == decimal(m) + behind,
    ensures
        n == m,
        after == behind,
{
    numerals_read_back(n);
    numerals_read_back(m);
    let left = decimal(n) + after;
    let right = decimal(m) + behind;
    let x = decimal(n).len() as int;
    let y = decimal(m).len() as int;
    assert(left[x] == after[0]);
    assert(right[y] == behind[0]);
    if x < y {
        assert(right[x] == decimal(m)[x]);
    }
    if y < x {
        assert(left[y] == decimal(n)[y]);
    }
    assert(left.take(x) =~= decimal(n));
    assert(right.take(y) =~= decimal(m));
    assert(left.skip(x) =~= after);
    assert(right.skip(y) =~= behind);
}

/// Texts that are joined one behind the other make the same text, whichever are joined first.
pub proof fn joining_is_associative(left: Seq<char>, middle: Seq<char>, right: Seq<char>)
    ensures
        left + middle + right == left + (middle + right),
{
    assert(left + middle + right =~= left + (middle + right));
}

} // verus!
