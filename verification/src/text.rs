//! Strings as sequences of characters: reading them, writing them, and the
//! decimal numbers in them.

use vstd::prelude::*;
use vstd::std_specs::iter::IteratorSpec;
use vstd::string::StringExecFns;

verus! {

broadcast use vstd::string::group_string_axioms;

/// `String::push`: appends one character.
pub assume_specification[ String::push ](s: &mut String, ch: char)
    ensures
        final(s)@ == old(s)@.push(ch),
;

/// The characters of `s`.
pub fn chars_of(s: &str) -> (chars: Vec<char>)
    ensures
        chars@ == s@,
{
    let mut chars: Vec<char> = Vec::new();
    let mut rest = s.chars();
    loop
        invariant
            rest.obeys_prophetic_iter_laws(),
            rest.decrease() is Some,
            chars@ + rest.remaining() == s@,
        decreases rest.decrease()->0,
    {
        let ghost before = rest.remaining();
        match rest.next() {
            Some(c) => {
                chars.push(c);
                assert(chars@ + rest.remaining() =~= s@) by {
                    assert(before =~= seq![c] + before.drop_first());
                }
            },
            None => {
                assert(chars@ =~= s@);
                return chars;
            },
        }
    }
}

/// Whether `c` is one of the ten digits `0` to `9`.
pub open spec fn is_digit(c: char) -> bool {
    48 <= c as u32 <= 57
}

/// The number that a digit stands for.
pub open spec fn digit_value(c: char) -> nat
    recommends
        is_digit(c),
{
    (c as u32 - 48) as nat
}

/// Whether `s` is made of digits alone.
pub open spec fn all_digits(s: Seq<char>) -> bool {
    forall|i: int| 0 <= i < s.len() ==> is_digit(#[trigger] s[i])
}

/// The number that a string of digits stands for, read as a decimal number.
pub open spec fn digits_value(s: Seq<char>) -> nat
    decreases s.len(),
{
    if s.len() == 0 {
        0
    } else {
        10 * digits_value(s.drop_last()) + digit_value(s.last())
    }
}

/// The number that `s` is the decimal notation of: a `+` may stand in front,
/// at least one digit follows, nothing but digits, and the number fits a
/// `usize`.
pub open spec fn parse_usize_spec(s: Seq<char>) -> Option<usize> {
    let digits = if s.len() > 0 && s[0] == '+' {
        s.skip(1)
    } else {
        s
    };
    if digits.len() > 0 && all_digits(digits) && digits_value(digits) <= usize::MAX {
        Some(digits_value(digits) as usize)
    } else {
        None
    }
}

/// A string of digits stands for no less than what any beginning of it
/// stands for.
pub proof fn lemma_digits_value_grows(s: Seq<char>, k: int)
    requires
        0 <= k <= s.len(),
    ensures
        digits_value(s.take(k)) <= digits_value(s),
    decreases s.len(),
{
    if k < s.len() {
        lemma_digits_value_grows(s.drop_last(), k);
        assert(s.drop_last().take(k) =~= s.take(k));
    } else {
        assert(s.take(k) =~= s);
    }
}

/// Reads `chars[..end]` as a decimal number.
pub fn parse_usize(chars: &Vec<char>, end: usize) -> (r: Option<usize>)
    requires
        end <= chars.len(),
    ensures
        r == parse_usize_spec(chars@.take(end as int)),
{
    let ghost text = chars@.take(end as int);
    let start: usize = if end > 0 && chars[0] == '+' {
        1
    } else {
        0
    };
    let ghost digits = text.skip(start as int);
    proof {
        assert(text.skip(0) =~= text);
        assert(digits.len() == end - start);
    }
    if start == end {
        return None;
    }
    let mut value: usize = 0;
    proof {
        assert(digits.take(0) =~= Seq::<char>::empty());
    }
    let mut i: usize = start;
    while i < end
        invariant
            start <= i <= end <= chars.len(),
            text == chars@.take(end as int),
            digits == text.skip(start as int),
            digits.len() == end - start,
            parse_usize_spec(text) == (if all_digits(digits) && digits_value(digits)
                <= usize::MAX {
                Some(digits_value(digits) as usize)
            } else {
                None
            }),
            all_digits(digits.take(i - start)),
            value == digits_value(digits.take(i - start)),
        decreases end - i,
    {
        let c = chars[i];
        let code: u32 = c as u32;
        let ghost read = digits.take(i - start);
        let ghost next = digits.take(i + 1 - start);
        proof {
            assert(next.drop_last() =~= read);
            assert(next.last() == c);
            assert(digits[i - start] == c);
        }
        if code < 48 || code > 57 {
            assert(!all_digits(digits));
            return None;
        }
        let d: usize = (code - 48) as usize;
        let grown = match value.checked_mul(10) {
            Some(tens) => tens.checked_add(d),
            None => None,
        };
        match grown {
            Some(v) => {
                value = v;
            },
            None => {
                proof {
                    assert(digits_value(next) > usize::MAX);
                    lemma_digits_value_grows(digits, i + 1 - start);
                }
                return None;
            },
        }
        i = i + 1;
        proof {
            assert forall|j: int| 0 <= j < next.len() implies is_digit(#[trigger] next[j]) by {
                if j < read.len() {
                    assert(read[j] == next[j]);
                }
            }
        }
    }
    proof {
        assert(digits.take(end - start) =~= digits);
    }
    Some(value)
}

/// Whether the first `c` of `s` stands at `at`.
pub open spec fn first_at(s: Seq<char>, c: char, at: int) -> bool {
    &&& 0 <= at < s.len()
    &&& s[at] == c
    &&& forall|j: int| 0 <= j < at ==> s[j] != c
}

/// Whether `c` occurs in `s`.
pub open spec fn occurs(s: Seq<char>, c: char) -> bool {
    exists|j: int| 0 <= j < s.len() && s[j] == c
}

/// There is one first occurrence at most.
pub proof fn lemma_first_at_is_unique(s: Seq<char>, c: char, a: int, b: int)
    requires
        first_at(s, c, a),
        first_at(s, c, b),
    ensures
        a == b,
{
    if a < b {
        assert(s[a] != c);
    }
    if b < a {
        assert(s[b] != c);
    }
}

/// Where the first `c` of `chars` stands, or the length of `chars` where
/// there is none.
pub fn find(chars: &Vec<char>, c: char) -> (at: usize)
    ensures
        at <= chars.len(),
        at < chars.len() ==> first_at(chars@, c, at as int),
        at == chars.len() ==> !occurs(chars@, c),
{
    let mut at: usize = 0;
    while at < chars.len() && chars[at] != c
        invariant
            at <= chars.len(),
            forall|j: int| 0 <= j < at ==> chars@[j] != c,
        decreases chars.len() - at,
    {
        at = at + 1;
    }
    at
}

/// Whether `s` ends in `suffix`.
pub open spec fn ends_with_spec(s: Seq<char>, suffix: Seq<char>) -> bool {
    s.len() >= suffix.len() && s.skip(s.len() - suffix.len()) == suffix
}

/// Whether `chars` ends in `suffix`.
pub fn ends_with(chars: &Vec<char>, suffix: &Vec<char>) -> (b: bool)
    ensures
        b == ends_with_spec(chars@, suffix@),
{
    if chars.len() < suffix.len() {
        return false;
    }
    let shift: usize = chars.len() - suffix.len();
    let ghost tail = chars@.skip(shift as int);
    let mut i: usize = 0;
    while i < suffix.len()
        invariant
            i <= suffix.len(),
            shift + suffix.len() == chars.len(),
            tail == chars@.skip(shift as int),
            forall|j: int| 0 <= j < i ==> tail[j] == suffix@[j],
        decreases suffix.len() - i,
    {
        if chars[shift + i] != suffix[i] {
            assert(tail[i as int] != suffix@[i as int]);
            return false;
        }
        i = i + 1;
    }
    assert(tail =~= suffix@);
    true
}

/// The character that stands for a digit's value.
pub open spec fn digit_char(d: nat) -> char
    recommends
        d < 10,
{
    ((48 + d) as u8) as char
}

/// The decimal notation of `n`: no sign, and no zero in front but for 0
/// itself.
pub open spec fn decimal_digits(n: nat) -> Seq<char>
    decreases n,
{
    if n < 10 {
        seq![digit_char(n)]
    } else {
        decimal_digits(n / 10).push(digit_char(n % 10))
    }
}

/// The string made of the characters of `chars`, last to first.
fn string_of_reversed(chars: &Vec<char>) -> (s: String)
    ensures
        s@ == chars@.reverse(),
{
    let mut s = String::new();
    let mut i: usize = chars.len();
    while i > 0
        invariant
            i <= chars.len(),
            s@ == chars@.reverse().take(chars.len() - i),
        decreases i,
    {
        i = i - 1;
        s.push(chars[i]);
        assert(s@ =~= chars@.reverse().take(chars.len() - i));
    }
    assert(chars@.reverse().take(chars.len() as int) =~= chars@.reverse());
    s
}

/// The decimal notation of `n`.
pub fn decimal(n: usize) -> (s: String)
    ensures
        s@ == decimal_digits(n as nat),
{
    let mut reversed: Vec<char> = Vec::new();
    let mut rest: usize = n;
    proof {
        assert(decimal_digits(rest as nat) + reversed@.reverse() =~= decimal_digits(n as nat));
    }
    loop
        invariant_except_break
            decimal_digits(n as nat) == decimal_digits(rest as nat) + reversed@.reverse(),
        ensures
            decimal_digits(n as nat) == reversed@.reverse(),
        decreases rest,
    {
        let ghost written = reversed@;
        let d: u8 = (rest % 10) as u8;
        let c: char = (48 + d) as char;
        reversed.push(c);
        proof {
            assert(c == digit_char((rest % 10) as nat));
            assert(reversed@.reverse() =~= seq![c] + written.reverse());
        }
        if rest < 10 {
            proof {
                assert(decimal_digits(rest as nat) + written.reverse() =~= reversed@.reverse());
            }
            break ;
        }
        proof {
            assert(decimal_digits(rest as nat) + written.reverse() =~= decimal_digits(
                (rest / 10) as nat,
            ) + reversed@.reverse());
        }
        rest = rest / 10;
    }
    string_of_reversed(&reversed)
}

/// `n` zeros.
pub open spec fn zeros(n: nat) -> Seq<char> {
    Seq::new(n, |i: int| '0')
}

/// The decimal notation of `n`, with zeros in front where it has fewer than
/// `width` digits.
pub open spec fn padded_decimal_digits(n: nat, width: nat) -> Seq<char> {
    let digits = decimal_digits(n);
    if digits.len() >= width {
        digits
    } else {
        zeros((width - digits.len()) as nat) + digits
    }
}

/// The decimal notation of `n`, with zeros in front where it has fewer than
/// `width` digits.
pub fn padded_decimal(n: usize, width: usize) -> (s: String)
    ensures
        s@ == padded_decimal_digits(n as nat, width as nat),
{
    let digits = decimal(n);
    let len = digits.as_str().unicode_len();
    let mut s = String::new();
    let mut i: usize = len;
    while i < width
        invariant
            len <= i,
            len >= width ==> i == len,
            len < width ==> i <= width,
            s@ == zeros((i - len) as nat),
        decreases width - i,
    {
        s.push('0');
        i = i + 1;
        assert(s@ =~= zeros((i - len) as nat));
    }
    s.append(digits.as_str());
    proof {
        if len >= width {
            assert(zeros(0) + digits@ =~= digits@);
        }
    }
    s
}

} // verus!
