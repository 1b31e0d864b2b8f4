//! Text handling on the sequence of characters that a string holds.
use vstd::prelude::*;
use vstd::string::*;

verus! {

/// Position of the first `c` in `s`, or the length of `s` where there is none.
pub open spec fn first_index(s: Seq<char>, c: char) -> int
    decreases s.len(),
{
    if s.len() == 0 || s[0] == c {
        0
    } else {
        1 + first_index(s.skip(1), c)
    }
}

/// `first_index` is the one position before which no `c` stands and at which
/// `c` stands or the text ends.
pub proof fn lemma_first_index(s: Seq<char>, c: char)
    ensures
        0 <= first_index(s, c) <= s.len(),
        forall|j: int| 0 <= j < first_index(s, c) ==> s[j] != c,
        first_index(s, c) < s.len() ==> s[first_index(s, c)] == c,
        s.contains(c) <==> first_index(s, c) < s.len(),
    decreases s.len(),
{
    if s.len() > 0 && s[0] != c {
        let rest = s.skip(1);
        lemma_first_index(rest, c);
        assert forall|j: int| 0 <= j < first_index(s, c) implies s[j] != c by {
            if j > 0 {
                assert(s[j] == rest[j - 1]);
            }
        }
        if first_index(s, c) < s.len() {
            assert(s[first_index(s, c)] == rest[first_index(rest, c)]);
        }
    }
    if first_index(s, c) < s.len() {
        assert(s.contains(s[first_index(s, c)]));
    }
}

/// A position with the properties of `first_index` is `first_index`.
pub proof fn lemma_first_index_unique(s: Seq<char>, c: char, n: int)
    requires
        0 <= n <= s.len(),
        forall|j: int| 0 <= j < n ==> s[j] != c,
        n < s.len() ==> s[n] == c,
    ensures
        first_index(s, c) == n,
{
    lemma_first_index(s, c);
    let k = first_index(s, c);
    if k < n {
        assert(s[k] == c);
    }
    if n < k {
        assert(s[n] != c);
    }
}

/// The characters of `s`, one by one.
pub fn char_vec(s: &str) -> (chars: Vec<char>)
    ensures
        chars@ == s@,
{
    let mut chars: Vec<char> = Vec::new();
    for c in it: s.chars()
        invariant
            it.seq() == s@,
            chars@ == s@.take(it.index()),
    {
        chars.push(c);
        assert(s@.take(it.index() + 1) =~= s@.take(it.index()).push(c));
    }
    assert(s@.take(s@.len() as int) =~= s@);
    chars
}

/// Finds the first `c`.
pub fn find_char(s: &str, c: char) -> (n: usize)
    ensures
        n == first_index(s@, c),
{
    let chars = char_vec(s);
    let mut n: usize = 0;
    while n < chars.len() && chars[n] != c
        invariant
            chars@ == s@,
            n <= chars.len(),
            forall|j: int| 0 <= j < n ==> chars@[j] != c,
        decreases chars.len() - n,
    {
        n = n + 1;
    }
    proof {
        lemma_first_index_unique(s@, c, n as int);
    }
    n
}

/// Compares two texts.
pub fn same_text(a: &str, b: &str) -> (same: bool)
    ensures
        same == (a@ == b@),
{
    a.to_owned() == b.to_owned()
}

/// What the text of a truth value says: `true` and `false` are the only two.
pub open spec fn bool_value(s: Seq<char>) -> Option<bool> {
    if s == "true"@ {
        Some(true)
    } else if s == "false"@ {
        Some(false)
    } else {
        None
    }
}

/// Reads a truth value.
pub fn parse_bool(s: &str) -> (value: Option<bool>)
    ensures
        value == bool_value(s@),
{
    if same_text(s, "true") {
        Some(true)
    } else if same_text(s, "false") {
        Some(false)
    } else {
        None
    }
}

/// The text of a truth value.
pub open spec fn bool_text(b: bool) -> Seq<char> {
    if b {
        "true"@
    } else {
        "false"@
    }
}

/// Writes a truth value.
pub fn write_bool(b: bool) -> (s: &'static str)
    ensures
        s@ == bool_text(b),
{
    if b {
        "true"
    } else {
        "false"
    }
}

/// A written truth value reads back as itself.
pub proof fn law_bool_text_reads_back(b: bool)
    ensures
        bool_value(bool_text(b)) == Some(b),
{
    reveal_strlit("true");
    reveal_strlit("false");
    assert("true"@.len() == 4);
    assert("false"@.len() == 5);
}

/// Whether `c` is a decimal digit.
pub open spec fn is_digit(c: char) -> bool {
    '0' <= c <= '9'
}

/// The number that a run of decimal digits stands for.
pub open spec fn digits_value(s: Seq<char>) -> nat
    decreases s.len(),
{
    if s.len() == 0 {
        0
    } else {
        digits_value(s.drop_last()) * 10 + (s.last() as nat - '0' as nat) as nat
    }
}

/// The digits of an unsigned number: what stands behind an optional plus sign.
pub open spec fn unsigned_digits(s: Seq<char>) -> Seq<char> {
    if s.len() > 0 && s[0] == '+' {
        s.skip(1)
    } else {
        s
    }
}

/// The unsigned number that a text stands for: an optional plus sign and at
/// least one decimal digit, and nothing else.
pub open spec fn unsigned_value(s: Seq<char>) -> Option<nat> {
    let digits = unsigned_digits(s);
    if digits.len() > 0 && forall|j: int| 0 <= j < digits.len() ==> is_digit(#[trigger] digits[j]) {
        Some(digits_value(digits))
    } else {
        None
    }
}

/// The value of a run of digits grows with every digit.
pub proof fn lemma_digits_value_grows(s: Seq<char>, n: int)
    requires
        0 <= n <= s.len(),
        forall|j: int| 0 <= j < s.len() ==> is_digit(#[trigger] s[j]),
    ensures
        digits_value(s.take(n)) <= digits_value(s),
    decreases s.len() - n,
{
    if n < s.len() {
        lemma_digits_value_grows(s, n + 1);
        assert(s.take(n + 1).drop_last() =~= s.take(n));
        assert(s.take(n + 1).last() == s[n]);
        assert(is_digit(s[n]));
    } else {
        assert(s.take(n) =~= s);
    }
}

/// Reads an unsigned number of at most 64 bits.
pub fn parse_u64(s: &str) -> (value: Option<u64>)
    ensures
        value is Some <==> unsigned_value(s@) is Some && unsigned_value(s@)->0 <= u64::MAX,
        value is Some ==> value->0 == unsigned_value(s@)->0,
{
    let chars = char_vec(s);
    let start: usize = if chars.len() > 0 && chars[0] == '+' {
        1
    } else {
        0
    };
    let ghost digits = unsigned_digits(s@);
    assert(digits =~= chars@.skip(start as int));
    if start == chars.len() {
        return None;
    }
    let mut value: u64 = 0;
    let mut i: usize = start;
    while i < chars.len()
        invariant
            start <= i <= chars.len(),
            digits == chars@.skip(start as int),
            digits == unsigned_digits(s@),
            digits.len() > 0,
            forall|j: int| 0 <= j < i - start ==> is_digit(#[trigger] digits[j]),
            value == digits_value(digits.take(i - start)),
        decreases chars.len() - i,
    {
        let c = chars[i];
        let ghost n = i - start;
        assert(digits[n] == c);
        if c < '0' || c > '9' {
            assert(!is_digit(digits[n]));
            return None;
        }
        let digit: u64 = (c as u64) - ('0' as u64);
        assert(digits.take(n + 1).drop_last() =~= digits.take(n));
        assert(digits.take(n + 1).last() == c);
        assert(digits_value(digits.take(n + 1)) == digits_value(digits.take(n)) * 10 + digit);
        if value > (u64::MAX - digit) / 10 {
            proof {
                if unsigned_value(s@) is Some {
                    lemma_digits_value_grows(digits, n + 1);
                }
            }
            return None;
        }
        value = value * 10 + digit;
        i = i + 1;
    }
    assert(digits.take(i - start) =~= digits);
    Some(value)
}

/// Exactly one text stands for each truth value, and it is the one that is
/// written for it.
pub proof fn law_each_truth_value_has_one_text(s: Seq<char>)
    ensures
        bool_value(s) == Some(true) <==> s == seq!['t', 'r', 'u', 'e'],
        bool_value(s) == Some(false) <==> s == seq!['f', 'a', 'l', 's', 'e'],
        bool_text(true) == seq!['t', 'r', 'u', 'e'],
        bool_text(false) == seq!['f', 'a', 'l', 's', 'e'],
{
    reveal_strlit("true");
    reveal_strlit("false");
    assert("true"@ =~= seq!['t', 'r', 'u', 'e']);
    assert("false"@ =~= seq!['f', 'a', 'l', 's', 'e']);
    assert("true"@.len() != "false"@.len());
}

/// A number is read digit by digit: behind nothing or a plus sign a digit is the
/// number, behind a number it makes ten times that number and itself, and
/// anything else makes no number. Nothing is no number, and neither is a plus
/// sign.
pub proof fn law_numbers_are_read_by_digits(s: Seq<char>, c: char)
    ensures
        unsigned_value(Seq::empty()) is None,
        unsigned_value(s.push(c)) is Some <==> '0' <= c <= '9' && (s.len() == 0 || s == seq!['+']
            || unsigned_value(s) is Some),
        '0' <= c <= '9' && (s.len() == 0 || s == seq!['+']) ==> unsigned_value(s.push(c)) == Some(
            (c as nat - '0' as nat) as nat,
        ),
        '0' <= c <= '9' && unsigned_value(s) is Some ==> unsigned_value(s.push(c)) == Some(
            (10 * unsigned_value(s)->0 + (c as nat - '0' as nat)) as nat,
        ),
{
    let digits = unsigned_digits(s);
    let more = unsigned_digits(s.push(c));
    if s.len() == 0 {
        assert(s.push(c) =~= seq![c]);
        assert(c == '+' ==> more =~= Seq::<char>::empty());
        assert(c != '+' ==> more =~= Seq::<char>::empty().push(c));
        assert(digits.len() == 0);
    } else {
        assert(s.push(c)[0] == s[0]);
        assert(more =~= digits.push(c));
        if s == seq!['+'] {
            assert(digits =~= Seq::<char>::empty());
        }
        if digits.len() == 0 {
            assert(s =~= seq!['+']);
        }
    }
    if more.len() > 0 {
        assert(more.last() == c);
        assert(more[more.len() - 1] == c);
        assert(more.drop_last() =~= digits);
        assert forall|j: int| 0 <= j < digits.len() implies more[j] == digits[j] by {}
        assert(unsigned_value(s) is Some ==> forall|j: int|
            0 <= j < more.len() - 1 ==> is_digit(#[trigger] more[j]));
        if unsigned_value(s.push(c)) is Some {
            assert forall|j: int| 0 <= j < digits.len() implies is_digit(#[trigger] digits[j]) by {
                assert(is_digit(more[j]));
            }
        }
        reveal_with_fuel(digits_value, 2);
    }
}

} // verus!
