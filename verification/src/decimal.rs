//! Decimal text for integers and integer lists.
//!
//! The containers of this crate render themselves as text and are rebuilt
//! from text.  Both directions are written here against one family of spec
//! functions: [`int_text`] says what the rendering of an integer is, and
//! [`i64_value`] / [`list_value`] say which integer a piece of text
//! denotes, if any.

use vstd::prelude::*;
use vstd::string::StrSliceExecFns;
use vstd::string::StringExecFns;

verus! {

/// The error reported when a piece of text denotes no integer list.
#[derive(Debug, Clone, Copy, PartialEq, Eq)]
pub struct ParseError;

/// The character for one decimal digit value.
pub open spec fn digit_char(d: int) -> char {
    if d == 0 {
        '0'
    } else if d == 1 {
        '1'
    } else if d == 2 {
        '2'
    } else if d == 3 {
        '3'
    } else if d == 4 {
        '4'
    } else if d == 5 {
        '5'
    } else if d == 6 {
        '6'
    } else if d == 7 {
        '7'
    } else if d == 8 {
        '8'
    } else {
        '9'
    }
}

/// The decimal rendering of a non-negative number, most significant digit
/// first and without leading zeros.
pub open spec fn dec_digits(n: nat) -> Seq<char>
    decreases n,
{
    if n < 10 {
        seq![digit_char(n as int)]
    } else {
        dec_digits((n / 10) as nat) + seq![digit_char((n % 10) as int)]
    }
}

/// The decimal rendering of an integer: a minus sign for negative values,
/// then the digits.
pub open spec fn int_text(x: int) -> Seq<char> {
    if x < 0 {
        seq!['-'] + dec_digits((-x) as nat)
    } else {
        dec_digits(x as nat)
    }
}

/// The rendering of an integer list: the values in order, separated by a
/// comma and a space, between square brackets.
pub open spec fn list_text(vals: Seq<i64>) -> Seq<char> {
    seq!['['] + joined_text(vals) + seq![']']
}

/// The bracket contents of [`list_text`]: empty for an empty list.
pub open spec fn joined_text(vals: Seq<i64>) -> Seq<char>
    decreases vals.len(),
{
    if vals.len() == 0 {
        Seq::empty()
    } else if vals.len() == 1 {
        int_text(vals[0] as int)
    } else {
        joined_text(vals.drop_last()) + seq![',', ' '] + int_text(vals.last() as int)
    }
}

/// The rendering of a key/value pair: `(key: value)`.
pub open spec fn pair_text(key: int, value: int) -> Seq<char> {
    seq!['('] + int_text(key) + seq![':', ' '] + int_text(value) + seq![')']
}

/// One digit value as a string slice.
fn digit_str(d: u64) -> (r: &'static str)
    requires
        d < 10,
    ensures
        r@ == seq![digit_char(d as int)],
{
    if d == 0 {
        proof {
            reveal_strlit("0");
            assert(("0")@ =~= seq!['0']);
        }
        "0"
    } else if d == 1 {
        proof {
            reveal_strlit("1");
            assert(("1")@ =~= seq!['1']);
        }
        "1"
    } else if d == 2 {
        proof {
            reveal_strlit("2");
            assert(("2")@ =~= seq!['2']);
        }
        "2"
    } else if d == 3 {
        proof {
            reveal_strlit("3");
            assert(("3")@ =~= seq!['3']);
        }
        "3"
    } else if d == 4 {
        proof {
            reveal_strlit("4");
            assert(("4")@ =~= seq!['4']);
        }
        "4"
    } else if d == 5 {
        proof {
            reveal_strlit("5");
            assert(("5")@ =~= seq!['5']);
        }
        "5"
    } else if d == 6 {
        proof {
            reveal_strlit("6");
            assert(("6")@ =~= seq!['6']);
        }
        "6"
    } else if d == 7 {
        proof {
            reveal_strlit("7");
            assert(("7")@ =~= seq!['7']);
        }
        "7"
    } else if d == 8 {
        proof {
            reveal_strlit("8");
            assert(("8")@ =~= seq!['8']);
        }
        "8"
    } else {
        proof {
            reveal_strlit("9");
            assert(("9")@ =~= seq!['9']);
        }
        "9"
    }
}

/// Renders a non-negative number in decimal.
pub fn u64_to_text(n: u64) -> (r: String)
    ensures
        r@ == dec_digits(n as nat),
    decreases n,
{
    if n < 10 {
        let mut s = String::new();
        s.append(digit_str(n));
        proof {
            assert(s@ =~= dec_digits(n as nat));
        }
        s
    } else {
        let mut s = u64_to_text(n / 10);
        s.append(digit_str(n % 10));
        s
    }
}

/// Renders an integer in decimal, with a minus sign for negative values.
pub fn i64_to_text(x: i64) -> (r: String)
    ensures
        r@ == int_text(x as int),
{
    if x < 0 {
        let magnitude: u64 = (-(x as i128)) as u64;
        let mut s = String::new();
        proof {
            reveal_strlit("-");
            assert(("-")@ =~= seq!['-']);
        }
        s.append("-");
        let digits = u64_to_text(magnitude);
        s.append(digits.as_str());
        s
    } else {
        u64_to_text(x as u64)
    }
}

/// Holds of the decimal digit characters.
pub open spec fn is_dec_digit(c: char) -> bool {
    48 <= c as u32 <= 57
}

/// The value of a digit character.
pub open spec fn digit_val(c: char) -> int {
    c as u32 - 48
}

/// The number denoted by a run of digit characters: absent when the run is
/// empty or holds anything but digits.  Leading zeros are accepted.
pub open spec fn digits_value(s: Seq<char>) -> Option<int>
    decreases s.len(),
{
    if s.len() == 0 {
        None
    } else if !is_dec_digit(s.last()) {
        None
    } else if s.len() == 1 {
        Some(digit_val(s.last()))
    } else {
        match digits_value(s.drop_last()) {
            Some(v) => Some(v * 10 + digit_val(s.last())),
            None => None,
        }
    }
}

/// The integer denoted by a piece of text: an optional `+` or `-` sign,
/// then at least one digit.
pub open spec fn int_value(s: Seq<char>) -> Option<int> {
    if s.len() > 0 && s[0] == '-' {
        match digits_value(s.skip(1)) {
            Some(v) => Some(-v),
            None => None,
        }
    } else if s.len() > 0 && s[0] == '+' {
        digits_value(s.skip(1))
    } else {
        digits_value(s)
    }
}

/// Like [`int_value`], restricted to the values an `i64` can hold: text
/// denoting anything outside that range denotes no `i64`.
pub open spec fn i64_value(s: Seq<char>) -> Option<i64> {
    match int_value(s) {
        Some(v) => if i64::MIN <= v <= i64::MAX {
            Some(v as i64)
        } else {
            None
        },
        None => None,
    }
}

/// A run that denotes a number holds digits only, and the number is not
/// negative.
proof fn lemma_digits_value_digits(s: Seq<char>)
    requires
        digits_value(s) is Some,
    ensures
        forall|i: int| 0 <= i < s.len() ==> is_dec_digit(#[trigger] s[i]),
        digits_value(s).unwrap() >= 0,
    decreases s.len(),
{
    if s.len() > 1 {
        lemma_digits_value_digits(s.drop_last());
        assert forall|i: int| 0 <= i < s.len() implies is_dec_digit(#[trigger] s[i]) by {
            if i < s.len() - 1 {
                assert(is_dec_digit(s.drop_last()[i]));
            }
        }
    }
}

/// Extending a digit run to the right can only grow the number it denotes.
proof fn lemma_digits_value_prefix(s: Seq<char>, k: int)
    requires
        digits_value(s) is Some,
        1 <= k <= s.len(),
    ensures
        digits_value(s.take(k)) is Some,
        digits_value(s).unwrap() >= digits_value(s.take(k)).unwrap(),
    decreases s.len(),
{
    lemma_digits_value_digits(s);
    if k == s.len() {
        assert(s.take(k) =~= s);
    } else {
        assert(s.take(s.len() - 1) =~= s.drop_last());
        lemma_digits_value_digits(s.drop_last());
        lemma_digits_value_prefix(s.drop_last(), k);
        assert(s.drop_last().take(k) =~= s.take(k));
    }
}

/// A run with a non-digit in it denotes no number.
proof fn lemma_digits_value_non_digit(s: Seq<char>, i: int)
    requires
        0 <= i < s.len(),
        !is_dec_digit(s[i]),
    ensures
        digits_value(s) is None,
{
    if digits_value(s) is Some {
        lemma_digits_value_digits(s);
    }
}

/// Parses an integer from text, accepting exactly what [`i64_value`]
/// accepts: an optional sign, then at least one digit, denoting a value in
/// the `i64` range.
pub fn parse_i64(s: &str) -> (r: Result<i64, ParseError>)
    ensures
        r matches Ok(v) ==> i64_value(s@) == Some(v),
        r is Err ==> i64_value(s@) is None,
{
    let len = s.unicode_len();
    if len == 0 {
        return Err(ParseError);
    }
    let first = s.get_char(0);
    let negative: bool = first == '-';
    let signed: bool = first == '-' || first == '+';
    let start: usize = if signed {
        1
    } else {
        0
    };
    let ghost digits = s@.skip(start as int);
    proof {
        assert(s@.skip(0) =~= s@);
    }
    if len == start {
        // a bare sign: no digits follow
        return Err(ParseError);
    }
    let limit: u64 = if negative {
        9223372036854775808
    } else {
        9223372036854775807
    };
    let mut acc: u64 = 0;
    for j in start..len
        invariant
            start <= j <= len,
            0 < len == s@.len(),
            start == if signed {
                1int
            } else {
                0int
            },
            s@[0] == first,
            negative <==> first == '-',
            signed <==> (first == '-' || first == '+'),
            digits == s@.skip(start as int),
            digits == if signed {
                s@.skip(1)
            } else {
                s@
            },
            limit == if negative {
                9223372036854775808u64
            } else {
                9223372036854775807u64
            },
            acc <= limit,
            j > start ==> digits_value(digits.take(j - start)) == Some(acc as int),
            j == start ==> acc == 0,
    {
        let c = s.get_char(j);
        let u: u32 = c as u32;
        if u < 48 || u > 57 {
            proof {
                assert(digits[j - start] == s@[j as int]);
                lemma_digits_value_non_digit(digits, j - start);
            }
            return Err(ParseError);
        }
        let d: u64 = (u - 48) as u64;
        proof {
            assert(digits.take(j + 1 - start).drop_last() =~= digits.take(j - start));
            assert(digits.take(j + 1 - start).last() == s@[j as int]);
        }
        if acc > (limit - d) / 10 {
            // the number read so far already exceeds the i64 range; any
            // digits that follow can only grow it
            proof {
                let prefix = digits.take(j + 1 - start);
                assert(digits_value(prefix) == Some(acc as int * 10 + d));
                assert(acc as int * 10 + d > limit);
                if digits_value(digits) is Some {
                    lemma_digits_value_prefix(digits, j + 1 - start);
                    assert(digits_value(digits).unwrap() > limit as int);
                }
            }
            return Err(ParseError);
        }
        acc = acc * 10 + d;
    }
    proof {
        assert(digits.take(len - start) =~= digits);
        assert(digits_value(digits) == Some(acc as int));
    }
    if negative {
        if acc == 9223372036854775808 {
            Ok(i64::MIN)
        } else {
            Ok(-(acc as i64))
        }
    } else {
        Ok(acc as i64)
    }
}

/// The position of the first space in a piece of text, or its length when
/// no space occurs.
pub open spec fn first_space(s: Seq<char>) -> int
    decreases s.len(),
{
    if s.len() == 0 {
        0
    } else if s[0] == ' ' {
        0
    } else {
        1 + first_space(s.skip(1))
    }
}

/// What [`first_space`] returns: the bound, that everything before it is
/// no space, and that it lands on a space when it is not the length.
pub proof fn lemma_first_space_bounds(s: Seq<char>)
    ensures
        0 <= first_space(s) <= s.len(),
        forall|j: int| 0 <= j < first_space(s) ==> s[j] != ' ',
        first_space(s) < s.len() ==> s[first_space(s)] == ' ',
    decreases s.len(),
{
    if s.len() > 0 && s[0] != ' ' {
        lemma_first_space_bounds(s.skip(1));
        assert forall|j: int| 0 <= j < first_space(s) implies s[j] != ' ' by {
            if j > 0 {
                assert(s.skip(1)[j - 1] == s[j]);
            }
        }
        if first_space(s) < s.len() {
            assert(s.skip(1)[first_space(s) - 1] == s[first_space(s)]);
        }
    }
}

/// A scan that stops at the first space computes [`first_space`].
pub proof fn lemma_first_space_is(s: Seq<char>, k: int)
    requires
        0 <= k <= s.len(),
        forall|j: int| 0 <= j < k ==> s[j] != ' ',
        k < s.len() ==> s[k] == ' ',
    ensures
        first_space(s) == k,
    decreases s.len(),
{
    if s.len() > 0 && s[0] != ' ' {
        assert forall|j: int| 0 <= j < k - 1 implies s.skip(1)[j] != ' ' by {
            assert(s.skip(1)[j] == s[j + 1]);
        }
        if k - 1 < s.skip(1).len() {
            assert(s.skip(1)[k - 1] == s[k]);
        }
        lemma_first_space_is(s.skip(1), k - 1);
    }
}

/// The integer list denoted by a piece of text: integers separated by
/// single spaces.  Any token that denotes no `i64` spoils the whole list;
/// the empty text holds one empty token and so denotes nothing.
pub open spec fn list_value(s: Seq<char>) -> Option<Seq<i64>>
    decreases s.len(),
{
    let k = first_space(s);
    if 0 <= k < s.len() {
        match i64_value(s.take(k)) {
            Some(v) => match list_value(s.skip(k + 1)) {
                Some(rest) => Some(seq![v] + rest),
                None => None,
            },
            None => None,
        }
    } else {
        match i64_value(s) {
            Some(v) => Some(seq![v]),
            None => None,
        }
    }
}

/// Parses a space-separated integer list, accepting exactly what
/// [`list_value`] accepts.
pub fn parse_i64_list(s: &str) -> (r: Result<Vec<i64>, ParseError>)
    ensures
        r matches Ok(vals) ==> list_value(s@) == Some(vals@),
        r is Err ==> list_value(s@) is None,
{
    let len = s.unicode_len();
    let mut vals: Vec<i64> = Vec::new();
    let mut start: usize = 0;
    proof {
        assert(s@.skip(0) =~= s@);
        if list_value(s@) is Some {
            let whole = list_value(s@).unwrap();
            assert(Seq::<i64>::empty() + whole =~= whole);
        }
    }
    loop
        invariant
            start <= len,
            len == s@.len(),
            (match list_value(s@.skip(start as int)) {
                Some(rest) => list_value(s@) == Some(vals@ + rest),
                None => list_value(s@) is None,
            }),
        decreases len - start,
    {
        let mut end: usize = start;
        while end < len && s.get_char(end) != ' '
            invariant
                start <= end <= len,
                len == s@.len(),
                forall|j: int| start <= j < end ==> s@[j] != ' ',
            decreases len - end,
        {
            end += 1;
        }
        let ghost tail = s@.skip(start as int);
        proof {
            assert(forall|j: int| 0 <= j < tail.len() ==> #[trigger] tail[j] == s@[j + start]);
            lemma_first_space_is(tail, end - start);
            assert(tail.take(end - start) =~= s@.subrange(start as int, end as int));
            if end == len {
                assert(tail.take(end - start) =~= tail);
            }
        }
        let token = s.substring_char(start, end);
        let parsed = parse_i64(token);
        match parsed {
            Err(e) => {
                return Err(e);
            },
            Ok(v) => {
                let ghost prev = vals@;
                vals.push(v);
                if end == len {
                    proof {
                        assert(list_value(tail) == Some(seq![v]));
                        assert(prev + seq![v] =~= vals@);
                    }
                    return Ok(vals);
                }
                proof {
                    assert(tail.skip(end - start + 1) =~= s@.skip(end as int + 1));
                    if list_value(s@.skip(end as int + 1)) is Some {
                        let rest = list_value(s@.skip(end as int + 1)).unwrap();
                        assert(list_value(tail) == Some(seq![v] + rest));
                        assert(prev + (seq![v] + rest) =~= vals@ + rest);
                    }
                }
                start = end + 1;
            },
        }
    }
}

/// Renders an integer list as [`list_text`] says: values in order,
/// separated by a comma and a space, between square brackets.
pub fn i64_list_to_text(vals: &Vec<i64>) -> (r: String)
    ensures
        r@ == list_text(vals@),
{
    let mut s = String::new();
    proof {
        reveal_strlit("[");
        reveal_strlit("]");
        reveal_strlit(", ");
        assert(("[")@ =~= seq!['[']);
        assert(("]")@ =~= seq![']']);
        assert((", ")@ =~= seq![',', ' ']);
    }
    s.append("[");
    let n = vals.len();
    for i in 0..n
        invariant
            n == vals@.len(),
            s@ == seq!['['] + joined_text(vals@.take(i as int)),
            ("[")@ == seq!['['],
            ("]")@ == seq![']'],
            (", ")@ == seq![',', ' '],
    {
        if i > 0 {
            s.append(", ");
        }
        let piece = i64_to_text(vals[i]);
        s.append(piece.as_str());
        proof {
            assert(vals@.take(i + 1 as int).drop_last() =~= vals@.take(i as int));
            assert(vals@.take(i + 1 as int).last() == vals@[i as int]);
            assert(s@ =~= seq!['['] + joined_text(vals@.take(i + 1 as int)));
        }
    }
    s.append("]");
    proof {
        assert(vals@.take(n as int) =~= vals@);
        assert(s@ =~= list_text(vals@));
    }
    s
}

/// Renders a key/value pair as [`pair_text`] says.
pub fn i64_pair_to_text(key: i64, value: i64) -> (r: String)
    ensures
        r@ == pair_text(key as int, value as int),
{
    let mut s = String::new();
    proof {
        reveal_strlit("(");
        reveal_strlit(")");
        reveal_strlit(": ");
        assert(("(")@ =~= seq!['(']);
        assert((")")@ =~= seq![')']);
        assert((": ")@ =~= seq![':', ' ']);
    }
    s.append("(");
    let key_text = i64_to_text(key);
    s.append(key_text.as_str());
    s.append(": ");
    let value_text = i64_to_text(value);
    s.append(value_text.as_str());
    s.append(")");
    proof {
        assert(s@ =~= pair_text(key as int, value as int));
    }
    s
}

} // verus!
