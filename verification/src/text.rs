//! Text: decimal numbers, lists of them, and the search for a part of a text.
use vstd::prelude::*;
use vstd::string::{StrSliceExecFns, StringExecFns};

verus! {

/// The character of a decimal digit.
pub open spec fn digit_char(d: int) -> char {
    ('0' as int + d) as char
}

/// `n` in decimal digits, without leading zeros.
pub open spec fn decimal(n: nat) -> Seq<char>
    decreases n,
{
    if n < 10 {
        seq![digit_char(n as int)]
    } else {
        decimal(n / 10).push(digit_char((n % 10) as int))
    }
}

/// Appends `n` in decimal digits to `out`.
pub fn push_decimal(out: &mut String, n: u64)
    ensures
        final(out)@ == old(out)@ + decimal(n as nat),
    decreases n,
{
    if n >= 10 {
        push_decimal(out, n / 10);
    }
    let digit: &str = digit_text(n % 10);
    out.append(digit);
    assert(out@ =~= old(out)@ + decimal(n as nat));
}

/// The text of a decimal digit.
fn digit_text(d: u64) -> (digit: &'static str)
    requires
        d < 10,
    ensures
        digit@ == seq![digit_char(d as int)],
{
    proof {
        reveal_strlit("0");
        reveal_strlit("1");
        reveal_strlit("2");
        reveal_strlit("3");
        reveal_strlit("4");
        reveal_strlit("5");
        reveal_strlit("6");
        reveal_strlit("7");
        reveal_strlit("8");
        reveal_strlit("9");
    }
    match d {
        0 => "0",
        1 => "1",
        2 => "2",
        3 => "3",
        4 => "4",
        5 => "5",
        6 => "6",
        7 => "7",
        8 => "8",
        _ => "9",
    }
}

/// `c` is a decimal digit.
pub open spec fn is_digit(c: char) -> bool {
    '0' <= c <= '9'
}

/// The number that decimal digits stand for.
pub open spec fn digits_value(s: Seq<char>) -> nat
    decreases s.len(),
{
    if s.len() == 0 {
        0
    } else {
        digits_value(s.drop_last()) * 10 + (s.last() as nat - '0' as nat) as nat
    }
}

/// A text without the plus sign in front of it.
pub open spec fn after_plus(s: Seq<char>) -> Seq<char> {
    if s.len() > 0 && s[0] == '+' {
        s.drop_first()
    } else {
        s
    }
}

/// A text of decimal digits, at least one.
pub open spec fn all_digits(s: Seq<char>) -> bool {
    s.len() > 0 && forall|i: int| 0 <= i < s.len() ==> is_digit(#[trigger] s[i])
}

/// The number that a text stands for: decimal digits, with a plus sign in front or
/// not, and no more than `max`.
pub open spec fn number(s: Seq<char>, max: nat) -> Option<nat> {
    let digits = after_plus(s);
    if all_digits(digits) && digits_value(digits) <= max {
        Some(digits_value(digits))
    } else {
        None
    }
}

/// The characters of a text.
pub fn chars_of(s: &str) -> (chars: Vec<char>)
    ensures
        chars@ == s@,
{
    let n: usize = s.unicode_len();
    let mut chars: Vec<char> = Vec::with_capacity(n);
    let mut i: usize = 0;
    while i < n
        invariant
            i <= n,
            n == s@.len(),
            chars@ == s@.take(i as int),
        decreases n - i,
    {
        chars.push(s.get_char(i));
        i = i + 1;
        assert(chars@ =~= s@.take(i as int));
    }
    assert(s@.take(n as int) =~= s@);
    chars
}

/// More digits stand for no smaller number.
proof fn lemma_value_grows(s: Seq<char>, n: int)
    requires
        0 <= n <= s.len(),
        forall|i: int| 0 <= i < s.len() ==> is_digit(#[trigger] s[i]),
    ensures
        digits_value(s.take(n)) <= digits_value(s),
    decreases s.len(),
{
    if n == s.len() {
        assert(s.take(n) =~= s);
    } else {
        lemma_value_grows(s.drop_last(), n);
        assert(s.drop_last().take(n) =~= s.take(n));
    }
}

/// The number that the characters from `from` up to `to` stand for.
pub fn parse_number(chars: &Vec<char>, from: usize, to: usize, max: u64) -> (r: Option<u64>)
    requires
        from <= to <= chars@.len(),
    ensures
        match r {
            Some(v) => number(chars@.subrange(from as int, to as int), max as nat) == Some(v as nat),
            None => number(chars@.subrange(from as int, to as int), max as nat) is None,
        },
{
    let ghost whole = chars@.subrange(from as int, to as int);
    let start: usize = if from < to && chars[from] == '+' {
        from + 1
    } else {
        from
    };
    let ghost digits = chars@.subrange(start as int, to as int);
    proof {
        if start > from {
            assert(whole.drop_first() =~= digits);
        }
    }
    if start == to {
        return None;
    }
    let mut v: u64 = 0;
    let mut i: usize = start;
    assert(digits.take(0).len() == 0);
    while i < to
        invariant
            from <= start <= i <= to <= chars@.len(),
            start < to,
            digits == chars@.subrange(start as int, to as int),
            digits == after_plus(whole),
            whole == chars@.subrange(from as int, to as int),
            forall|k: int| 0 <= k < i - start ==> is_digit(#[trigger] digits[k]),
            v == digits_value(digits.take(i - start)),
            v <= max,
        decreases to - i,
    {
        let c: char = chars[i];
        let ghost n = i - start;
        assert(digits[n] == c);
        assert(digits.take(n + 1).drop_last() =~= digits.take(n));
        if !('0' <= c && c <= '9') {
            assert(!all_digits(digits));
            return None;
        }
        let d: u64 = (c as u32 - '0' as u32) as u64;
        proof {
            if all_digits(digits) {
                lemma_value_grows(digits, n + 1);
            }
        }
        if v > max / 10 || d > max - v * 10 {
            return None;
        }
        v = v * 10 + d;
        i = i + 1;
    }
    assert(digits.take(to - start) =~= digits);
    Some(v)
}

/// The decimal digits of `n` stand for `n`.
proof fn lemma_decimal_value(n: nat)
    ensures
        all_digits(decimal(n)),
        digits_value(decimal(n)) == n,
    decreases n,
{
    if n < 10 {
        let s = decimal(n);
        assert(s.drop_last() =~= Seq::empty());
        assert(digits_value(s.drop_last()) == 0);
    } else {
        lemma_decimal_value(n / 10);
        let s = decimal(n);
        assert(s.drop_last() =~= decimal(n / 10));
        assert forall|i: int| 0 <= i < s.len() implies is_digit(#[trigger] s[i]) by {
            if i < s.len() - 1 {
                assert(s[i] == decimal(n / 10)[i]);
            }
        }
    }
}

/// A number that was printed is read back.
pub proof fn law_printed_numbers_are_read_back(n: nat, max: nat)
    requires
        n <= max,
    ensures
        number(decimal(n), max) == Some(n),
{
    lemma_decimal_value(n);
    assert(is_digit(decimal(n)[0]));
}

/// Where the next comma from `from` on is, or the end.
pub open spec fn piece_end(s: Seq<char>, from: int) -> int
    decreases s.len() - from,
{
    if from >= s.len() || s[from] == ',' {
        from
    } else {
        piece_end(s, from + 1)
    }
}

/// The numbers that the pieces between commas stand for, from `from` on; nothing
/// where one of them stands for none.
pub open spec fn numbers_from(s: Seq<char>, from: int, max: nat) -> Option<Seq<nat>>
    decreases s.len() - from,
    when 0 <= from <= s.len()
    via numbers_from_ends
{
    let end = piece_end(s, from);
    match number(s.subrange(from, end), max) {
        Some(n) => if end >= s.len() {
            Some(seq![n])
        } else {
            match numbers_from(s, end + 1, max) {
                Some(rest) => Some(seq![n] + rest),
                None => None,
            }
        },
        None => None,
    }
}

#[via_fn]
proof fn numbers_from_ends(s: Seq<char>, from: int, max: nat) {
    lemma_piece_end(s, from);
}

proof fn lemma_piece_end(s: Seq<char>, from: int)
    requires
        0 <= from <= s.len(),
    ensures
        from <= piece_end(s, from) <= s.len(),
    decreases s.len() - from,
{
    if from < s.len() && s[from] != ',' {
        lemma_piece_end(s, from + 1);
    }
}

/// The numbers of a list with commas between them.
pub open spec fn numbers(s: Seq<char>, max: nat) -> Option<Seq<nat>> {
    numbers_from(s, 0, max)
}

/// Reads a list of numbers with commas between them.
pub fn parse_numbers(s: &str) -> (r: Option<Vec<usize>>)
    ensures
        match r {
            Some(v) => numbers(s@, usize::MAX as nat) == Some(v@.map_values(|n: usize| n as nat)),
            None => numbers(s@, usize::MAX as nat) is None,
        },
{
    let chars: Vec<char> = chars_of(s);
    let mut list: Vec<usize> = Vec::new();
    let mut from: usize = 0;
    loop
        invariant
            chars@ == s@,
            from <= chars@.len(),
            numbers(s@, usize::MAX as nat) == (match numbers_from(s@, from as int, usize::MAX as nat) {
                Some(rest) => Some(list@.map_values(|n: usize| n as nat) + rest),
                None => None,
            }),
        decreases chars@.len() - from,
    {
        let mut end: usize = from;
        while end < chars.len() && chars[end] != ','
            invariant
                chars@ == s@,
                from <= end <= chars@.len(),
                piece_end(s@, end as int) == piece_end(s@, from as int),
            decreases chars@.len() - end,
        {
            end = end + 1;
        }
        let ghost before = list@.map_values(|n: usize| n as nat);
        match parse_number(&chars, from, end, usize::MAX as u64) {
            Some(n) => {
                list.push(n as usize);
                assert(list@.map_values(|n: usize| n as nat) =~= before + seq![n as nat]);
            },
            None => {
                return None;
            },
        }
        if end >= chars.len() {
            return Some(list);
        }
        from = end + 1;
    }
}

/// `part` stands in `s` from `at` on.
pub open spec fn stands_at(s: Seq<char>, part: Seq<char>, at: int) -> bool {
    0 <= at <= s.len() - part.len() && s.subrange(at, at + part.len()) == part
}

/// Whether `part` stands somewhere in `s`.
pub fn contains(s: &str, part: &str) -> (found: bool)
    ensures
        found == exists|at: int| stands_at(s@, part@, at),
{
    let text: Vec<char> = chars_of(s);
    let sought: Vec<char> = chars_of(part);
    if sought.len() > text.len() {
        return false;
    }
    let last: usize = text.len() - sought.len();
    let mut at: usize = 0;
    loop
        invariant
            text@ == s@,
            sought@ == part@,
            last == text@.len() - sought@.len(),
            text@.len() <= usize::MAX,
            at <= last,
            forall|k: int| 0 <= k < at ==> !#[trigger] stands_at(s@, part@, k),
        decreases last - at,
    {
        let mut k: usize = 0;
        while k < sought.len() && text[at + k] == sought[k]
            invariant
                k <= sought@.len(),
                at + sought@.len() <= text@.len() <= usize::MAX,
                forall|j: int| 0 <= j < k ==> text@[at + j] == #[trigger] sought@[j],
            decreases sought@.len() - k,
        {
            k = k + 1;
        }
        if k == sought.len() {
            assert(s@.subrange(at as int, at + part@.len()) =~= part@);
            assert(stands_at(s@, part@, at as int));
            return true;
        }
        proof {
            if stands_at(s@, part@, at as int) {
                assert(s@.subrange(at as int, at + part@.len())[k as int] == part@[k as int]);
            }
        }
        if at == last {
            return false;
        }
        at = at + 1;
    }
}

/// How numbers are printed: one digit by its own character, and more digits one behind
/// the other, without a leading zero.
pub proof fn law_printed_digits(n: nat, d: nat)
    requires
        d < 10,
    ensures
        decimal(d) == seq![(48 + d) as char],
        n > 0 ==> decimal(10 * n + d) == decimal(n).push((48 + d) as char),
        n > 0 ==> decimal(n)[0] != '0',
        decimal(n).len() > 0,
    decreases n,
{
    if n > 0 {
        assert((10 * n + d) / 10 == n && (10 * n + d) % 10 == d);
        if n >= 10 {
            law_printed_digits(n / 10, n % 10);
            assert(decimal(n)[0] == decimal(n / 10)[0]);
        }
    }
}

/// How numbers are read: a digit stands for itself, a digit behind a number for ten times
/// the number and itself, a plus sign in front changes nothing, and what is too large
/// stands for no number.
pub proof fn law_reading_digits(s: Seq<char>, v: nat, d: nat, max: nat, large: nat)
    requires
        d < 10,
        s.len() > 0,
        s[0] != '+',
        number(s, large) == Some(v),
    ensures
        number(seq![(48 + d) as char], max) == (if d <= max {
            Some(d)
        } else {
            None
        }),
        number(s.push((48 + d) as char), max) == (if 10 * v + d <= max {
            Some((10 * v + d) as nat)
        } else {
            None
        }),
        number(s, max) == (if v <= max {
            Some(v)
        } else {
            None
        }),
        number(seq!['+'] + s, max) == number(s, max),
{
    let c = (48 + d) as char;
    assert(is_digit(c));
    let one = seq![c];
    assert(one.drop_last() =~= Seq::empty());
    assert(digits_value(one.drop_last()) == 0);
    assert(all_digits(one));
    let more = s.push(c);
    assert(more.drop_last() =~= s);
    assert(all_digits(more)) by {
        assert forall|i: int| 0 <= i < more.len() implies is_digit(#[trigger] more[i]) by {
            if i < s.len() {
                assert(more[i] == s[i]);
            }
        }
    }
    assert((seq!['+'] + s).drop_first() =~= s);
}

/// What stands for no number: nothing at all, a sign alone, and a text with a character
/// that is no digit, but for one plus sign in front.
pub proof fn law_what_is_no_number(s: Seq<char>, i: int, max: nat)
    ensures
        number(Seq::empty(), max) is None,
        number(seq!['+'], max) is None,
        0 < i < s.len() && !('0' <= s[i] <= '9') ==> number(s, max) is None,
        s.len() > 0 && s[0] != '+' && !('0' <= s[0] <= '9') ==> number(s, max) is None,
        number(s, max) matches Some(n) ==> n <= max,
{
    assert(seq!['+'].drop_first().len() == 0);
    let digits = after_plus(s);
    if 0 < i < s.len() && !('0' <= s[i] <= '9') {
        if s[0] == '+' {
            assert(digits[i - 1] == s[i]);
        } else {
            assert(digits[i] == s[i]);
        }
    }
    if s.len() > 0 && s[0] != '+' && !('0' <= s[0] <= '9') {
        assert(!is_digit(digits[0]));
    }
}

/// A piece ends where the first comma is, or the text.
proof fn lemma_piece_end_at(s: Seq<char>, from: int, end: int)
    requires
        0 <= from <= end <= s.len(),
        forall|k: int| from <= k < end ==> #[trigger] s[k] != ',',
        end == s.len() || s[end] == ',',
    ensures
        piece_end(s, from) == end,
    decreases end - from,
{
    if from < end {
        lemma_piece_end_at(s, from + 1, end);
    }
}

/// Before its end a piece has no comma, and at its end there is one, or the text ends.
proof fn lemma_piece(s: Seq<char>, from: int)
    requires
        0 <= from <= s.len(),
    ensures
        from <= piece_end(s, from) <= s.len(),
        forall|k: int| from <= k < piece_end(s, from) ==> #[trigger] s[k] != ',',
        piece_end(s, from) < s.len() ==> s[piece_end(s, from)] == ',',
    decreases s.len() - from,
{
    if from < s.len() && s[from] != ',' {
        lemma_piece(s, from + 1);
    }
}

/// What is in front of a list does not matter to what is read behind it.
proof fn lemma_numbers_shift(pre: Seq<char>, t: Seq<char>, k: int, max: nat)
    requires
        0 <= k <= t.len(),
    ensures
        numbers_from(pre + t, pre.len() + k, max) == numbers_from(t, k, max),
    decreases t.len() - k,
{
    let u = pre + t;
    let end = piece_end(t, k);
    lemma_piece(t, k);
    assert forall|j: int| pre.len() + k <= j < pre.len() + end implies #[trigger] u[j] != ',' by {
        assert(u[j] == t[j - pre.len()]);
    }
    lemma_piece_end_at(u, pre.len() + k, pre.len() + end);
    assert(u.subrange(pre.len() + k, pre.len() + end) =~= t.subrange(k, end));
    if end < t.len() {
        lemma_numbers_shift(pre, t, end + 1, max);
    }
}

/// What two lists with a comma between them stand for, from `from` on.
proof fn lemma_numbers_concatenate(s: Seq<char>, t: Seq<char>, from: int, max: nat)
    requires
        0 <= from <= s.len(),
    ensures
        numbers_from(s + seq![','] + t, from, max) == (match (
            numbers_from(s, from, max),
            numbers(t, max),
        ) {
            (Some(a), Some(b)) => Some(a + b),
            _ => None,
        }),
    decreases s.len() - from,
{
    let u = s + seq![','] + t;
    let end = piece_end(s, from);
    lemma_piece(s, from);
    assert forall|j: int| from <= j < end implies #[trigger] u[j] != ',' by {
        assert(u[j] == s[j]);
    }
    lemma_piece_end_at(u, from, end);
    assert(u.subrange(from, end) =~= s.subrange(from, end));
    if end < s.len() {
        lemma_numbers_concatenate(s, t, end + 1, max);
        if let (Some(n), Some(a), Some(b)) = (
            number(s.subrange(from, end), max),
            numbers_from(s, end + 1, max),
            numbers(t, max),
        ) {
            assert(seq![n] + (a + b) =~= (seq![n] + a) + b);
        }
    } else {
        lemma_numbers_shift(s + seq![','], t, 0, max);
        assert(numbers_from(u, (s.len() + 1) as int, max) == numbers(t, max));
    }
}

/// A text without a comma is read as the one number that it stands for, and a comma
/// separates two lists: what is read is what is read in front of it, followed by what is
/// read behind it, and nothing where either cannot be read.
pub proof fn law_lists_are_read_piece_by_piece(s: Seq<char>, t: Seq<char>, max: nat)
    ensures
        numbers(s + seq![','] + t, max) == (match (numbers(s, max), numbers(t, max)) {
            (Some(a), Some(b)) => Some(a + b),
            _ => None,
        }),
        !s.contains(',') ==> numbers(s, max) == (match number(s, max) {
            Some(n) => Some(seq![n]),
            None => None,
        }),
{
    lemma_numbers_concatenate(s, t, 0, max);
    if !s.contains(',') {
        assert forall|k: int| 0 <= k < s.len() implies #[trigger] s[k] != ',' by {
            assert(s.contains(s[k]));
        }
        lemma_piece_end_at(s, 0, s.len() as int);
        assert(s.subrange(0, s.len() as int) =~= s);
    }
}

/// The decimal texts of numbers with commas between them.
pub open spec fn joined(list: Seq<nat>) -> Seq<char>
    decreases list.len(),
{
    if list.len() == 0 {
        Seq::empty()
    } else if list.len() == 1 {
        decimal(list[0])
    } else {
        decimal(list[0]) + seq![','] + joined(list.drop_first())
    }
}

/// A list that was printed is read back, every number of it and in order.
pub proof fn law_printed_lists_are_read_back(list: Seq<nat>, max: nat)
    requires
        list.len() > 0,
        forall|i: int| 0 <= i < list.len() ==> #[trigger] list[i] <= max,
    ensures
        numbers(joined(list), max) == Some(list),
    decreases list.len(),
{
    let first = decimal(list[0]);
    assert(list[0] <= max);
    law_printed_numbers_are_read_back(list[0], max);
    lemma_decimal_value(list[0]);
    assert(!first.contains(',')) by {
        if first.contains(',') {
            let k = choose|k: int| 0 <= k < first.len() && first[k] == ',';
            assert(is_digit(first[k]));
        }
    }
    let rest = list.drop_first();
    law_lists_are_read_piece_by_piece(first, joined(rest), max);
    if list.len() == 1 {
        assert(seq![list[0]] =~= list);
    } else {
        assert forall|i: int| 0 <= i < rest.len() implies #[trigger] rest[i] <= max by {
            assert(rest[i] == list[i + 1]);
        }
        law_printed_lists_are_read_back(rest, max);
        assert(seq![list[0]] + rest =~= list);
    }
}

/// A part stands in a text exactly when the text is something in front, the part, and
/// something behind.
pub proof fn law_parts_stand_in_their_texts(s: Seq<char>, part: Seq<char>)
    ensures
        (exists|at: int| stands_at(s, part, at)) <==> exists|a: Seq<char>, b: Seq<char>|
            s == #[trigger] (a + part + b),
{
    if exists|at: int| stands_at(s, part, at) {
        let at = choose|at: int| stands_at(s, part, at);
        let a = s.take(at);
        let b = s.skip(at + part.len());
        assert(s =~= a + part + b) by {
            assert forall|i: int| 0 <= i < s.len() implies #[trigger] s[i] == (a + part + b)[i] by {
                if at <= i < at + part.len() {
                    assert(s.subrange(at, at + part.len())[i - at] == part[i - at]);
                }
            }
        }
    }
    if exists|a: Seq<char>, b: Seq<char>| s == #[trigger] (a + part + b) {
        let (a, b) = choose|a: Seq<char>, b: Seq<char>| s == #[trigger] (a + part + b);
        assert(s.subrange(a.len() as int, (a.len() + part.len()) as int) =~= part);
        assert(stands_at(s, part, a.len() as int));
    }
}

} // verus!
