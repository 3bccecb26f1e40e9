//! Rendering of report lines and failure details.
//!
//! Every text the harness produces is put together from fixed wording and from
//! numbers in decimal or hexadecimal. The spec functions here say exactly which
//! characters come out.
use vstd::prelude::*;

verus! {

/// The character of the digit `d`, for bases up to sixteen.
pub open spec fn digit_char(d: int) -> char {
    if d < 10 {
        (48 + d) as char
    } else {
        (87 + d) as char
    }
}

/// The decimal numeral of `n`, without leading zeros.
pub open spec fn decimal(n: nat) -> Seq<char>
    decreases n,
{
    if n < 10 {
        seq![digit_char(n as int)]
    } else {
        decimal(n / 10).push(digit_char((n % 10) as int))
    }
}

/// The lower-case hexadecimal numeral of `n`, without prefix or leading zeros.
pub open spec fn hexadecimal(n: nat) -> Seq<char>
    decreases n,
{
    if n < 16 {
        seq![digit_char(n as int)]
    } else {
        hexadecimal(n / 16).push(digit_char((n % 16) as int))
    }
}

/// The decimal numeral of `n`, padded with a zero to at least two digits.
pub open spec fn two_digits(n: nat) -> Seq<char> {
    if n < 10 {
        "0"@ + decimal(n)
    } else {
        decimal(n)
    }
}

/// The hexadecimal numeral of `n` behind the prefix `0x`.
pub open spec fn prefixed_hex(n: nat) -> Seq<char> {
    "0x"@ + hexadecimal(n)
}

/// A truth value as text.
pub open spec fn truth(b: bool) -> Seq<char> {
    if b {
        "true"@
    } else {
        "false"@
    }
}

/// The characters of each string of a list.
pub open spec fn texts(strings: Seq<String>) -> Seq<Seq<char>> {
    strings.map_values(|s: String| s@)
}

/// The parts, with `separator` between each two neighbours.
pub open spec fn joined(parts: Seq<Seq<char>>, separator: Seq<char>) -> Seq<char>
    decreases parts.len(),
{
    if parts.len() == 0 {
        Seq::empty()
    } else if parts.len() == 1 {
        parts[0]
    } else {
        joined(parts.drop_last(), separator) + separator + parts.last()
    }
}

/// The numbers in decimal, one text each.
pub open spec fn decimals(numbers: Seq<u64>) -> Seq<Seq<char>> {
    numbers.map_values(|n: u64| decimal(n as nat))
}

/// A list of numbers in square brackets, separated by a comma and a blank.
pub open spec fn bracketed(numbers: Seq<u64>) -> Seq<char> {
    "["@ + joined(decimals(numbers), ", "@) + "]"@
}

fn digit_text(d: u64) -> (text: &'static str)
    requires
        d < 16,
    ensures
        text@ == seq![digit_char(d as int)],
{
    proof {
        reveal_strlit("0");
        reveal_strlit("1");
        reveal_strlit("2");
        reveal_strlit("3");
        reveal_strlit("4");
        reveal_strlit("5");
        reveal_strlit("6");
        reveal_strlit("7");
        reveal_strlit("8");
        reveal_strlit("9");
        reveal_strlit("a");
        reveal_strlit("b");
        reveal_strlit("c");
        reveal_strlit("d");
        reveal_strlit("e");
        reveal_strlit("f");
    }
    let text: &'static str = match d {
        0 => "0",
        1 => "1",
        2 => "2",
        3 => "3",
        4 => "4",
        5 => "5",
        6 => "6",
        7 => "7",
        8 => "8",
        9 => "9",
        10 => "a",
        11 => "b",
        12 => "c",
        13 => "d",
        14 => "e",
        _ => "f",
    };
    assert(text@.len() == 1);
    assert(text@[0] == digit_char(d as int));
    text
}

/// Appends the decimal numeral of `n`.
pub fn append_decimal(out: &mut String, n: u64)
    ensures
        final(out)@ == old(out)@ + decimal(n as nat),
    decreases n,
{
    if n >= 10 {
        append_decimal(out, n / 10);
    }
    out.append(digit_text(n % 10));
}

/// Appends the hexadecimal numeral of `n`.
pub fn append_hexadecimal(out: &mut String, n: u64)
    ensures
        final(out)@ == old(out)@ + hexadecimal(n as nat),
    decreases n,
{
    if n >= 16 {
        append_hexadecimal(out, n / 16);
    }
    out.append(digit_text(n % 16));
}

/// A line under construction. Its view is the text so far.
pub struct Line {
    text: String,
}

impl View for Line {
    type V = Seq<char>;

    closed spec fn view(&self) -> Seq<char> {
        self.text@
    }
}

/// Starts a line with the given wording.
pub fn say(start: &str) -> (line: Line)
    ensures
        line@ == start@,
{
    Line { text: String::from_str(start) }
}

impl Line {
    /// Adds fixed wording.
    pub fn text(self, more: &str) -> (line: Line)
        ensures
            line@ == self@ + more@,
    {
        let mut text: String = self.text;
        text.append(more);
        Line { text }
    }

    /// Adds a number in decimal.
    pub fn dec(self, n: u64) -> (line: Line)
        ensures
            line@ == self@ + decimal(n as nat),
    {
        let mut text: String = self.text;
        append_decimal(&mut text, n);
        Line { text }
    }

    /// Adds a number in hexadecimal, with the prefix `0x`.
    pub fn hex(self, n: u64) -> (line: Line)
        ensures
            line@ == self@ + prefixed_hex(n as nat),
    {
        let mut text: String = self.text;
        text.append("0x");
        append_hexadecimal(&mut text, n);
        Line { text }
    }

    /// Adds a number in decimal with at least two digits.
    pub fn pair(self, n: u64) -> (line: Line)
        ensures
            line@ == self@ + two_digits(n as nat),
    {
        let mut text: String = self.text;
        if n < 10 {
            text.append("0");
        }
        append_decimal(&mut text, n);
        Line { text }
    }

    /// Adds a truth value.
    pub fn flag(self, b: bool) -> (line: Line)
        ensures
            line@ == self@ + truth(b),
    {
        let mut text: String = self.text;
        if b {
            text.append("true");
        } else {
            text.append("false");
        }
        Line { text }
    }

    /// Adds a list of numbers in square brackets.
    pub fn list(self, numbers: &Vec<u64>) -> (line: Line)
        ensures
            line@ == self@ + bracketed(numbers@),
    {
        let mut text: String = self.text;
        let tail: String = bracket(numbers);
        text.append(tail.as_str());
        Line { text }
    }

    /// The finished line.
    pub fn done(self) -> (text: String)
        ensures
            text@ == self@,
    {
        self.text
    }
}

/// Joins the parts with `separator` between each two neighbours.
pub fn join(parts: &Vec<String>, separator: &str) -> (line: String)
    ensures
        line@ == joined(texts(parts@), separator@),
{
    let mut line: String = String::new();
    let mut i: usize = 0;
    while i < parts.len()
        invariant
            i <= parts.len(),
            line@ == joined(texts(parts@).take(i as int), separator@),
        decreases parts.len() - i,
    {
        if i > 0 {
            line.append(separator);
        }
        line.append(parts[i].as_str());
        i += 1;
        assert(texts(parts@).take(i as int).drop_last() =~= texts(parts@).take(i - 1));
        assert(texts(parts@).take(i as int).last() == parts@[i - 1]@);
    }
    assert(texts(parts@).take(i as int) =~= texts(parts@));
    line
}

/// The numbers in square brackets, separated by a comma and a blank.
pub fn bracket(numbers: &Vec<u64>) -> (line: String)
    ensures
        line@ == bracketed(numbers@),
{
    let mut line: String = String::new();
    line.append("[");
    let mut i: usize = 0;
    while i < numbers.len()
        invariant
            i <= numbers.len(),
            line@ == "["@ + joined(decimals(numbers@).take(i as int), ", "@),
        decreases numbers.len() - i,
    {
        if i > 0 {
            line.append(", ");
        }
        append_decimal(&mut line, numbers[i]);
        i += 1;
        assert(decimals(numbers@).take(i as int).drop_last() =~= decimals(numbers@).take(i - 1));
        assert(decimals(numbers@).take(i as int).last() == decimal(numbers@[i - 1] as nat));
    }
    assert(decimals(numbers@).take(i as int) =~= decimals(numbers@));
    line.append("]");
    line
}

/// The value of a digit in bases up to sixteen.
pub open spec fn digit_number(c: char) -> int {
    if '0' <= c <= '9' {
        c as int - '0' as int
    } else if 'a' <= c <= 'f' {
        10 + (c as int - 'a' as int)
    } else {
        -1
    }
}

/// What a numeral stands for, read from the left.
pub open spec fn numeral_value(digits: Seq<char>, base: int) -> int
    decreases digits.len(),
{
    if digits.len() == 0 {
        0
    } else {
        base * numeral_value(digits.drop_last(), base) + digit_number(digits.last())
    }
}

/// Whether a text is a numeral of the base: digits, and no zero before them.
pub open spec fn is_numeral(digits: Seq<char>, base: int) -> bool {
    &&& digits.len() > 0
    &&& forall|i: int| 0 <= i < digits.len() ==> 0 <= digit_number(#[trigger] digits[i]) < base
    &&& digits.len() > 1 ==> digits[0] != '0'
}

/// The decimal text of a number is the numeral that stands for it.
pub proof fn decimal_stands_for_the_number(n: nat)
    ensures
        is_numeral(decimal(n), 10),
        numeral_value(decimal(n), 10) == n,
        n > 0 ==> decimal(n)[0] != '0',
    decreases n,
{
    reveal_with_fuel(numeral_value, 2);
    let d = decimal(n);
    if n >= 10 {
        decimal_stands_for_the_number(n / 10);
        let (rest, last) = (decimal(n / 10), digit_char((n % 10) as int));
        assert(d.drop_last() =~= rest);
        assert(d.last() == last);
        assert forall|i: int| 0 <= i < d.len() implies 0 <= digit_number(#[trigger] d[i]) < 10 by {
            if i < rest.len() {
                assert(d[i] == rest[i]);
            }
        }
    }
}

/// The hexadecimal text of a number is the numeral that stands for it, in lower case.
pub proof fn hexadecimal_stands_for_the_number(n: nat)
    ensures
        is_numeral(hexadecimal(n), 16),
        numeral_value(hexadecimal(n), 16) == n,
        n > 0 ==> hexadecimal(n)[0] != '0',
    decreases n,
{
    reveal_with_fuel(numeral_value, 2);
    let d = hexadecimal(n);
    if n >= 16 {
        hexadecimal_stands_for_the_number(n / 16);
        let (rest, last) = (hexadecimal(n / 16), digit_char((n % 16) as int));
        assert(d.drop_last() =~= rest);
        assert(d.last() == last);
        assert forall|i: int| 0 <= i < d.len() implies 0 <= digit_number(#[trigger] d[i]) < 16 by {
            if i < rest.len() {
                assert(d[i] == rest[i]);
            }
        }
    }
}

/// With at least two digits, a number still stands for itself.
pub proof fn two_digits_stand_for_the_number(n: nat)
    ensures
        two_digits(n).len() >= 2,
        two_digits(n).len() == 2 || n >= 100,
        numeral_value(two_digits(n), 10) == n,
        n >= 10 ==> two_digits(n) == decimal(n),
{
    decimal_stands_for_the_number(n);
    reveal_strlit("0");
    reveal_with_fuel(numeral_value, 3);
    reveal_with_fuel(decimal, 3);
    if n < 10 {
        let d = two_digits(n);
        assert(d.len() == 2);
        assert(d.drop_last() =~= "0"@);
        assert(d.last() == digit_char(n as int));
        assert("0"@.drop_last() =~= Seq::empty());
        assert("0"@.last() == '0');
    }
}

/// Joining two lists puts the separator between them, and nothing else.
pub proof fn joining_goes_list_by_list(
    first: Seq<Seq<char>>,
    second: Seq<Seq<char>>,
    separator: Seq<char>,
)
    ensures
        first.len() > 0 && second.len() > 0 ==> joined(first + second, separator) == joined(
            first,
            separator,
        ) + separator + joined(second, separator),
        first.len() == 1 ==> joined(first, separator) == first[0],
        first.len() == 0 ==> joined(first, separator) == Seq::<char>::empty(),
    decreases second.len(),
{
    if first.len() > 0 && second.len() > 0 {
        let both = first + second;
        assert(both.last() == second.last());
        assert(both.drop_last() =~= first + second.drop_last());
        if second.len() == 1 {
            assert(first + second.drop_last() =~= first);
        } else {
            joining_goes_list_by_list(first, second.drop_last(), separator);
        }
        assert(joined(both, separator) =~= joined(first, separator) + separator + joined(
            second,
            separator,
        ));
    }
}

/// Truth values are written out.
pub proof fn truth_is_written_out(b: bool)
    ensures
        truth(b) == "true"@ <==> b,
        truth(b) == "false"@ <==> !b,
{
    reveal_strlit("true");
    reveal_strlit("false");
    assert("true"@.len() != "false"@.len());
}

/// A hexadecimal number is marked as one.
pub proof fn hexadecimal_numbers_are_marked(n: nat)
    ensures
        prefixed_hex(n).len() > 2,
        prefixed_hex(n)[0] == '0' && prefixed_hex(n)[1] == 'x',
        numeral_value(prefixed_hex(n).skip(2), 16) == n,
{
    reveal_strlit("0x");
    hexadecimal_stands_for_the_number(n);
    assert(prefixed_hex(n).skip(2) =~= hexadecimal(n));
}

/// A list of numbers stands in brackets, in order and with commas between them.
pub proof fn lists_stand_in_brackets(numbers: Seq<u64>, more: Seq<u64>)
    requires
        numbers.len() > 0,
        more.len() > 0,
    ensures
        ({
            let (left, right) = (bracketed(numbers), bracketed(more));
            &&& left[0] == '[' && left.last() == ']'
            &&& bracketed(numbers + more) == left.drop_last() + ", "@ + right.skip(1)
        }),
        numbers.len() == 1 ==> bracketed(numbers) == "["@ + decimal(numbers[0] as nat) + "]"@,
{
    reveal_strlit("[");
    reveal_strlit("]");
    let (left, right) = (bracketed(numbers), bracketed(more));
    let (first, second) = (decimals(numbers), decimals(more));
    assert(decimals(numbers + more) =~= first + second);
    joining_goes_list_by_list(first, second, ", "@);
    assert(left =~= "["@ + joined(first, ", "@) + "]"@);
    assert(left.drop_last() =~= "["@ + joined(first, ", "@));
    assert(right.skip(1) =~= joined(second, ", "@) + "]"@);
    assert(bracketed(numbers + more) =~= left.drop_last() + ", "@ + right.skip(1));
}

} // verus!
