//! Text primitives.
use vstd::prelude::*;

verus! {

/// The decimal digit `d`, for `d < 10`.
pub open spec fn digit_char(d: nat) -> char {
    ('0' as u32 + d) as char
}

/// The decimal notation of `n`, without leading zeros.
pub open spec fn decimal(n: nat) -> Seq<char>
    decreases n,
{
    if n < 10 {
        seq![digit_char(n)]
    } else {
        decimal(n / 10).push(digit_char(n % 10))
    }
}

fn digit_text(d: u64) -> (r: &'static str)
    requires
        d < 10,
    ensures
        r@ == seq![digit_char(d as nat)],
{
    proof {
        reveal_strlit("0");
        reveal_strlit("1");
        reveal_strlit("2");
        reveal_strlit("3");
        reveal_strlit("4");
        reveal_strlit("5");
        reveal_strlit("6");
        reveal_strlit("7");
        reveal_strlit("8");
        reveal_strlit("9");
    }
    match d {
        0 => "0",
        1 => "1",
        2 => "2",
        3 => "3",
        4 => "4",
        5 => "5",
        6 => "6",
        7 => "7",
        8 => "8",
        _ => "9",
    }
}

/// Writes `n` in decimal.
pub fn decimal_text(n: u64) -> (r: String)
    ensures
        r@ == decimal(n as nat),
    decreases n,
{
    if n < 10 {
        digit_text(n).to_string()
    } else {
        let mut out = decimal_text(n / 10);
        out.append(digit_text(n % 10));
        out
    }
}

/// The characters of `s`, in order.
pub fn chars_of(s: &str) -> (r: Vec<char>)
    ensures
        r@ == s@,
{
    let mut out: Vec<char> = Vec::new();
    for c in iter: s.chars()
        invariant
            out@ == s@.take(iter.index() as int),
            iter.seq() == s@,
    {
        out.push(c);
    }
    out
}

/// The views of a list of strings.
pub open spec fn texts(list: Seq<String>) -> Seq<Seq<char>> {
    Seq::new(list.len(), |i: int| list[i]@)
}

/// The view of an optional string.
pub open spec fn opt_text(o: Option<String>) -> Option<Seq<char>> {
    match o {
        Some(s) => Some(s@),
        None => None,
    }
}

/// A copy of a list of strings.
pub fn copy_texts(list: &Vec<String>) -> (r: Vec<String>)
    ensures
        texts(r@) == texts(list@),
{
    let mut out: Vec<String> = Vec::new();
    let mut i: usize = 0;
    while i < list.len()
        invariant
            i <= list.len(),
            texts(out@) == texts(list@).take(i as int),
        decreases list.len() - i,
    {
        let ghost had = out@;
        out.push(list[i].clone());
        i = i + 1;
        assert(texts(out@) == texts(had).push(list@[i - 1]@));
        assert(texts(out@) == texts(list@).take(i as int));
    }
    assert(texts(list@).take(i as int) == texts(list@));
    out
}

/// The characters with the Unicode property White_Space.
pub open spec fn white_space(c: char) -> bool {
    let u = c as u32;
    ||| 0x09 <= u <= 0x0d
    ||| u == 0x20
    ||| u == 0x85
    ||| u == 0xa0
    ||| u == 0x1680
    ||| 0x2000 <= u <= 0x200a
    ||| u == 0x2028
    ||| u == 0x2029
    ||| u == 0x202f
    ||| u == 0x205f
    ||| u == 0x3000
}

/// Whether `c` is white space.
pub fn is_white_space(c: char) -> (r: bool)
    ensures
        r == white_space(c),
{
    let u: u32 = c as u32;
    (0x09 <= u && u <= 0x0d) || u == 0x20 || u == 0x85 || u == 0xa0 || u == 0x1680
        || (0x2000 <= u && u <= 0x200a) || u == 0x2028 || u == 0x2029 || u == 0x202f
        || u == 0x205f || u == 0x3000
}

/// `s` without the white space at its end.
pub open spec fn trimmed_end(s: Seq<char>) -> Seq<char>
    decreases s.len(),
{
    if s.len() > 0 && white_space(s.last()) {
        trimmed_end(s.drop_last())
    } else {
        s
    }
}

/// `s` without the white space at its start.
pub open spec fn trimmed_start(s: Seq<char>) -> Seq<char>
    decreases s.len(),
{
    if s.len() > 0 && white_space(s.first()) {
        trimmed_start(s.drop_first())
    } else {
        s
    }
}

/// `s` without the white space at both ends.
pub open spec fn trimmed(s: Seq<char>) -> Seq<char> {
    trimmed_start(trimmed_end(s))
}

/// Removes the white space at the end of `s`.
pub fn trim_end(s: &str) -> (r: &str)
    ensures
        r@ == trimmed_end(s@),
{
    let cs = chars_of(s);
    let mut end: usize = cs.len();
    assert(s@.take(end as int) == s@);
    while end > 0 && is_white_space(cs[end - 1])
        invariant
            cs@ == s@,
            end <= cs.len(),
            trimmed_end(s@.take(end as int)) == trimmed_end(s@),
        decreases end,
    {
        assert(s@.take(end as int).drop_last() == s@.take(end - 1));
        end = end - 1;
    }
    assert(s@.take(end as int) == s@.subrange(0, end as int));
    s.substring_char(0, end)
}

/// Removes the white space at the start of `s`.
pub fn trim_start(s: &str) -> (r: &str)
    ensures
        r@ == trimmed_start(s@),
{
    let cs = chars_of(s);
    let mut start: usize = 0;
    assert(s@.skip(0) == s@);
    while start < cs.len() && is_white_space(cs[start])
        invariant
            cs@ == s@,
            start <= cs.len(),
            trimmed_start(s@.skip(start as int)) == trimmed_start(s@),
        decreases cs.len() - start,
    {
        assert(s@.skip(start as int).drop_first() == s@.skip(start + 1));
        start = start + 1;
    }
    assert(s@.skip(start as int) == s@.subrange(start as int, s@.len() as int));
    s.substring_char(start, cs.len())
}

/// Removes the white space at both ends of `s`.
pub fn trim(s: &str) -> (r: &str)
    ensures
        r@ == trimmed(s@),
{
    trim_start(trim_end(s))
}

/// Why a text is not an integer of the wanted type.
#[derive(Clone, Copy, Debug, PartialEq, Eq, Structural)]
pub enum ParseIntError {
    /// There is no character at all.
    Empty,
    /// A character is not a decimal digit, or there is only a sign.
    InvalidDigit,
    /// The number is above the type's range.
    PosOverflow,
    /// The number is below the type's range.
    NegOverflow,
}

impl ParseIntError {
    /// What the error says.
    pub open spec fn text(self) -> Seq<char> {
        match self {
            ParseIntError::Empty => "cannot parse integer from empty string"@,
            ParseIntError::InvalidDigit => "invalid digit found in string"@,
            ParseIntError::PosOverflow => "number too large to fit in target type"@,
            ParseIntError::NegOverflow => "number too small to fit in target type"@,
        }
    }

    /// What the error says.
    pub fn message(&self) -> (r: &'static str)
        ensures
            r@ == self.text(),
    {
        match self {
            ParseIntError::Empty => "cannot parse integer from empty string",
            ParseIntError::InvalidDigit => "invalid digit found in string",
            ParseIntError::PosOverflow => "number too large to fit in target type",
            ParseIntError::NegOverflow => "number too small to fit in target type",
        }
    }
}

/// The value of the decimal digit `c`.
pub open spec fn digit_value(c: char) -> Option<int> {
    if '0' as u32 <= c as u32 <= '9' as u32 {
        Some(c as u32 - '0' as u32)
    } else {
        None
    }
}

/// The number that `digits` writes, read from the left; the first character that is no digit
/// or that takes the number out of `min..=max` decides the error.
pub open spec fn digits_value(digits: Seq<char>, negative: bool, min: int, max: int) -> Result<
    int,
    ParseIntError,
>
    decreases digits.len(),
{
    if digits.len() == 0 {
        Ok(0)
    } else {
        match digits_value(digits.drop_last(), negative, min, max) {
            Err(e) => Err(e),
            Ok(v) => match digit_value(digits.last()) {
                None => Err(ParseIntError::InvalidDigit),
                Some(d) => {
                    let w = if negative {
                        v * 10 - d
                    } else {
                        v * 10 + d
                    };
                    if w > max {
                        Err(ParseIntError::PosOverflow)
                    } else if w < min {
                        Err(ParseIntError::NegOverflow)
                    } else {
                        Ok(w)
                    }
                },
            },
        }
    }
}

/// The integer in `min..=max` that `s` writes: an optional `+`, or `-` where the type has a
/// sign, and then one or more decimal digits.
pub open spec fn parsed(s: Seq<char>, signed: bool, min: int, max: int) -> Result<
    int,
    ParseIntError,
> {
    if s.len() == 0 {
        Err(ParseIntError::Empty)
    } else if s.len() == 1 && (s[0] == '+' || s[0] == '-') {
        Err(ParseIntError::InvalidDigit)
    } else if s[0] == '+' {
        digits_value(s.drop_first(), false, min, max)
    } else if signed && s[0] == '-' {
        digits_value(s.drop_first(), true, min, max)
    } else {
        digits_value(s, false, min, max)
    }
}

fn parse_digits(cs: &Vec<char>, start: usize, negative: bool, min: i128, max: i128) -> (r: Result<
    i128,
    ParseIntError,
>)
    requires
        start <= cs.len(),
        -0x1_0000_0000_0000_0000 <= min <= 0 <= max <= 0x1_0000_0000_0000_0000,
    ensures
        r matches Ok(v) ==> digits_value(cs@.skip(start as int), negative, min as int, max as int)
            == Ok::<int, ParseIntError>(v as int) && min <= v <= max,
        r matches Err(e) ==> digits_value(cs@.skip(start as int), negative, min as int, max as int)
            == Err::<int, ParseIntError>(e),
{
    let ghost digits = cs@.skip(start as int);
    let mut value: i128 = 0;
    let mut i: usize = start;
    assert(digits.take(0) == Seq::<char>::empty());
    while i < cs.len()
        invariant
            start <= i <= cs.len(),
            digits == cs@.skip(start as int),
            -0x1_0000_0000_0000_0000 <= min <= 0 <= max <= 0x1_0000_0000_0000_0000,
            min <= value <= max,
            digits_value(digits.take(i - start), negative, min as int, max as int) == Ok::<
                int,
                ParseIntError,
            >(value as int),
        decreases cs.len() - i,
    {
        assert(digits.take(i - start + 1).drop_last() == digits.take(i - start));
        assert(digits.take(i - start + 1).last() == cs@[i as int]);
        let c: u32 = cs[i] as u32;
        if c < 48 || c > 57 {
            proof {
                lemma_first_error(digits, i - start + 1, negative, min as int, max as int);
            }
            return Err(ParseIntError::InvalidDigit);
        }
        let d: i128 = (c - 48) as i128;
        let next: i128 = if negative {
            value * 10 - d
        } else {
            value * 10 + d
        };
        if next > max {
            proof {
                lemma_first_error(digits, i - start + 1, negative, min as int, max as int);
            }
            return Err(ParseIntError::PosOverflow);
        }
        if next < min {
            proof {
                lemma_first_error(digits, i - start + 1, negative, min as int, max as int);
            }
            return Err(ParseIntError::NegOverflow);
        }
        value = next;
        i = i + 1;
    }
    assert(digits.take(i - start) == digits);
    Ok(value)
}

/// An error within the first `n` characters is the error of the whole.
proof fn lemma_first_error(digits: Seq<char>, n: int, negative: bool, min: int, max: int)
    requires
        0 <= n <= digits.len(),
        digits_value(digits.take(n), negative, min, max) is Err,
    ensures
        digits_value(digits, negative, min, max) == digits_value(
            digits.take(n),
            negative,
            min,
            max,
        ),
    decreases digits.len(),
{
    if n == digits.len() {
        assert(digits.take(n) == digits);
    } else {
        assert(digits.drop_last().take(n) == digits.take(n));
        lemma_first_error(digits.drop_last(), n, negative, min, max);
    }
}

fn parse_integer(s: &str, signed: bool, min: i128, max: i128) -> (r: Result<i128, ParseIntError>)
    requires
        -0x1_0000_0000_0000_0000 <= min <= 0 <= max <= 0x1_0000_0000_0000_0000,
    ensures
        r matches Ok(v) ==> parsed(s@, signed, min as int, max as int) == Ok::<int, ParseIntError>(
            v as int,
        ) && min <= v <= max,
        r matches Err(e) ==> parsed(s@, signed, min as int, max as int) == Err::<
            int,
            ParseIntError,
        >(e),
{
    let cs = chars_of(s);
    if cs.len() == 0 {
        return Err(ParseIntError::Empty);
    }
    if cs.len() == 1 && (cs[0] == '+' || cs[0] == '-') {
        return Err(ParseIntError::InvalidDigit);
    }
    assert(cs@.skip(1) == s@.drop_first());
    assert(cs@.skip(0) == s@);
    if cs[0] == '+' {
        parse_digits(&cs, 1, false, min, max)
    } else if signed && cs[0] == '-' {
        parse_digits(&cs, 1, true, min, max)
    } else {
        parse_digits(&cs, 0, false, min, max)
    }
}

/// Reads a `u8`.
pub fn parse_u8(s: &str) -> (r: Result<u8, ParseIntError>)
    ensures
        r matches Ok(v) ==> parsed(s@, false, 0, u8::MAX as int) == Ok::<int, ParseIntError>(
            v as int,
        ),
        r matches Err(e) ==> parsed(s@, false, 0, u8::MAX as int) == Err::<int, ParseIntError>(e),
{
    match parse_integer(s, false, 0, u8::MAX as i128) {
        Ok(v) => Ok(v as u8),
        Err(e) => Err(e),
    }
}

/// Reads a `u32`.
pub fn parse_u32(s: &str) -> (r: Result<u32, ParseIntError>)
    ensures
        r matches Ok(v) ==> parsed(s@, false, 0, u32::MAX as int) == Ok::<int, ParseIntError>(
            v as int,
        ),
        r matches Err(e) ==> parsed(s@, false, 0, u32::MAX as int) == Err::<int, ParseIntError>(e),
{
    match parse_integer(s, false, 0, u32::MAX as i128) {
        Ok(v) => Ok(v as u32),
        Err(e) => Err(e),
    }
}

/// Reads a `usize`.
pub fn parse_usize(s: &str) -> (r: Result<usize, ParseIntError>)
    ensures
        r matches Ok(v) ==> parsed(s@, false, 0, usize::MAX as int) == Ok::<int, ParseIntError>(
            v as int,
        ),
        r matches Err(e) ==> parsed(s@, false, 0, usize::MAX as int) == Err::<int, ParseIntError>(
            e,
        ),
{
    match parse_integer(s, false, 0, usize::MAX as i128) {
        Ok(v) => Ok(v as usize),
        Err(e) => Err(e),
    }
}

/// Reads an `i32`.
pub fn parse_i32(s: &str) -> (r: Result<i32, ParseIntError>)
    ensures
        r matches Ok(v) ==> parsed(s@, true, i32::MIN as int, i32::MAX as int) == Ok::<
            int,
            ParseIntError,
        >(v as int),
        r matches Err(e) ==> parsed(s@, true, i32::MIN as int, i32::MAX as int) == Err::<
            int,
            ParseIntError,
        >(e),
{
    match parse_integer(s, true, i32::MIN as i128, i32::MAX as i128) {
        Ok(v) => Ok(v as i32),
        Err(e) => Err(e),
    }
}

/// A decimal digit reads as its value.
proof fn lemma_digit_char(d: nat)
    requires
        d < 10,
    ensures
        digit_value(digit_char(d)) == Some(d as int),
{
}

/// Decimal notation has at least one character, and each of them is a digit.
pub proof fn lemma_decimal_digits(n: nat)
    ensures
        decimal(n).len() > 0,
        forall|i: int| 0 <= i < decimal(n).len() ==> digit_value(#[trigger] decimal(n)[i]) is Some,
    decreases n,
{
    if n < 10 {
        lemma_digit_char(n);
    } else {
        lemma_decimal_digits(n / 10);
        lemma_digit_char(n % 10);
    }
}

/// The digits of `n` have the value `n`.
proof fn lemma_decimal_value(n: nat, min: int, max: int)
    requires
        min <= 0,
        n <= max,
    ensures
        digits_value(decimal(n), false, min, max) == Ok::<int, ParseIntError>(n as int),
    decreases n,
{
    if n < 10 {
        lemma_digit_char(n);
        assert(decimal(n).drop_last() == Seq::<char>::empty());
        assert(digits_value(Seq::<char>::empty(), false, min, max) == Ok::<int, ParseIntError>(0));
        assert(decimal(n).last() == digit_char(n));
    } else {
        lemma_decimal_value(n / 10, min, max);
        lemma_digit_char(n % 10);
        assert(decimal(n).drop_last() == decimal(n / 10));
        assert(decimal(n).last() == digit_char(n % 10));
    }
}

/// A number that is written in decimal reads back as the same number.
pub proof fn law_decimal_reads_back(n: nat, signed: bool, min: int, max: int)
    requires
        min <= 0,
        n <= max,
    ensures
        parsed(decimal(n), signed, min, max) == Ok::<int, ParseIntError>(n as int),
{
    lemma_decimal_digits(n);
    lemma_decimal_value(n, min, max);
    assert(digit_value(decimal(n)[0]) is Some);
}

/// Different numbers are written differently.
pub proof fn law_decimal_is_injective(a: nat, b: nat)
    requires
        decimal(a) == decimal(b),
    ensures
        a == b,
{
    law_decimal_reads_back(a, false, 0, (a + b) as int);
    law_decimal_reads_back(b, false, 0, (a + b) as int);
}

/// What is left after trimming neither starts nor ends with white space.
pub proof fn law_trimmed_has_no_outer_space(s: Seq<char>)
    ensures
        trimmed(s).len() > 0 ==> !white_space(trimmed(s).first()) && !white_space(
            trimmed(s).last(),
        ),
{
    lemma_trimmed_end(s);
    lemma_trimmed_start(trimmed_end(s));
}

/// Trimming leaves a number as it is written.
pub proof fn lemma_decimal_is_trimmed(n: nat)
    ensures
        trimmed(decimal(n)) == decimal(n),
{
    lemma_decimal_digits(n);
    let s = decimal(n);
    assert(digit_value(s[0]) is Some);
    assert(digit_value(s[s.len() - 1]) is Some);
}

proof fn lemma_trimmed_end(s: Seq<char>)
    ensures
        trimmed_end(s).len() > 0 ==> !white_space(trimmed_end(s).last()),
    decreases s.len(),
{
    if s.len() > 0 && white_space(s.last()) {
        lemma_trimmed_end(s.drop_last());
    }
}

proof fn lemma_trimmed_start(s: Seq<char>)
    ensures
        trimmed_start(s).len() > 0 ==> !white_space(trimmed_start(s).first()) && trimmed_start(
            s,
        ).last() == s.last(),
    decreases s.len(),
{
    if s.len() > 0 && white_space(s.first()) {
        lemma_trimmed_start(s.drop_first());
    }
}

/// The pieces of `s` between the separators: always one more than there are separators.
pub open spec fn split<A>(s: Seq<A>, sep: A) -> Seq<Seq<A>>
    decreases s.len(),
{
    if s.len() == 0 {
        seq![Seq::empty()]
    } else {
        let before = split(s.drop_last(), sep);
        if s.last() == sep {
            before.push(Seq::empty())
        } else {
            before.drop_last().push(before.last().push(s.last()))
        }
    }
}

/// The parts with `sep` between each two of them.
pub open spec fn joined<A>(parts: Seq<Seq<A>>, sep: Seq<A>) -> Seq<A>
    decreases parts.len(),
{
    if parts.len() == 0 {
        Seq::empty()
    } else if parts.len() == 1 {
        parts[0]
    } else {
        joined(parts.drop_last(), sep) + sep + parts.last()
    }
}

proof fn lemma_split_nonempty<A>(s: Seq<A>, sep: A)
    ensures
        split(s, sep).len() > 0,
    decreases s.len(),
{
    if s.len() > 0 {
        lemma_split_nonempty(s.drop_last(), sep);
    }
}

/// Putting the separators back between the pieces gives the text again.
pub proof fn law_split_joins_back<A>(s: Seq<A>, sep: A)
    ensures
        joined(split(s, sep), seq![sep]) == s,
    decreases s.len(),
{
    if s.len() > 0 {
        let before = split(s.drop_last(), sep);
        lemma_split_nonempty(s.drop_last(), sep);
        law_split_joins_back(s.drop_last(), sep);
        let all = split(s, sep);
        if s.last() == sep {
            assert(all.drop_last() == before);
            assert(joined(all, seq![sep]) == joined(before, seq![sep]) + seq![sep] + Seq::<
                A,
            >::empty());
        } else {
            assert(all.drop_last() == before.drop_last());
            if before.len() == 1 {
                assert(joined(before, seq![sep]) == before[0]);
            }
        }
        assert(s == s.drop_last().push(s.last()));
        assert(joined(all, seq![sep]) == s);
    }
}

/// Cuts `s` at each `sep`.
pub fn split_at_char(s: &str, sep: char) -> (r: Vec<String>)
    ensures
        texts(r@) == split(s@, sep),
{
    let cs = chars_of(s);
    let mut pieces: Vec<String> = Vec::new();
    let mut start: usize = 0;
    let mut i: usize = 0;
    assert(s@.subrange(0, 0) == Seq::<char>::empty());
    assert(split(s@.take(0), sep) == texts(pieces@).push(s@.subrange(0, 0)));
    while i < cs.len()
        invariant
            cs@ == s@,
            start <= i <= cs.len(),
            split(s@.take(i as int), sep) == texts(pieces@).push(
                s@.subrange(start as int, i as int),
            ),
        decreases cs.len() - i,
    {
        let ghost before = split(s@.take(i as int), sep);
        let ghost had = texts(pieces@);
        assert(s@.take(i + 1).drop_last() == s@.take(i as int));
        assert(s@.take(i + 1).last() == cs@[i as int]);
        if cs[i] == sep {
            pieces.push(s.substring_char(start, i).to_string());
            assert(texts(pieces@) == before);
            start = i + 1;
            assert(s@.subrange(i + 1, i + 1) == Seq::<char>::empty());
        } else {
            assert(before.drop_last() == had);
            assert(s@.subrange(start as int, i + 1) == s@.subrange(start as int, i as int).push(
                cs@[i as int],
            ));
        }
        i = i + 1;
    }
    assert(s@.take(i as int) == s@);
    let ghost had = texts(pieces@);
    pieces.push(s.substring_char(start, i).to_string());
    assert(texts(pieces@) == had.push(s@.subrange(start as int, i as int)));
    pieces
}

/// Whether `c` occurs in `s`.
pub fn contains_char(s: &str, c: char) -> (r: bool)
    ensures
        r == s@.contains(c),
{
    let cs = chars_of(s);
    let mut i: usize = 0;
    while i < cs.len()
        invariant
            cs@ == s@,
            i <= cs.len(),
            forall|j: int| 0 <= j < i ==> s@[j] != c,
        decreases cs.len() - i,
    {
        if cs[i] == c {
            return true;
        }
        i = i + 1;
    }
    false
}

/// Whether the two texts are equal.
pub fn same_text(a: &str, b: &str) -> (r: bool)
    ensures
        r == (a@ == b@),
{
    let x = chars_of(a);
    let y = chars_of(b);
    if x.len() != y.len() {
        return false;
    }
    let mut i: usize = 0;
    while i < x.len()
        invariant
            x@ == a@,
            y@ == b@,
            x.len() == y.len(),
            i <= x.len(),
            forall|j: int| 0 <= j < i ==> a@[j] == b@[j],
        decreases x.len() - i,
    {
        if x[i] != y[i] {
            return false;
        }
        i = i + 1;
    }
    assert(a@ == b@);
    true
}

/// The lines, each with its end.
pub open spec fn unlines(lines: Seq<Seq<char>>) -> Seq<char>
    decreases lines.len(),
{
    if lines.len() == 0 {
        Seq::empty()
    } else {
        (unlines(lines.drop_last()) + lines.last()).push('\n')
    }
}

/// Puts a line behind the others.
pub fn put_line(lines: &mut Vec<String>, line: &str)
    ensures
        texts(final(lines)@) == texts(old(lines)@).push(line@),
{
    let ghost before = texts(lines@);
    lines.push(line.to_string());
    assert(texts(lines@) =~= before.push(line@));
}

/// Puts the lines together, each with its end.
pub fn unlines_text(lines: &Vec<String>) -> (r: String)
    ensures
        r@ == unlines(texts(lines@)),
{
    proof {
        reveal_strlit("\n");
    }
    let ghost all = texts(lines@);
    let mut out = String::new();
    let mut i: usize = 0;
    assert(all.take(0) == Seq::<Seq<char>>::empty());
    while i < lines.len()
        invariant
            i <= lines.len(),
            all == texts(lines@),
            "\n"@ == seq!['\n'],
            out@ == unlines(all.take(i as int)),
        decreases lines.len() - i,
    {
        assert(all.take(i + 1).drop_last() == all.take(i as int));
        assert(all.take(i + 1).last() == lines@[i as int]@);
        let ghost had = out@;
        out.append(lines[i].as_str());
        out.append("\n");
        assert(out@ =~= (had + lines@[i as int]@).push('\n'));
        i = i + 1;
    }
    assert(all.take(i as int) == all);
    out
}

proof fn lemma_split_line(s: Seq<char>, line: Seq<char>)
    requires
        !line.contains('\n'),
        split(s, '\n').len() > 0,
        split(s, '\n').last().len() == 0,
    ensures
        split(s + line, '\n') == split(s, '\n').drop_last().push(line),
    decreases line.len(),
{
    let pieces = split(s, '\n');
    if line.len() == 0 {
        assert(s + line == s);
        assert(pieces.last() == line);
        assert(pieces == pieces.drop_last().push(line));
    } else {
        let shorter = line.drop_last();
        assert(!shorter.contains('\n')) by {
            if shorter.contains('\n') {
                let k = choose|k: int| 0 <= k < shorter.len() && shorter[k] == '\n';
                assert(line[k] == '\n');
            }
        }
        lemma_split_line(s, shorter);
        assert((s + line).drop_last() == s + shorter);
        assert((s + line).last() == line.last());
        assert(line.contains(line.last()));
        assert(shorter.push(line.last()) == line);
        let before = pieces.drop_last().push(shorter);
        assert(before.drop_last() == pieces.drop_last());
    }
}

/// What is put together of lines falls apart into the same lines at its line ends; behind the
/// last end there is nothing.
pub proof fn law_lines_split_back(lines: Seq<Seq<char>>)
    requires
        forall|i: int| 0 <= i < lines.len() ==> !(#[trigger] lines[i]).contains('\n'),
    ensures
        split(unlines(lines), '\n') == lines.push(Seq::empty()),
    decreases lines.len(),
{
    if lines.len() == 0 {
        assert(split(unlines(lines), '\n') =~= lines.push(Seq::empty()));
    } else {
        let before = lines.drop_last();
        assert forall|i: int| 0 <= i < before.len() implies !(#[trigger] before[i]).contains(
            '\n',
        ) by {
            assert(before[i] == lines[i]);
        }
        law_lines_split_back(before);
        let start = unlines(before);
        let line = lines.last();
        assert(lines[lines.len() - 1] == line);
        lemma_split_line(start, line);
        assert(before.push(Seq::<char>::empty()).drop_last() == before);
        assert((start + line).push('\n').drop_last() == start + line);
        assert(before.push(line) == lines);
    }
}

/// Filtering keeps all of a list or nothing of it where `keep` says the same of all members.
pub proof fn lemma_filter_uniform<A>(s: Seq<A>, keep: spec_fn(A) -> bool, all: bool)
    requires
        forall|i: int| 0 <= i < s.len() ==> keep(#[trigger] s[i]) == all,
    ensures
        s.filter(keep) == if all {
            s
        } else {
            Seq::empty()
        },
    decreases s.len(),
{
    reveal(Seq::filter);
    if s.len() > 0 {
        let before = s.drop_last();
        lemma_filter_uniform(before, keep, all);
        assert(keep(s[s.len() - 1]) == all);
        assert(before.push(s.last()) == s);
    } else {
        assert(s == Seq::<A>::empty());
    }
}

/// Filtering a list with a member more.
pub proof fn lemma_filter_pushed<A>(s: Seq<A>, x: A, keep: spec_fn(A) -> bool)
    ensures
        s.push(x).filter(keep) == if keep(x) {
            s.filter(keep).push(x)
        } else {
            s.filter(keep)
        },
        Seq::<A>::empty().filter(keep) == Seq::<A>::empty(),
{
    reveal(Seq::filter);
    assert(s.push(x).drop_last() =~= s);
}

/// `n` times the character `c`.
pub open spec fn repeated(c: char, n: nat) -> Seq<char> {
    Seq::new(n, |i: int| c)
}

/// What fills `len` characters up to `width`.
pub open spec fn filling(c: char, len: nat, width: nat) -> Seq<char> {
    repeated(c, if len < width { (width - len) as nat } else { 0 })
}

/// `s` at the left of a column of `width` characters.
pub open spec fn left_aligned(s: Seq<char>, width: nat) -> Seq<char> {
    s + filling(' ', s.len(), width)
}

/// `s` at the right of a column of `width` characters.
pub open spec fn right_aligned(s: Seq<char>, width: nat) -> Seq<char> {
    filling(' ', s.len(), width) + s
}

fn fill(out: &mut String, unit: &str, len: usize, width: usize)
    requires
        unit@.len() == 1,
    ensures
        final(out)@ == old(out)@ + filling(unit@[0], len as nat, width as nat),
{
    let mut i: usize = len;
    let ghost start = out@;
    assert(start == start + repeated(unit@[0], 0));
    while i < width
        invariant
            unit@.len() == 1,
            len <= i,
            i <= width || i == len,
            out@ == start + repeated(unit@[0], (i - len) as nat),
        decreases width - i,
    {
        out.append(unit);
        i = i + 1;
        assert(repeated(unit@[0], (i - len) as nat) == repeated(unit@[0], (i - len - 1) as nat)
            + unit@);
        assert(out@ == start + repeated(unit@[0], (i - len) as nat));
    }
}

/// Puts `s` at the left of a column of `width` characters.
pub fn align_left(s: &str, width: usize) -> (r: String)
    ensures
        r@ == left_aligned(s@, width as nat),
{
    proof {
        reveal_strlit(" ");
    }
    let mut out = s.to_string();
    fill(&mut out, " ", s.unicode_len(), width);
    out
}

/// Puts `s` at the right of a column of `width` characters.
pub fn align_right(s: &str, width: usize) -> (r: String)
    ensures
        r@ == right_aligned(s@, width as nat),
{
    proof {
        reveal_strlit(" ");
    }
    let mut out = String::new();
    fill(&mut out, " ", s.unicode_len(), width);
    assert(out@ == filling(' ', s@.len(), width as nat));
    out.append(s);
    out
}

/// A rule of `width` dashes.
pub fn dashes(width: usize) -> (r: String)
    ensures
        r@ == repeated('-', width as nat),
{
    proof {
        reveal_strlit("-");
    }
    let mut out = String::new();
    fill(&mut out, "-", 0, width);
    assert(out@ == repeated('-', width as nat));
    out
}

/// The digits of a number below ten are one character, and ten times a number with a digit
/// added is written as that number with the digit behind it.
pub proof fn law_decimal_appends_a_digit(n: nat, d: nat)
    requires
        d < 10,
    ensures
        decimal(d).len() == 1,
        decimal(d)[0] as u32 == '0' as u32 + d,
        n > 0 ==> decimal(10 * n + d) == decimal(n) + decimal(d),
{
    if n > 0 {
        let m = 10 * n + d;
        assert(m / 10 == n && m % 10 == d);
        assert(decimal(m) =~= decimal(n) + decimal(d));
    }
}

/// The white space of Unicode, character by character.
pub proof fn law_white_space_characters(c: char)
    ensures
        white_space(c) <==> {
            ||| c == '\t' || c == '\n' || c == '\u{b}' || c == '\u{c}' || c == '\r'
            ||| c == ' ' || c == '\u{85}' || c == '\u{a0}' || c == '\u{1680}'
            ||| '\u{2000}' as u32 <= c as u32 <= '\u{200a}' as u32
            ||| c == '\u{2028}' || c == '\u{2029}' || c == '\u{202f}' || c == '\u{205f}'
            ||| c == '\u{3000}'
        },
{
}

/// Whether a text is nothing but white space.
pub open spec fn all_white(s: Seq<char>) -> bool {
    forall|i: int| 0 <= i < s.len() ==> white_space(#[trigger] s[i])
}

proof fn lemma_trimmed_end_added(s: Seq<char>, w: Seq<char>)
    requires
        all_white(w),
    ensures
        trimmed_end(s + w) == trimmed_end(s),
    decreases w.len(),
{
    if w.len() == 0 {
        assert(s + w =~= s);
    } else {
        let shorter = w.drop_last();
        assert forall|i: int| 0 <= i < shorter.len() implies white_space(#[trigger] shorter[i]) by {
            assert(shorter[i] == w[i]);
        }
        lemma_trimmed_end_added(s, shorter);
        assert((s + w).drop_last() =~= s + shorter);
        assert((s + w).last() == w[w.len() - 1]);
    }
}

proof fn lemma_trimmed_start_added(w: Seq<char>, s: Seq<char>)
    requires
        all_white(w),
    ensures
        trimmed_start(w + s) == trimmed_start(s),
    decreases w.len(),
{
    if w.len() == 0 {
        assert(w + s =~= s);
    } else {
        let rest = w.drop_first();
        assert forall|i: int| 0 <= i < rest.len() implies white_space(#[trigger] rest[i]) by {
            assert(rest[i] == w[i + 1]);
        }
        lemma_trimmed_start_added(rest, s);
        assert((w + s).drop_first() =~= rest + s);
        assert((w + s).first() == w[0]);
    }
}

/// Trimming removes the white space round a text and nothing else; trimming the end leaves what
/// stands before the text.
pub proof fn law_trimming_removes_the_white_space_around(
    before: Seq<char>,
    s: Seq<char>,
    behind: Seq<char>,
)
    requires
        all_white(before),
        all_white(behind),
        s.len() > 0 ==> !white_space(s.first()) && !white_space(s.last()),
    ensures
        trimmed(before + s + behind) == s,
        s.len() > 0 ==> trimmed_end(before + s + behind) == before + s,
        s.len() == 0 ==> trimmed_end(before + s + behind) == s,
{
    lemma_trimmed_end_added(before + s, behind);
    if s.len() > 0 {
        assert((before + s).last() == s.last());
        lemma_trimmed_start_added(before, s);
    } else {
        assert(before + s =~= Seq::<char>::empty() + before);
        lemma_trimmed_end_added(Seq::empty(), before);
        assert(s =~= Seq::<char>::empty());
    }
}

/// Whether a text is a sign and nothing else.
pub open spec fn lone_sign(s: Seq<char>) -> bool {
    s.len() == 1 && (s[0] == '+' || s[0] == '-')
}

/// Whether a character is one of `0` to `9`.
pub open spec fn is_digit(c: char) -> bool {
    '0' as u32 <= c as u32 <= '9' as u32
}

/// What a character more makes of what was read so far: ten times the number and the digit, away
/// from zero, as long as it is in range.
pub open spec fn with_digit(
    so_far: Result<int, ParseIntError>,
    c: char,
    negative: bool,
    min: int,
    max: int,
) -> Result<int, ParseIntError> {
    match so_far {
        Err(e) => Err(e),
        Ok(v) => {
            let d = c as u32 - '0' as u32;
            let w = if negative { 10 * v - d } else { 10 * v + d };
            if !is_digit(c) {
                Err(ParseIntError::InvalidDigit)
            } else if w > max {
                Err(ParseIntError::PosOverflow)
            } else if w < min {
                Err(ParseIntError::NegOverflow)
            } else {
                Ok(w)
            }
        },
    }
}

/// A number is read digit by digit: a text with a character more is what `with_digit` makes of
/// the text, and what stands before the first digit is nothing or a sign, `-` only where the
/// type has one.
pub proof fn law_numbers_are_read_digit_by_digit(
    s: Seq<char>,
    c: char,
    signed: bool,
    min: int,
    max: int,
)
    ensures
        parsed(Seq::empty(), signed, min, max) == Err::<int, ParseIntError>(ParseIntError::Empty),
        lone_sign(s) ==> parsed(s, signed, min, max) == Err::<int, ParseIntError>(
            ParseIntError::InvalidDigit,
        ),
        s.len() == 0 && c != '+' && c != '-' ==> parsed(s.push(c), signed, min, max) == with_digit(
            Ok(0),
            c,
            false,
            min,
            max,
        ),
        lone_sign(s) && (s[0] == '+' || signed) ==> parsed(s.push(c), signed, min, max)
            == with_digit(Ok(0), c, s[0] == '-', min, max),
        s.len() > 0 && s[0] == '-' && !signed ==> parsed(s, signed, min, max) == Err::<
            int,
            ParseIntError,
        >(ParseIntError::InvalidDigit),
        s.len() > 0 && !lone_sign(s) ==> parsed(s.push(c), signed, min, max) == with_digit(
            parsed(s, signed, min, max),
            c,
            signed && s[0] == '-',
            min,
            max,
        ),
{
    let t = s.push(c);
    assert(t.drop_last() =~= s);
    if s.len() > 0 {
        assert(t.drop_first() =~= s.drop_first().push(c));
        assert(s.drop_first().push(c).drop_last() =~= s.drop_first());
        if s.len() == 1 {
            assert(s.drop_first() =~= Seq::<char>::empty());
        }
        if s[0] == '-' && !signed {
            lemma_bad_start(s, min, max);
        }
    } else {
        assert(s =~= Seq::<char>::empty());
    }
    assert(digits_value(Seq::<char>::empty(), false, min, max) == Ok::<int, ParseIntError>(0));
    assert(digits_value(Seq::<char>::empty(), true, min, max) == Ok::<int, ParseIntError>(0));
}

proof fn lemma_bad_start(s: Seq<char>, min: int, max: int)
    requires
        s.len() > 0,
        !is_digit(s[0]),
    ensures
        digits_value(s, false, min, max) == Err::<int, ParseIntError>(ParseIntError::InvalidDigit),
    decreases s.len(),
{
    if s.len() == 1 {
        assert(s.drop_last() =~= Seq::<char>::empty());
        assert(digits_value(Seq::<char>::empty(), false, min, max) == Ok::<int, ParseIntError>(0));
    } else {
        lemma_bad_start(s.drop_last(), min, max);
    }
}

/// Whatever white space stands round it, a number in decimal is what is read.
pub proof fn law_number_between_white_space(
    before: Seq<char>,
    n: nat,
    behind: Seq<char>,
    signed: bool,
    min: int,
    max: int,
)
    requires
        all_white(before),
        all_white(behind),
        min <= 0,
        n <= max,
    ensures
        parsed(trimmed(before + decimal(n) + behind), signed, min, max) == Ok::<
            int,
            ParseIntError,
        >(n as int),
{
    lemma_decimal_digits(n);
    let s = decimal(n);
    assert(digit_value(s[0]) is Some);
    assert(digit_value(s[s.len() - 1]) is Some);
    law_trimming_removes_the_white_space_around(before, s, behind);
    law_decimal_reads_back(n, signed, min, max);
}

/// The separator stands in no piece.
pub proof fn law_pieces_have_no_separator<A>(s: Seq<A>, sep: A)
    ensures
        split(s, sep).len() > 0,
        forall|i: int| 0 <= i < split(s, sep).len() ==> !(#[trigger] split(s, sep)[i]).contains(sep),
    decreases s.len(),
{
    let all = split(s, sep);
    if s.len() == 0 {
        assert(all[0].len() == 0);
    } else {
        let before = split(s.drop_last(), sep);
        law_pieces_have_no_separator(s.drop_last(), sep);
        assert forall|i: int| 0 <= i < all.len() implies !(#[trigger] all[i]).contains(sep) by {
            if i < before.len() - 1 {
                assert(all[i] == before[i]);
            } else if s.last() != sep {
                let was = before[before.len() - 1];
                assert(!was.contains(sep));
                if all[i].contains(sep) {
                    let k = choose|k: int| 0 <= k < all[i].len() && all[i][k] == sep;
                    if k < was.len() {
                        assert(was[k] == sep);
                    }
                }
            } else if i < before.len() {
                assert(all[i] == before[i]);
            }
        }
    }
}

/// One part joined is the part, and each further part comes behind a separator.
pub proof fn law_joining_puts_separators_between<A>(parts: Seq<Seq<A>>, part: Seq<A>, sep: Seq<A>)
    ensures
        joined(Seq::<Seq<A>>::empty(), sep) == Seq::<A>::empty(),
        parts.len() == 0 ==> joined(parts.push(part), sep) == part,
        parts.len() > 0 ==> joined(parts.push(part), sep) == joined(parts, sep) + sep + part,
{
    assert(parts.push(part).drop_last() =~= parts);
}

/// A line more comes behind the others, and a line end behind it.
pub proof fn law_each_line_has_an_end(lines: Seq<Seq<char>>, line: Seq<char>)
    ensures
        unlines(Seq::<Seq<char>>::empty()) == Seq::<char>::empty(),
        unlines(lines.push(line)) == unlines(lines) + line + seq!['\n'],
{
    assert(lines.push(line).drop_last() =~= lines);
    assert(unlines(lines.push(line)) =~= unlines(lines) + line + seq!['\n']);
}

/// A text in a column is as wide as the column, or as it is itself where it is wider; it stands
/// at its side of the column, and the rest is blank.
pub proof fn law_columns_are_filled_with_blanks(s: Seq<char>, width: nat)
    ensures
        ({
            let left = left_aligned(s, width);
            let right = right_aligned(s, width);
            let wide = if s.len() < width { width } else { s.len() };
            &&& left.len() == wide && right.len() == wide
            &&& left.take(s.len() as int) == s && right.skip(wide - s.len()) == s
            &&& forall|i: int| s.len() <= i < wide ==> #[trigger] left[i] == ' '
            &&& forall|i: int| 0 <= i < wide - s.len() ==> #[trigger] right[i] == ' '
        }),
        repeated('-', width).len() == width,
        forall|i: int| 0 <= i < width ==> #[trigger] repeated('-', width)[i] == '-',
{
    let wide = if s.len() < width { width } else { s.len() };
    assert(left_aligned(s, width).take(s.len() as int) =~= s);
    assert(right_aligned(s, width).skip(wide - s.len()) =~= s);
}

/// A piece without separators behind a separator is the last piece.
pub proof fn lemma_split_behind<A>(s: Seq<A>, piece: Seq<A>, sep: A)
    requires
        !piece.contains(sep),
    ensures
        split(s + seq![sep] + piece, sep) == split(s, sep).push(piece),
        split(piece, sep) == seq![piece],
    decreases piece.len(),
{
    let all = s + seq![sep] + piece;
    if piece.len() == 0 {
        assert(all =~= s.push(sep));
        assert(all.drop_last() =~= s);
        assert(piece =~= Seq::<A>::empty());
    } else {
        let shorter = piece.drop_last();
        assert(!shorter.contains(sep)) by {
            if shorter.contains(sep) {
                let k = choose|k: int| 0 <= k < shorter.len() && shorter[k] == sep;
                assert(piece[k] == sep);
            }
        }
        lemma_split_behind(s, shorter, sep);
        assert(all.drop_last() =~= s + seq![sep] + shorter);
        assert(all.last() == piece.last());
        assert(piece.contains(piece.last()));
        assert(split(s, sep).push(shorter).drop_last() =~= split(s, sep));
        assert(seq![shorter].drop_last() =~= Seq::<Seq<A>>::empty());
        assert(shorter.push(piece.last()) =~= piece);
        assert(Seq::<Seq<A>>::empty().push(piece) =~= seq![piece]);
    }
}

/// Parts without separators that are joined fall apart into the same parts.
pub proof fn law_joined_parts_split_back<A>(parts: Seq<Seq<A>>, sep: A)
    requires
        parts.len() > 0,
        forall|i: int| 0 <= i < parts.len() ==> !(#[trigger] parts[i]).contains(sep),
    ensures
        split(joined(parts, seq![sep]), sep) == parts,
    decreases parts.len(),
{
    let last = parts.last();
    assert(!parts[parts.len() - 1].contains(sep));
    if parts.len() == 1 {
        lemma_split_behind(Seq::empty(), last, sep);
        assert(parts =~= seq![last]);
    } else {
        let before = parts.drop_last();
        assert forall|i: int| 0 <= i < before.len() implies !(#[trigger] before[i]).contains(
            sep,
        ) by {
            assert(before[i] == parts[i]);
        }
        law_joined_parts_split_back(before, sep);
        lemma_split_behind(joined(before, seq![sep]), last, sep);
        assert(before.push(last) =~= parts);
    }
}

} // verus!
