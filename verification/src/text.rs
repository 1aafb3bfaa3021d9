//! Character-level building blocks: case folding, decimal and hexadecimal
//! numbers, and conversions between strings and character vectors.

use vstd::prelude::*;
use vstd::string::StringExecFns;

verus! {

/// `String::push`: the character is appended to the end of the string.
pub assume_specification[ String::push ](s: &mut String, c: char)
    ensures
        final(s)@ == old(s)@.push(c),
;

/// ASCII lower-case form of one character; everything but `A`..`Z` is kept.
pub open spec fn lower_char(c: char) -> char {
    if 'A' <= c <= 'Z' {
        ((c as u8) + 32) as char
    } else {
        c
    }
}

/// ASCII lower-case form of a text.
pub open spec fn lower(s: Seq<char>) -> Seq<char> {
    Seq::new(s.len(), |i: int| lower_char(s[i]))
}

/// Equality up to ASCII case.
pub open spec fn same_ignoring_case(a: Seq<char>, b: Seq<char>) -> bool {
    lower(a) == lower(b)
}

pub fn to_lower_char(c: char) -> (r: char)
    ensures
        r == lower_char(c),
{
    if c >= 'A' && c <= 'Z' {
        ((c as u8) + 32) as char
    } else {
        c
    }
}

/// The characters of a string, in order.
pub fn chars_of(s: &str) -> (r: Vec<char>)
    ensures
        r@ == s@,
{
    let mut out: Vec<char> = Vec::new();
    for c in it: s.chars()
        invariant
            out@ == it.seq().take(it.index() as int),
            it.seq() == s@,
    {
        out.push(c);
    }
    out
}

/// The string made of `input[from..to]`.
pub fn string_of(input: &Vec<char>, from: usize, to: usize) -> (r: String)
    requires
        from <= to <= input.len(),
    ensures
        r@ == input@.subrange(from as int, to as int),
{
    let mut out = String::new();
    let mut i: usize = from;
    while i < to
        invariant
            from <= i <= to <= input.len(),
            out@ == input@.subrange(from as int, i as int),
        decreases to - i,
    {
        out.push(input[i]);
        i += 1;
    }
    out
}

/// Two strings hold the same characters.
pub fn str_eq(a: &str, b: &str) -> (r: bool)
    ensures
        r == (a@ == b@),
{
    let x = a.to_owned();
    let y = b.to_owned();
    x == y
}

pub fn to_lower(s: &str) -> (r: String)
    ensures
        r@ == lower(s@),
{
    let chars = chars_of(s);
    let mut out = String::new();
    let mut i: usize = 0;
    while i < chars.len()
        invariant
            i <= chars.len(),
            chars@ == s@,
            out@ == lower(s@).take(i as int),
        decreases chars.len() - i,
    {
        out.push(to_lower_char(chars[i]));
        i += 1;
    }
    out
}

pub fn eq_ignore_case(a: &str, b: &str) -> (r: bool)
    ensures
        r == same_ignoring_case(a@, b@),
{
    let x = chars_of(a);
    let y = chars_of(b);
    if x.len() != y.len() {
        assert(lower(a@).len() != lower(b@).len());
        return false;
    }
    let mut i: usize = 0;
    while i < x.len()
        invariant
            i <= x.len(),
            x.len() == y.len(),
            x@ == a@,
            y@ == b@,
            lower(a@).take(i as int) == lower(b@).take(i as int),
        decreases x.len() - i,
    {
        if to_lower_char(x[i]) != to_lower_char(y[i]) {
            assert(lower(a@)[i as int] != lower(b@)[i as int]);
            return false;
        }
        assert(lower(a@).take(i + 1) =~= lower(a@).take(i as int).push(lower(a@)[i as int]));
        assert(lower(b@).take(i + 1) =~= lower(b@).take(i as int).push(lower(b@)[i as int]));
        i += 1;
    }
    assert(lower(a@).take(i as int) =~= lower(a@));
    assert(lower(b@).take(i as int) =~= lower(b@));
    true
}

/// Value of `c` as a digit in the given radix (10 or 16), if it is one.
pub open spec fn digit_of(c: char, radix: nat) -> Option<nat> {
    if '0' <= c <= '9' {
        Some(((c as u8) - 48) as nat)
    } else if radix == 16 && 'a' <= c <= 'f' {
        Some(((c as u8) - 87) as nat)
    } else if radix == 16 && 'A' <= c <= 'F' {
        Some(((c as u8) - 55) as nat)
    } else {
        None
    }
}

/// Every character of `s` is a digit in the given radix.
pub open spec fn all_digits(s: Seq<char>, radix: nat) -> bool {
    forall|i: int| 0 <= i < s.len() ==> (#[trigger] digit_of(s[i], radix)) is Some
}

/// Value of a digit string read most significant digit first.
pub open spec fn number_value(s: Seq<char>, radix: nat) -> nat
    decreases s.len(),
{
    if s.len() == 0 {
        0
    } else {
        number_value(s.drop_last(), radix) * radix + digit_of(s.last(), radix).unwrap_or(0)
    }
}

/// The number that a token stands for: an optional `+`, then at least one
/// digit, and a value of at most `max`. Leading zeros are accepted.
pub open spec fn unsigned_of(s: Seq<char>, radix: nat, max: nat) -> Option<nat> {
    let body = if s.len() > 0 && s[0] == '+' {
            s.skip(1)
        } else {
            s
        };
    if body.len() > 0 && all_digits(body, radix) && number_value(body, radix) <= max {
        Some(number_value(body, radix))
    } else {
        None
    }
}

/// The number that a token made of digits alone stands for.
pub open spec fn plain_unsigned_of(s: Seq<char>, radix: nat, max: nat) -> Option<nat> {
    if s.len() > 0 && all_digits(s, radix) && number_value(s, radix) <= max {
        Some(number_value(s, radix))
    } else {
        None
    }
}

pub proof fn lemma_number_value_prefix(s: Seq<char>, radix: nat, k: int)
    requires
        0 <= k <= s.len(),
        radix >= 1,
    ensures
        number_value(s.take(k), radix) <= number_value(s, radix),
    decreases s.len() - k,
{
    if k == s.len() {
        assert(s.take(k) =~= s);
    } else {
        lemma_number_value_prefix(s.drop_last(), radix, k);
        assert(s.drop_last().take(k) =~= s.take(k));
        assert(number_value(s.drop_last(), radix) * radix >= number_value(s.drop_last(), radix))
            by (nonlinear_arith)
            requires
                radix >= 1,
        ;
    }
}

pub fn digit_value(c: char, radix: u32) -> (r: Option<u8>)
    requires
        radix == 10 || radix == 16,
    ensures
        match digit_of(c, radix as nat) {
            Some(d) => r == Some(d as u8) && d < radix,
            None => r is None,
        },
{
    if c >= '0' && c <= '9' {
        Some((c as u8) - 48)
    } else if radix == 16 && c >= 'a' && c <= 'f' {
        Some((c as u8) - 87)
    } else if radix == 16 && c >= 'A' && c <= 'F' {
        Some((c as u8) - 55)
    } else {
        None
    }
}

/// Reads `input[from..to]` as a run of digits.
pub fn parse_digits(input: &Vec<char>, from: usize, to: usize, radix: u32, max: u64) -> (r: Option<u64>)
    requires
        from <= to <= input.len(),
        radix == 10 || radix == 16,
    ensures
        match plain_unsigned_of(input@.subrange(from as int, to as int), radix as nat, max as nat) {
            Some(v) => r == Some(v as u64),
            None => r is None,
        },
{
    let ghost body = input@.subrange(from as int, to as int);
    if from == to {
        return None;
    }
    let mut acc: u64 = 0;
    let mut i: usize = from;
    assert(body.take(0) =~= Seq::<char>::empty());
    while i < to
        invariant
            from <= i <= to <= input.len(),
            radix == 10 || radix == 16,
            body == input@.subrange(from as int, to as int),
            all_digits(body.take(i - from), radix as nat),
            number_value(body.take(i - from), radix as nat) == acc,
            acc <= max,
        decreases to - i,
    {
        let ghost k = i - from;
        assert(body.take(k + 1).drop_last() =~= body.take(k));
        assert(body.take(k + 1).last() == input@[i as int]);
        match digit_value(input[i], radix) {
            None => {
                assert(digit_of(body[k], radix as nat) is None);
                return None;
            },
            Some(d) => {
                assert((acc as u128) * (radix as u128) <= 0xffff_ffff_ffff_ffff * 16) by (nonlinear_arith)
                    requires
                        acc <= 0xffff_ffff_ffff_ffff,
                        radix <= 16,
                ;
                let next: u128 = (acc as u128) * (radix as u128) + (d as u128);
                if next > max as u128 {
                    proof {
                        lemma_number_value_prefix(body, radix as nat, k + 1);
                    }
                    return None;
                }
                acc = next as u64;
                assert forall|j: int| 0 <= j < body.take(k + 1).len() implies (#[trigger] digit_of(
                    body.take(k + 1)[j],
                    radix as nat,
                )) is Some by {
                    if j < k {
                        assert(body.take(k + 1)[j] == body.take(k)[j]);
                    }
                }
            },
        }
        i += 1;
    }
    assert(body.take(to - from) =~= body);
    Some(acc)
}

/// Reads `input[from..to]` as a number with an optional leading `+`.
pub fn parse_unsigned(input: &Vec<char>, from: usize, to: usize, radix: u32, max: u64) -> (r: Option<u64>)
    requires
        from <= to <= input.len(),
        radix == 10 || radix == 16,
    ensures
        match unsigned_of(input@.subrange(from as int, to as int), radix as nat, max as nat) {
            Some(v) => r == Some(v as u64),
            None => r is None,
        },
{
    let ghost s = input@.subrange(from as int, to as int);
    if from < to && input[from] == '+' {
        assert(s.skip(1) =~= input@.subrange(from + 1, to as int));
        parse_digits(input, from + 1, to, radix, max)
    } else {
        parse_digits(input, from, to, radix, max)
    }
}

/// Reads a whole string as a number with an optional leading `+`.
pub fn parse_unsigned_str(s: &str, radix: u32, max: u64) -> (r: Option<u64>)
    requires
        radix == 10 || radix == 16,
    ensures
        match unsigned_of(s@, radix as nat, max as nat) {
            Some(v) => r == Some(v as u64),
            None => r is None,
        },
{
    let input = chars_of(s);
    assert(input@.subrange(0, input@.len() as int) =~= s@);
    parse_unsigned(&input, 0, input.len(), radix, max)
}

/// Every field is a decimal number of at most `max`.
pub open spec fn all_unsigned(fields: Seq<Seq<char>>, max: nat) -> bool {
    forall|k: int| 0 <= k < fields.len() ==> (#[trigger] unsigned_of(fields[k], 10, max)) is Some
}

/// The numbers that the fields stand for.
pub open spec fn unsigned_values(fields: Seq<Seq<char>>, max: nat) -> Seq<u32> {
    Seq::new(fields.len(), |k: int| unsigned_of(fields[k], 10, max).unwrap_or(0) as u32)
}

/// Reads every field as a decimal number that fits 32 bits.
pub fn parse_all_unsigned(fields: &Vec<String>) -> (r: Option<Vec<u32>>)
    ensures
        match r {
            Some(values) => all_unsigned(fields.deep_view(), 0xffff_ffff) && values@
                == unsigned_values(fields.deep_view(), 0xffff_ffff),
            None => !all_unsigned(fields.deep_view(), 0xffff_ffff),
        },
{
    let ghost views = fields.deep_view();
    let mut values: Vec<u32> = Vec::new();
    let mut i: usize = 0;
    while i < fields.len()
        invariant
            i <= fields.len(),
            views == fields.deep_view(),
            values@.len() == i,
            forall|k: int| 0 <= k < i ==> (#[trigger] unsigned_of(views[k], 10, 0xffff_ffff)) is Some,
            forall|k: int| 0 <= k < i ==> values@[k] == unsigned_of(views[k], 10, 0xffff_ffff).unwrap_or(0) as u32,
        decreases fields.len() - i,
    {
        assert(views[i as int] == fields@[i as int]@);
        match parse_unsigned_str(fields[i].as_str(), 10, 0xffff_ffff) {
            Some(n) => {
                values.push(n as u32);
            },
            None => {
                return None;
            },
        }
        i += 1;
    }
    assert(values@ =~= unsigned_values(views, 0xffff_ffff));
    Some(values)
}

/// The character that writes the digit `d` (upper case above nine).
pub open spec fn digit_char(d: nat) -> char {
    if d < 10 {
        ((48 + d) as u8) as char
    } else {
        ((55 + d) as u8) as char
    }
}

/// Decimal text of a number, without sign or leading zeros.
pub open spec fn decimal(n: nat) -> Seq<char>
    decreases n,
{
    if n < 10 {
        seq![digit_char(n)]
    } else {
        decimal(n / 10).push(digit_char(n % 10))
    }
}

/// Decimal text of an integer, with `-` in front of a negative one.
pub open spec fn signed_decimal(n: int) -> Seq<char> {
    if n < 0 {
        seq!['-'] + decimal((-n) as nat)
    } else {
        decimal(n as nat)
    }
}

/// Two upper-case hexadecimal digits.
pub open spec fn hex_pair(b: u8) -> Seq<char> {
    seq![digit_char((b / 16) as nat), digit_char((b % 16) as nat)]
}

pub fn to_digit_char(d: u8) -> (r: char)
    requires
        d < 16,
    ensures
        r == digit_char(d as nat),
{
    if d < 10 {
        (48 + d) as char
    } else {
        (55 + d) as char
    }
}

pub fn push_decimal(out: &mut String, n: u64)
    ensures
        final(out)@ == old(out)@ + decimal(n as nat),
    decreases n,
{
    if n >= 10 {
        push_decimal(out, n / 10);
    }
    out.push(to_digit_char((n % 10) as u8));
    assert(final(out)@ =~= old(out)@ + decimal(n as nat));
}

pub fn push_signed_decimal(out: &mut String, n: i64)
    ensures
        final(out)@ == old(out)@ + signed_decimal(n as int),
{
    if n < 0 {
        out.push('-');
        let magnitude: u64 = (-(n as i128)) as u64;
        push_decimal(out, magnitude);
        assert(final(out)@ =~= old(out)@ + signed_decimal(n as int));
    } else {
        push_decimal(out, n as u64);
    }
}

pub fn push_hex_pair(out: &mut String, b: u8)
    ensures
        final(out)@ == old(out)@ + hex_pair(b),
{
    out.push(to_digit_char(b / 16));
    out.push(to_digit_char(b % 16));
    assert(final(out)@ =~= old(out)@ + hex_pair(b));
}

pub fn push_str(out: &mut String, s: &str)
    ensures
        final(out)@ == old(out)@ + s@,
{
    out.append(s);
}

/// Appending is associative.
pub proof fn lemma_concat_assoc(a: Seq<char>, b: Seq<char>, c: Seq<char>)
    ensures
        (a + b) + c == a + (b + c),
{
    assert((a + b) + c =~= a + (b + c));
}

/// Appending nothing changes nothing.
pub proof fn lemma_concat_empty(a: Seq<char>)
    ensures
        a + Seq::<char>::empty() == a,
        Seq::<char>::empty() + a == a,
{
    assert(a + Seq::<char>::empty() =~= a);
    assert(Seq::<char>::empty() + a =~= a);
}

/// The parts one after another, with `sep` between neighbours.
pub open spec fn join(parts: Seq<Seq<char>>, sep: Seq<char>) -> Seq<char>
    decreases parts.len(),
{
    if parts.len() == 0 {
        Seq::empty()
    } else if parts.len() == 1 {
        parts[0]
    } else {
        join(parts.drop_last(), sep) + sep + parts.last()
    }
}

/// The fields one after another, with a space in front of each.
pub open spec fn spaced(fields: Seq<Seq<char>>) -> Seq<char>
    decreases fields.len(),
{
    if fields.len() == 0 {
        Seq::empty()
    } else {
        spaced(fields.drop_last()) + seq![' '] + fields.last()
    }
}

pub fn push_spaced(out: &mut String, fields: &Vec<String>)
    ensures
        final(out)@ == old(out)@ + spaced(fields.deep_view()),
{
    let ghost views = fields.deep_view();
    let mut i: usize = 0;
    assert(views.take(0) =~= Seq::<Seq<char>>::empty());
    while i < fields.len()
        invariant
            i <= fields.len(),
            views == fields.deep_view(),
            out@ == old(out)@ + spaced(views.take(i as int)),
        decreases fields.len() - i,
    {
        assert(views.take(i + 1).drop_last() =~= views.take(i as int));
        assert(views.take(i + 1).last() == fields@[i as int]@);
        out.push(' ');
        out.append(fields[i].as_str());
        assert(out@ =~= old(out)@ + spaced(views.take(i + 1)));
        i += 1;
    }
    assert(views.take(fields.len() as int) =~= views);
}

pub fn push_joined(out: &mut String, parts: &Vec<String>, sep: &str)
    ensures
        final(out)@ == old(out)@ + join(parts.deep_view(), sep@),
{
    let ghost views = parts.deep_view();
    let mut i: usize = 0;
    assert(views.take(0) =~= Seq::<Seq<char>>::empty());
    while i < parts.len()
        invariant
            i <= parts.len(),
            views == parts.deep_view(),
            out@ == old(out)@ + join(views.take(i as int), sep@),
        decreases parts.len() - i,
    {
        assert(views.take(i + 1).drop_last() =~= views.take(i as int));
        assert(views.take(i + 1).last() == parts@[i as int]@);
        if i > 0 {
            out.append(sep);
        }
        out.append(parts[i].as_str());
        assert(out@ =~= old(out)@ + join(views.take(i + 1), sep@));
        i += 1;
    }
    assert(views.take(parts.len() as int) =~= views);
}

} // verus!
