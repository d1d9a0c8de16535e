//! Reading the text that external tools print: lines, fields and numbers.

use vstd::prelude::*;

verus! {

/// `c` is white space, as Unicode defines it.
pub open spec fn is_space(c: char) -> bool {
    let code = c as u32;
    ||| 0x09 <= code <= 0x0d
    ||| code == 0x20
    ||| code == 0x85
    ||| code == 0xa0
    ||| code == 0x1680
    ||| 0x2000 <= code <= 0x200a
    ||| code == 0x2028
    ||| code == 0x2029
    ||| code == 0x202f
    ||| code == 0x205f
    ||| code == 0x3000
}

/// Whether `c` is white space.
pub fn is_whitespace(c: char) -> (yes: bool)
    ensures
        yes == is_space(c),
{
    let code = c as u32;
    (0x09 <= code && code <= 0x0d) || code == 0x20 || code == 0x85 || code == 0xa0 || code == 0x1680
        || (0x2000 <= code && code <= 0x200a) || code == 0x2028 || code == 0x2029 || code == 0x202f
        || code == 0x205f || code == 0x3000
}

/// Collects the characters into a `String` with `String::from_iter`.
/// Trusted: the string holds these characters, in order.
#[verifier::external_body]
pub(crate) fn string_of(chars: &Vec<char>) -> (text: String)
    ensures
        text@ == chars@,
{
    chars.iter().collect()
}

/// The characters `chars[start..end]`.
pub(crate) fn copy_range(chars: &Vec<char>, start: usize, end: usize) -> (part: Vec<char>)
    requires
        start <= end <= chars@.len(),
    ensures
        part@ == chars@.subrange(start as int, end as int),
{
    let mut part: Vec<char> = Vec::new();
    let mut i: usize = start;
    while i < end
        invariant
            start <= i <= end <= chars@.len(),
            part@ == chars@.subrange(start as int, i as int),
        decreases end - i,
    {
        part.push(chars[i]);
        assert(chars@.subrange(start as int, i + 1) == chars@.subrange(start as int, i as int).push(
            chars@[i as int],
        ));
        i += 1;
    }
    part
}

/// `s` ends in the middle of a line: it is not empty and does not end with a
/// line feed.
pub open spec fn line_open(s: Seq<char>) -> bool {
    s.len() > 0 && s.last() != '\n'
}

/// `line` without a carriage return at its end.
pub open spec fn without_return(line: Seq<char>) -> Seq<char> {
    if line.len() > 0 && line.last() == '\r' {
        line.drop_last()
    } else {
        line
    }
}

/// The lines of `s`. A line ends at a line feed, which does not belong to it,
/// nor does a carriage return directly before the line feed. What follows
/// the last line feed is a line too, unless it is empty.
pub open spec fn lines(s: Seq<char>) -> Seq<Seq<char>>
    decreases s.len(),
{
    if s.len() == 0 {
        Seq::empty()
    } else {
        let before = s.drop_last();
        let earlier = lines(before);
        if s.last() == '\n' {
            if line_open(before) {
                earlier.drop_last().push(without_return(earlier.last()))
            } else {
                earlier.push(Seq::empty())
            }
        } else {
            if line_open(before) {
                earlier.drop_last().push(earlier.last().push(s.last()))
            } else {
                earlier.push(seq![s.last()])
            }
        }
    }
}

/// The sequences that `parts` hold.
pub open spec fn views(parts: Seq<Vec<char>>) -> Seq<Seq<char>> {
    parts.map_values(|p: Vec<char>| p@)
}

/// Splits `text` into its lines.
pub fn split_lines(text: &Vec<char>) -> (found: Vec<Vec<char>>)
    ensures
        views(found@) == lines(text@),
{
    let mut found: Vec<Vec<char>> = Vec::new();
    let mut start: usize = 0;
    let mut i: usize = 0;
    assert(text@.take(0) =~= Seq::<char>::empty());
    assert(views(found@) =~= Seq::<Seq<char>>::empty());
    while i < text.len()
        invariant
            start <= i <= text@.len(),
            line_open(text@.take(i as int)) == (start < i),
            !line_open(text@.take(i as int)) ==> views(found@) == lines(text@.take(i as int)),
            line_open(text@.take(i as int)) ==> views(found@).push(
                text@.subrange(start as int, i as int),
            ) == lines(text@.take(i as int)),
        decreases text@.len() - i,
    {
        let c = text[i];
        proof {
            let now = text@.take(i + 1);
            assert(now.drop_last() == text@.take(i as int));
            assert(now.last() == c);
        }
        let ghost before = text@.take(i as int);
        let ghost earlier = lines(before);
        let ghost done = views(found@);
        if c == '\n' {
            if start < i {
                let end = if text[i - 1] == '\r' {
                    i - 1
                } else {
                    i
                };
                let line = copy_range(text, start, end);
                proof {
                    let open = text@.subrange(start as int, i as int);
                    assert(earlier == done.push(open));
                    assert(earlier.last() == open);
                    assert(earlier.drop_last() =~= done);
                    assert(open.last() == text@[i - 1]);
                    assert(line@ =~= without_return(open));
                    assert(views(found@.push(line)) =~= done.push(line@));
                }
                found.push(line);
            } else {
                let line: Vec<char> = Vec::new();
                proof {
                    assert(line@ =~= Seq::<char>::empty());
                    assert(views(found@.push(line)) =~= done.push(line@));
                }
                found.push(line);
            }
            start = i + 1;
        } else {
            proof {
                if start < i {
                    let open = text@.subrange(start as int, i as int);
                    assert(earlier == done.push(open));
                    assert(earlier.drop_last() =~= done);
                    assert(open.push(c) =~= text@.subrange(start as int, i + 1));
                } else {
                    assert(seq![c] =~= text@.subrange(start as int, i + 1));
                }
            }
        }
        i += 1;
    }
    assert(text@.take(text@.len() as int) == text@);
    if start < i {
        let line = copy_range(text, start, i);
        proof {
            assert(views(found@.push(line)) =~= views(found@).push(line@));
        }
        found.push(line);
    }
    found
}

/// The fields of `s`: its longest runs of characters that are not white
/// space, in order.
pub open spec fn fields(s: Seq<char>) -> Seq<Seq<char>>
    decreases s.len(),
{
    if s.len() == 0 {
        Seq::empty()
    } else {
        let before = s.drop_last();
        let earlier = fields(before);
        if is_space(s.last()) {
            earlier
        } else if before.len() > 0 && !is_space(before.last()) {
            earlier.drop_last().push(earlier.last().push(s.last()))
        } else {
            earlier.push(seq![s.last()])
        }
    }
}

/// `s` ends in the middle of a field.
pub open spec fn field_open(s: Seq<char>) -> bool {
    s.len() > 0 && !is_space(s.last())
}

/// Splits `line` into its fields.
pub fn split_fields(line: &Vec<char>) -> (found: Vec<Vec<char>>)
    ensures
        views(found@) == fields(line@),
{
    let mut found: Vec<Vec<char>> = Vec::new();
    let mut start: usize = 0;
    let mut i: usize = 0;
    assert(line@.take(0) =~= Seq::<char>::empty());
    assert(views(found@) =~= Seq::<Seq<char>>::empty());
    while i < line.len()
        invariant
            start <= i <= line@.len(),
            field_open(line@.take(i as int)) == (start < i),
            !field_open(line@.take(i as int)) ==> views(found@) == fields(line@.take(i as int)),
            field_open(line@.take(i as int)) ==> views(found@).push(
                line@.subrange(start as int, i as int),
            ) == fields(line@.take(i as int)),
        decreases line@.len() - i,
    {
        let c = line[i];
        proof {
            let now = line@.take(i + 1);
            assert(now.drop_last() == line@.take(i as int));
            assert(now.last() == c);
        }
        let ghost before = line@.take(i as int);
        let ghost earlier = fields(before);
        let ghost done = views(found@);
        if is_whitespace(c) {
            if start < i {
                let field = copy_range(line, start, i);
                proof {
                    assert(views(found@.push(field)) =~= done.push(field@));
                }
                found.push(field);
            }
            start = i + 1;
        } else {
            proof {
                if start < i {
                    let open = line@.subrange(start as int, i as int);
                    assert(earlier == done.push(open));
                    assert(earlier.drop_last() =~= done);
                    assert(open.push(c) =~= line@.subrange(start as int, i + 1));
                } else {
                    assert(seq![c] =~= line@.subrange(start as int, i + 1));
                }
            }
        }
        i += 1;
    }
    assert(line@.take(line@.len() as int) == line@);
    if start < i {
        let field = copy_range(line, start, i);
        proof {
            assert(views(found@.push(field)) =~= views(found@).push(field@));
        }
        found.push(field);
    }
    found
}

/// `c` is one of the digits `0` to `9`.
pub open spec fn is_digit(c: char) -> bool {
    0x30 <= c as u32 <= 0x39
}

/// Every character of `s` is a digit.
pub open spec fn all_digits(s: Seq<char>) -> bool {
    forall|i: int| 0 <= i < s.len() ==> is_digit(#[trigger] s[i])
}

/// The number that the digits `s` write in decimal.
pub open spec fn digits_value(s: Seq<char>) -> nat
    decreases s.len(),
{
    if s.len() == 0 {
        0
    } else {
        (digits_value(s.drop_last()) * 10 + (s.last() as u32 - 0x30)) as nat
    }
}

/// `s` without a plus sign in front.
pub open spec fn unsigned_digits(s: Seq<char>) -> Seq<char> {
    if s.len() > 0 && s[0] == '+' {
        s.drop_first()
    } else {
        s
    }
}

/// The number that `s` writes: one or more decimal digits, with or without a
/// plus sign in front, of a value that fits in 64 bits. Anything else writes
/// no number.
pub open spec fn unsigned_number(s: Seq<char>) -> Option<u64> {
    let digits = unsigned_digits(s);
    if digits.len() > 0 && all_digits(digits) && digits_value(digits) <= u64::MAX {
        Some(digits_value(digits) as u64)
    } else {
        None
    }
}

/// More digits do not write a smaller number.
pub proof fn lemma_digits_value_grows(s: Seq<char>, n: int)
    requires
        0 <= n <= s.len(),
        all_digits(s),
    ensures
        digits_value(s.take(n)) <= digits_value(s),
    decreases s.len() - n,
{
    if n < s.len() {
        assert(s.drop_last().take(n) == s.take(n));
        assert forall|i: int| 0 <= i < s.drop_last().len() implies is_digit(
            #[trigger] s.drop_last()[i],
        ) by {
            assert(s.drop_last()[i] == s[i]);
        }
        lemma_digits_value_grows(s.drop_last(), n);
        assert(is_digit(s[s.len() - 1]));
    } else {
        assert(s.take(n) == s);
    }
}

/// Reads `text` as a number.
pub fn parse_u64(text: &Vec<char>) -> (number: Option<u64>)
    ensures
        number == unsigned_number(text@),
{
    let len = text.len();
    let first: usize = if len > 0 && text[0] == '+' {
        1
    } else {
        0
    };
    let ghost digits = unsigned_digits(text@);
    assert(digits =~= text@.subrange(first as int, len as int));
    if first == len {
        return None;
    }
    let mut value: u64 = 0;
    let mut i: usize = first;
    assert(digits.take(0) =~= Seq::<char>::empty());
    while i < len
        invariant
            first <= i <= len,
            len == text@.len(),
            digits == unsigned_digits(text@),
            digits == text@.subrange(first as int, len as int),
            all_digits(digits.take(i - first)),
            value == digits_value(digits.take(i - first)),
        decreases len - i,
    {
        let c = text[i];
        let code = c as u32;
        assert(digits[i - first] == c);
        if code < 0x30 || code > 0x39 {
            assert(!is_digit(digits[i - first]));
            return None;
        }
        let digit = (code - 0x30) as u64;
        proof {
            let now = digits.take(i - first + 1);
            assert(now.drop_last() == digits.take(i - first));
            assert(now.last() == c);
            assert forall|k: int| 0 <= k < now.len() implies is_digit(#[trigger] now[k]) by {
                if k < now.len() - 1 {
                    assert(now[k] == digits.take(i - first)[k]);
                }
            }
            assert(digits_value(now) == value * 10 + digit);
            if value * 10 + digit > u64::MAX {
                if all_digits(digits) {
                    lemma_digits_value_grows(digits, i - first + 1);
                }
            }
        }
        if value > (u64::MAX - digit) / 10 {
            return None;
        }
        value = value * 10 + digit;
        i += 1;
    }
    assert(digits.take(len - first) == digits);
    Some(value)
}

/// The fields put together with one blank between each two.
pub open spec fn joined(parts: Seq<Seq<char>>) -> Seq<char>
    decreases parts.len(),
{
    if parts.len() == 0 {
        Seq::empty()
    } else if parts.len() == 1 {
        parts[0]
    } else {
        joined(parts.drop_last()) + seq![' '] + parts.last()
    }
}

/// Puts the fields from index `from` on together, with one blank between
/// each two.
pub(crate) fn join_from(parts: &Vec<Vec<char>>, from: usize) -> (text: Vec<char>)
    requires
        from <= parts@.len(),
    ensures
        text@ == joined(views(parts@).skip(from as int)),
{
    let ghost rest = views(parts@).skip(from as int);
    let mut text: Vec<char> = Vec::new();
    let mut i: usize = from;
    assert(rest.take(0) =~= Seq::<Seq<char>>::empty());
    while i < parts.len()
        invariant
            from <= i <= parts@.len(),
            rest == views(parts@).skip(from as int),
            text@ == joined(rest.take(i - from)),
        decreases parts@.len() - i,
    {
        let ghost before = text@;
        if i > from {
            text.push(' ');
        }
        let part = &parts[i];
        let ghost spaced = text@;
        let mut k: usize = 0;
        while k < part.len()
            invariant
                k <= part@.len(),
                text@ == spaced + part@.take(k as int),
            decreases part@.len() - k,
        {
            text.push(part[k]);
            assert(spaced + part@.take(k + 1) =~= (spaced + part@.take(k as int)).push(part@[k as int]));
            k += 1;
        }
        proof {
            assert(part@.take(part@.len() as int) == part@);
            let now = rest.take(i - from + 1);
            assert(now.drop_last() == rest.take(i - from));
            assert(now.last() == part@);
            if i > from {
                assert(spaced =~= before + seq![' ']);
            } else {
                assert(now[0] == part@);
                assert(text@ =~= part@);
            }
        }
        i += 1;
    }
    assert(rest.take(parts@.len() - from) == rest);
    text
}

} // verus!
