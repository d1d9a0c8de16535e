//! Character-level helpers for path strings.
//!
//! Every function here works on the sequence of `char`s of a string, which is
//! what `s@` denotes for a `&str` or a `String`.

use vstd::prelude::*;
use vstd::string::*;

verus! {

/// `needle` occurs in `hay` starting at index `at`.
pub open spec fn occurs_at(hay: Seq<char>, needle: Seq<char>, at: int) -> bool {
    &&& 0 <= at
    &&& at + needle.len() <= hay.len()
    &&& hay.subrange(at, at + needle.len()) == needle
}

/// `needle` occurs somewhere in `hay`.
pub open spec fn contains_sub(hay: Seq<char>, needle: Seq<char>) -> bool {
    exists|at: int| occurs_at(hay, needle, at)
}

/// `at` is the first place where `needle` occurs in `hay`.
pub open spec fn first_occurrence(hay: Seq<char>, needle: Seq<char>, at: int) -> bool {
    &&& occurs_at(hay, needle, at)
    &&& forall|earlier: int| 0 <= earlier < at ==> !occurs_at(hay, needle, earlier)
}

/// `s` without its longest prefix made of `c` only.
pub open spec fn trim_leading(s: Seq<char>, c: char) -> Seq<char>
    decreases s.len(),
{
    if s.len() > 0 && s[0] == c {
        trim_leading(s.drop_first(), c)
    } else {
        s
    }
}

/// `path` without `root` in front, if it starts with `root`; else `path` itself.
pub open spec fn strip_root(path: Seq<char>, root: Seq<char>) -> Seq<char> {
    if root.is_prefix_of(path) {
        path.skip(root.len() as int)
    } else {
        path
    }
}

/// The part of `path` below `root`: the root is taken off the front where the
/// path starts with it, and then every leading `/`.
pub open spec fn relative_to(path: Seq<char>, root: Seq<char>) -> Seq<char> {
    trim_leading(strip_root(path, root), '/')
}

/// `rel` placed under `root`, with exactly one separator added unless `root`
/// already ends in one.
pub open spec fn join_under(root: Seq<char>, rel: Seq<char>) -> Seq<char> {
    if root.len() > 0 && root.last() == '/' {
        root + rel
    } else {
        root + seq!['/'] + rel
    }
}

/// The characters of `s`, in order.
pub fn to_chars(s: &str) -> (chars: Vec<char>)
    ensures
        chars@ == s@,
{
    let mut chars: Vec<char> = Vec::new();
    for c in it: s.chars()
        invariant
            it.seq() == s@,
            chars@ == s@.take(it.index()),
    {
        chars.push(c);
    }
    chars
}

/// Whether `s` begins with `prefix`.
pub fn starts_with(s: &Vec<char>, prefix: &Vec<char>) -> (yes: bool)
    ensures
        yes == prefix@.is_prefix_of(s@),
{
    if prefix.len() > s.len() {
        return false;
    }
    let mut i: usize = 0;
    while i < prefix.len()
        invariant
            i <= prefix@.len() <= s@.len(),
            s@.subrange(0, i as int) == prefix@.subrange(0, i as int),
        decreases prefix@.len() - i,
    {
        if s[i] != prefix[i] {
            proof {
                if prefix@.is_prefix_of(s@) {
                    assert(s@.subrange(0, prefix@.len() as int)[i as int] == prefix@[i as int]);
                }
            }
            return false;
        }
        assert(s@.subrange(0, i + 1) == s@.subrange(0, i as int).push(s@[i as int]));
        assert(prefix@.subrange(0, i + 1) == prefix@.subrange(0, i as int).push(prefix@[i as int]));
        i += 1;
    }
    assert(prefix@.subrange(0, prefix@.len() as int) == prefix@);
    true
}

/// Whether `needle` stands in `hay` at index `at`.
pub fn matches_at(hay: &Vec<char>, needle: &Vec<char>, at: usize) -> (yes: bool)
    ensures
        yes == occurs_at(hay@, needle@, at as int),
{
    if needle.len() > hay.len() || at > hay.len() - needle.len() {
        return false;
    }
    let mut i: usize = 0;
    while i < needle.len()
        invariant
            i <= needle@.len(),
            at + needle@.len() <= hay@.len() <= usize::MAX,
            hay@.subrange(at as int, at + i) == needle@.subrange(0, i as int),
        decreases needle@.len() - i,
    {
        if hay[at + i] != needle[i] {
            proof {
                if occurs_at(hay@, needle@, at as int) {
                    assert(hay@.subrange(at as int, at + needle@.len())[i as int] == needle@[i as int]);
                }
            }
            return false;
        }
        assert(hay@.subrange(at as int, at + i + 1) == hay@.subrange(at as int, at + i).push(
            hay@[at + i],
        ));
        assert(needle@.subrange(0, i + 1) == needle@.subrange(0, i as int).push(needle@[i as int]));
        i += 1;
    }
    assert(needle@.subrange(0, needle@.len() as int) == needle@);
    true
}

/// Index of the first occurrence of `needle` in `hay`, if there is one.
pub fn find_sub(hay: &Vec<char>, needle: &Vec<char>) -> (found: Option<usize>)
    ensures
        match found {
            Some(at) => first_occurrence(hay@, needle@, at as int),
            None => !contains_sub(hay@, needle@),
        },
{
    if needle.len() > hay.len() {
        return None;
    }
    let last: usize = hay.len() - needle.len();
    let mut at: usize = 0;
    loop
        invariant
            last == hay@.len() - needle@.len(),
            at <= last,
            forall|earlier: int| 0 <= earlier < at ==> !occurs_at(hay@, needle@, earlier),
        decreases last - at,
    {
        if matches_at(hay, needle, at) {
            return Some(at);
        }
        if at == last {
            return None;
        }
        at += 1;
    }
}

/// Index of the first `c` in `s` at or after `from`, if there is one.
pub fn find_char(s: &Vec<char>, c: char, from: usize) -> (found: Option<usize>)
    ensures
        match found {
            Some(at) => {
                &&& from <= at < s@.len()
                &&& s@[at as int] == c
                &&& forall|j: int| from <= j < at ==> s@[j] != c
            },
            None => forall|j: int| from <= j < s@.len() ==> s@[j] != c,
        },
{
    let mut at: usize = from;
    while at < s.len()
        invariant
            from <= at,
            forall|j: int| from <= j < at && j < s@.len() ==> s@[j] != c,
        decreases s@.len() - at,
    {
        if s[at] == c {
            return Some(at);
        }
        at += 1;
    }
    None
}

/// Trimming a string that starts with `c` is trimming what follows it.
pub proof fn lemma_trim_leading_skip(s: Seq<char>, c: char, k: int)
    requires
        0 <= k <= s.len(),
        forall|j: int| 0 <= j < k ==> s[j] == c,
    ensures
        trim_leading(s, c) == trim_leading(s.skip(k), c),
    decreases k,
{
    if k > 0 {
        assert(s.drop_first() == s.skip(1));
        assert(s.skip(1).skip(k - 1) == s.skip(k));
        lemma_trim_leading_skip(s.skip(1), c, k - 1);
    } else {
        assert(s.skip(0) == s);
    }
}

/// What `trim_leading` returns does not start with the trimmed character.
pub proof fn lemma_trim_leading_done(s: Seq<char>, c: char)
    ensures
        trim_leading(s, c).len() > 0 ==> trim_leading(s, c)[0] != c,
        trim_leading(trim_leading(s, c), c) == trim_leading(s, c),
    decreases s.len(),
{
    if s.len() > 0 && s[0] == c {
        lemma_trim_leading_done(s.drop_first(), c);
    }
}

/// The part of `path` below `root`.
pub fn relative_path(path: &str, root: &str) -> (rel: String)
    ensures
        rel@ == relative_to(path@, root@),
{
    let p = to_chars(path);
    let r = to_chars(root);
    let start: usize = if starts_with(&p, &r) {
        r.len()
    } else {
        0
    };
    assert(strip_root(path@, root@) == p@.skip(start as int));
    let mut k: usize = start;
    while k < p.len() && p[k] == '/'
        invariant
            start <= k <= p@.len(),
            forall|j: int| start <= j < k ==> p@[j] == '/',
        decreases p@.len() - k,
    {
        k += 1;
    }
    proof {
        let stripped = p@.skip(start as int);
        lemma_trim_leading_skip(stripped, '/', k - start);
        assert(stripped.skip(k - start) == p@.skip(k as int));
        assert(p@.skip(k as int) == p@.subrange(k as int, p@.len() as int));
    }
    String::from_str(path.substring_char(k, p.len()))
}

/// `rel` placed under `root`.
pub fn join_path(root: &str, rel: &str) -> (joined: String)
    ensures
        joined@ == join_under(root@, rel@),
{
    let r = to_chars(root);
    let mut joined = String::from_str(root);
    if r.len() == 0 || r[r.len() - 1] != '/' {
        proof {
            reveal_strlit("/");
            assert("/"@ == seq!['/']);
        }
        joined.append("/");
    }
    joined.append(rel);
    joined
}

/// The lower-case hexadecimal digit for a value below 16.
pub open spec fn hex_digit(nibble: u8) -> char {
    if nibble == 0 {
        '0'
    } else if nibble == 1 {
        '1'
    } else if nibble == 2 {
        '2'
    } else if nibble == 3 {
        '3'
    } else if nibble == 4 {
        '4'
    } else if nibble == 5 {
        '5'
    } else if nibble == 6 {
        '6'
    } else if nibble == 7 {
        '7'
    } else if nibble == 8 {
        '8'
    } else if nibble == 9 {
        '9'
    } else if nibble == 10 {
        'a'
    } else if nibble == 11 {
        'b'
    } else if nibble == 12 {
        'c'
    } else if nibble == 13 {
        'd'
    } else if nibble == 14 {
        'e'
    } else {
        'f'
    }
}

/// Appends the hexadecimal digit of `nibble` to `text`.
pub(crate) fn push_hex_digit(text: &mut String, nibble: u8)
    requires
        nibble < 16,
    ensures
        final(text)@ == old(text)@.push(hex_digit(nibble)),
{
    proof {
        reveal_strlit("0");
        reveal_strlit("1");
        reveal_strlit("2");
        reveal_strlit("3");
        reveal_strlit("4");
        reveal_strlit("5");
        reveal_strlit("6");
        reveal_strlit("7");
        reveal_strlit("8");
        reveal_strlit("9");
        reveal_strlit("a");
        reveal_strlit("b");
        reveal_strlit("c");
        reveal_strlit("d");
        reveal_strlit("e");
        reveal_strlit("f");
    }
    let digit: &str = if nibble == 0 {
        "0"
    } else if nibble == 1 {
        "1"
    } else if nibble == 2 {
        "2"
    } else if nibble == 3 {
        "3"
    } else if nibble == 4 {
        "4"
    } else if nibble == 5 {
        "5"
    } else if nibble == 6 {
        "6"
    } else if nibble == 7 {
        "7"
    } else if nibble == 8 {
        "8"
    } else if nibble == 9 {
        "9"
    } else if nibble == 10 {
        "a"
    } else if nibble == 11 {
        "b"
    } else if nibble == 12 {
        "c"
    } else if nibble == 13 {
        "d"
    } else if nibble == 14 {
        "e"
    } else {
        "f"
    };
    assert(digit@ =~= seq![hex_digit(nibble)]);
    let ghost before = text@;
    text.append(digit);
    assert(text@ =~= before.push(hex_digit(nibble)));
}

/// `n` in decimal, without leading zeros.
pub open spec fn decimal_digits(n: nat) -> Seq<char>
    decreases n,
{
    if n < 10 {
        seq![hex_digit(n as u8)]
    } else {
        decimal_digits(n / 10).push(hex_digit((n % 10) as u8))
    }
}

/// Appends `n` in decimal to `text`.
pub fn push_decimal(text: &mut String, n: usize)
    ensures
        final(text)@ == old(text)@ + decimal_digits(n as nat),
    decreases n,
{
    let ghost before = text@;
    if n >= 10 {
        push_decimal(text, n / 10);
        push_hex_digit(text, (n % 10) as u8);
        assert(text@ =~= before + decimal_digits(n as nat));
    } else {
        push_hex_digit(text, n as u8);
        assert(text@ =~= before + decimal_digits(n as nat));
    }
}

/// `s` without its longest suffix made of `c` only.
pub open spec fn trim_trailing(s: Seq<char>, c: char) -> Seq<char>
    decreases s.len(),
{
    if s.len() > 0 && s.last() == c {
        trim_trailing(s.drop_last(), c)
    } else {
        s
    }
}

/// What follows the last `c` in `s`; all of `s` where it holds no `c`.
pub open spec fn after_last(s: Seq<char>, c: char) -> Seq<char>
    decreases s.len(),
{
    if s.len() == 0 || s.last() == c {
        Seq::empty()
    } else {
        after_last(s.drop_last(), c).push(s.last())
    }
}

/// The last component of `path`: what stands between the last `/` and the
/// end, trailing `/` set aside.
pub open spec fn final_component(path: Seq<char>) -> Seq<char> {
    after_last(trim_trailing(path, '/'), '/')
}

/// The name of the file or directory that `path` leads to. There is none
/// where the last component is empty, `.` or `..`.
pub open spec fn file_name_of(path: Seq<char>) -> Option<Seq<char>> {
    let name = final_component(path);
    if name.len() == 0 || name == seq!['.'] || name == seq!['.', '.'] {
        None
    } else {
        Some(name)
    }
}

/// Trimming a string that ends in `c`s is cutting them off.
pub proof fn lemma_trim_trailing_take(s: Seq<char>, c: char, end: int)
    requires
        0 <= end <= s.len(),
        forall|j: int| end <= j < s.len() ==> s[j] == c,
        end > 0 ==> s[end - 1] != c,
    ensures
        trim_trailing(s, c) == s.take(end),
    decreases s.len() - end,
{
    if end < s.len() {
        assert(s.drop_last().take(end) == s.take(end));
        lemma_trim_trailing_take(s.drop_last(), c, end);
    } else {
        assert(s.take(end) == s);
    }
}

/// What follows the last `c` starts right behind it.
pub proof fn lemma_after_last_subrange(s: Seq<char>, c: char, start: int)
    requires
        0 <= start <= s.len(),
        forall|j: int| start <= j < s.len() ==> s[j] != c,
        start > 0 ==> s[start - 1] == c,
    ensures
        after_last(s, c) == s.subrange(start, s.len() as int),
    decreases s.len() - start,
{
    if start < s.len() {
        lemma_after_last_subrange(s.drop_last(), c, start);
        assert(s.drop_last().subrange(start, s.len() - 1).push(s.last()) == s.subrange(
            start,
            s.len() as int,
        ));
    } else {
        assert(s.subrange(start, s.len() as int) == Seq::<char>::empty());
    }
}

/// The name of the file or directory that `path` leads to, if it has one.
pub fn file_name(path: &str) -> (name: Option<String>)
    ensures
        match name {
            Some(text) => file_name_of(path@) == Some(text@),
            None => file_name_of(path@) is None,
        },
{
    let chars = to_chars(path);
    let mut end: usize = chars.len();
    while end > 0 && chars[end - 1] == '/'
        invariant
            end <= chars@.len(),
            forall|j: int| end <= j < chars@.len() ==> chars@[j] == '/',
        decreases end,
    {
        end -= 1;
    }
    let mut start: usize = end;
    while start > 0 && chars[start - 1] != '/'
        invariant
            start <= end <= chars@.len(),
            forall|j: int| start <= j < end ==> chars@[j] != '/',
        decreases start,
    {
        start -= 1;
    }
    proof {
        lemma_trim_trailing_take(chars@, '/', end as int);
        let trimmed = chars@.take(end as int);
        lemma_after_last_subrange(trimmed, '/', start as int);
        assert(trimmed.subrange(start as int, end as int) == chars@.subrange(
            start as int,
            end as int,
        ));
        assert(final_component(path@) == chars@.subrange(start as int, end as int));
    }
    let ghost component = chars@.subrange(start as int, end as int);
    let len = end - start;
    if len == 0 {
        return None;
    }
    if len == 1 && chars[start] == '.' {
        assert(component =~= seq!['.']);
        return None;
    }
    if len == 2 && chars[start] == '.' && chars[start + 1] == '.' {
        assert(component =~= seq!['.', '.']);
        return None;
    }
    proof {
        if component == seq!['.'] {
            assert(component[0] == '.');
        }
        if component == seq!['.', '.'] {
            assert(component[0] == '.');
            assert(component[1] == '.');
        }
    }
    Some(String::from_str(path.substring_char(start, end)))
}

/// Whether the string `s` begins with `prefix`.
pub fn str_starts_with(s: &str, prefix: &str) -> (yes: bool)
    ensures
        yes == prefix@.is_prefix_of(s@),
{
    let chars = to_chars(s);
    let lead = to_chars(prefix);
    starts_with(&chars, &lead)
}

/// Whether `c` occurs in the string `s`.
pub fn str_contains_char(s: &str, c: char) -> (yes: bool)
    ensures
        yes == s@.contains(c),
{
    let chars = to_chars(s);
    match find_char(&chars, c, 0) {
        Some(at) => {
            assert(chars@[at as int] == c);
            true
        },
        None => false,
    }
}

/// Whether `needle` occurs in the string `s`.
pub fn str_contains(s: &str, needle: &str) -> (yes: bool)
    ensures
        yes == contains_sub(s@, needle@),
{
    let chars = to_chars(s);
    let wanted = to_chars(needle);
    find_sub(&chars, &wanted).is_some()
}

/// Whether the string `s` ends with `c`.
pub fn str_ends_with_char(s: &str, c: char) -> (yes: bool)
    ensures
        yes == (s@.len() > 0 && s@.last() == c),
{
    let chars = to_chars(s);
    chars.len() > 0 && chars[chars.len() - 1] == c
}

/// The string `s` without the `c`s at its end.
pub fn str_trim_trailing(s: &str, c: char) -> (trimmed: String)
    ensures
        trimmed@ == trim_trailing(s@, c),
{
    let chars = to_chars(s);
    let mut end: usize = chars.len();
    while end > 0 && chars[end - 1] == c
        invariant
            end <= chars@.len(),
            forall|j: int| end <= j < chars@.len() ==> chars@[j] == c,
        decreases end,
    {
        end -= 1;
    }
    proof {
        lemma_trim_trailing_take(chars@, c, end as int);
        assert(chars@.take(end as int) == chars@.subrange(0, end as int));
    }
    String::from_str(s.substring_char(0, end))
}

/// The string `s` without the `c`s at its start.
pub fn str_trim_leading(s: &str, c: char) -> (trimmed: String)
    ensures
        trimmed@ == trim_leading(s@, c),
{
    let chars = to_chars(s);
    let mut start: usize = 0;
    while start < chars.len() && chars[start] == c
        invariant
            start <= chars@.len(),
            forall|j: int| 0 <= j < start ==> chars@[j] == c,
        decreases chars@.len() - start,
    {
        start += 1;
    }
    proof {
        lemma_trim_leading_skip(chars@, c, start as int);
        assert(chars@.skip(start as int) == chars@.subrange(start as int, chars@.len() as int));
    }
    String::from_str(s.substring_char(start, chars.len()))
}

} // verus!
