//! Verified helpers over `&str` and `String`: equality, search, and the
//! decimal and boolean literal parsers that the attribute policy uses.

use vstd::prelude::*;

verus! {

/// Compares two string slices character by character.
pub fn str_eq(a: &str, b: &str) -> (r: bool)
    ensures
        r == (a@ == b@),
{
    let alen = a.unicode_len();
    let blen = b.unicode_len();
    if alen != blen {
        assert(a@ != b@) by {
            assert(a@.len() != b@.len());
        }
        return false;
    }
    let mut i: usize = 0;
    while i < alen
        invariant
            alen == a@.len(),
            blen == b@.len(),
            alen == blen,
            i <= alen,
            forall|j: int| 0 <= j < i ==> a@[j] == b@[j],
        decreases alen - i,
    {
        if a.get_char(i) != b.get_char(i) {
            assert(a@ != b@) by {
                assert(a@[i as int] != b@[i as int]);
            }
            return false;
        }
        i += 1;
    }
    proof {
        assert(a@ =~= b@);
    }
    true
}

/// Whether the character sequence contains `c`.
pub fn contains_char(s: &str, c: char) -> (r: bool)
    ensures
        r == s@.contains(c),
{
    let len = s.unicode_len();
    let mut i: usize = 0;
    while i < len
        invariant
            len == s@.len(),
            i <= len,
            forall|j: int| 0 <= j < i ==> s@[j] != c,
        decreases len - i,
    {
        if s.get_char(i) == c {
            assert(s@.contains(c)) by {
                assert(s@[i as int] == c);
            }
            return true;
        }
        i += 1;
    }
    assert(!s@.contains(c)) by {
        if s@.contains(c) {
            let j = choose|j: int| 0 <= j < s@.len() && s@[j] == c;
            assert(s@[j] != c);
        }
    }
    false
}

/// Whether `s` starts with the prefix `p`.
pub fn starts_with(s: &str, p: &str) -> (r: bool)
    ensures
        r == (p@.len() <= s@.len() && s@.subrange(0, p@.len() as int) == p@),
{
    let slen = s.unicode_len();
    let plen = p.unicode_len();
    if plen > slen {
        return false;
    }
    let mut i: usize = 0;
    while i < plen
        invariant
            slen == s@.len(),
            plen == p@.len(),
            plen <= slen,
            i <= plen,
            forall|j: int| 0 <= j < i ==> s@[j] == p@[j],
        decreases plen - i,
    {
        if s.get_char(i) != p.get_char(i) {
            assert(s@.subrange(0, p@.len() as int) != p@) by {
                assert(s@.subrange(0, p@.len() as int)[i as int] == s@[i as int]);
            }
            return false;
        }
        i += 1;
    }
    proof {
        assert(s@.subrange(0, p@.len() as int) =~= p@);
    }
    true
}

/// Whether `s` ends with the suffix `p`.
pub fn ends_with(s: &str, p: &str) -> (r: bool)
    ensures
        r == (p@.len() <= s@.len() && s@.subrange(s@.len() - p@.len(), s@.len() as int)
            == p@),
{
    let slen = s.unicode_len();
    let plen = p.unicode_len();
    if plen > slen {
        return false;
    }
    let offset = slen - plen;
    let mut i: usize = 0;
    while i < plen
        invariant
            slen == s@.len(),
            plen == p@.len(),
            plen <= slen,
            offset == slen - plen,
            i <= plen,
            forall|j: int| 0 <= j < i ==> s@[offset + j] == p@[j],
        decreases plen - i,
    {
        if s.get_char(offset + i) != p.get_char(i) {
            assert(s@.subrange(s@.len() - p@.len(), s@.len() as int) != p@) by {
                assert(s@.subrange(s@.len() - p@.len(), s@.len() as int)[i as int]
                    == s@[offset + i]);
            }
            return false;
        }
        i += 1;
    }
    proof {
        assert(s@.subrange(s@.len() - p@.len(), s@.len() as int) =~= p@);
    }
    true
}

/// The substring of `s` from `from` (inclusive) to `to` (exclusive),
/// as an owned string.
pub fn substring(s: &str, from: usize, to: usize) -> (r: String)
    requires
        from <= to <= s@.len(),
    ensures
        r@ == s@.subrange(from as int, to as int),
{
    let sub = s.substring_char(from, to);
    sub.to_owned()
}

/// Whether `c` is a decimal digit.
pub open spec fn spec_is_digit(c: char) -> bool {
    '0' <= c && c <= '9'
}

/// The numeric value of a decimal digit.
pub open spec fn spec_digit_value(c: char) -> int {
    c as int - '0' as int
}

/// The integer denoted by a sequence of decimal digits, most
/// significant first.
pub open spec fn spec_digits_value(s: Seq<char>) -> int
    decreases s.len(),
{
    if s.len() == 0 {
        0
    } else {
        spec_digits_value(s.drop_last()) * 10 + spec_digit_value(s.last())
    }
}

/// Whether every character of `s` is a decimal digit.
pub open spec fn spec_all_digits(s: Seq<char>) -> bool {
    forall|i: int| 0 <= i < s.len() ==> spec_is_digit(#[trigger] s[i])
}

/// The digit run of an integer literal: what follows an optional
/// leading sign.
pub open spec fn spec_digit_run(s: Seq<char>) -> Seq<char> {
    if s.len() > 0 && (s[0] == '-' || s[0] == '+') {
        s.drop_first()
    } else {
        s
    }
}

/// Whether `s` is a well-formed decimal integer literal: an optional
/// sign followed by at least one digit.
pub open spec fn spec_is_int_literal(s: Seq<char>) -> bool {
    spec_digit_run(s).len() > 0 && spec_all_digits(spec_digit_run(s))
}

/// Whether the literal `s` is negative.
pub open spec fn spec_is_negative(s: Seq<char>) -> bool {
    s.len() > 0 && s[0] == '-'
}

/// The mathematical value of the integer literal `s`.
pub open spec fn spec_int_literal_value(s: Seq<char>) -> int {
    if spec_is_negative(s) {
        -spec_digits_value(spec_digit_run(s))
    } else {
        spec_digits_value(spec_digit_run(s))
    }
}

proof fn lemma_digits_value_bounds(s: Seq<char>)
    requires
        spec_all_digits(s),
    ensures
        0 <= spec_digits_value(s),
    decreases s.len(),
{
    if s.len() > 0 {
        lemma_digits_value_bounds(s.drop_last());
    }
}

/// Parses the digit run `s[from..]` as an unsigned decimal number,
/// returning `None` when a character is not a digit or the value
/// exceeds `bound`.
fn parse_digits(s: &str, from: usize, bound: u64) -> (r: Option<u64>)
    requires
        from <= s@.len(),
    ensures
        match r {
            Some(v) => {
                &&& spec_all_digits(s@.skip(from as int))
                &&& v == spec_digits_value(s@.skip(from as int))
                &&& v <= bound
            },
            None => !(spec_all_digits(s@.skip(from as int)) && spec_digits_value(
                s@.skip(from as int),
            ) <= bound),
        },
{
    let len = s.unicode_len();
    let mut acc: u64 = 0;
    let mut i: usize = from;
    while i < len
        invariant
            len == s@.len(),
            from <= i <= len,
            spec_all_digits(s@.subrange(from as int, i as int)),
            acc == spec_digits_value(s@.subrange(from as int, i as int)),
            acc <= bound,
        decreases len - i,
    {
        let c = s.get_char(i);
        if !('0' <= c && c <= '9') {
            proof {
                let whole = s@.skip(from as int);
                assert(whole[i - from] == c);
                assert(!spec_is_digit(whole[i - from]));
            }
            return None;
        }
        let d: u64 = (c as u32 - '0' as u32) as u64;
        proof {
            let part = s@.subrange(from as int, i as int);
            let next = s@.subrange(from as int, i + 1 as int);
            assert(next.drop_last() =~= part);
            assert(next.last() == c);
        }
        if acc > bound / 10 || (acc == bound / 10 && d > bound % 10) {
            proof {
                let next = s@.subrange(from as int, i + 1 as int);
                let whole = s@.skip(from as int);
                assert(spec_digits_value(next) > bound);
                if spec_all_digits(whole) {
                    lemma_digits_prefix_monotone(whole, (i + 1 - from) as int);
                    assert(whole.subrange(0, (i + 1 - from) as int) =~= next);
                    assert(spec_digits_value(whole) >= spec_digits_value(next));
                }
            }
            return None;
        }
        acc = acc * 10 + d;
        proof {
            assert(s@.subrange(from as int, i + 1 as int).drop_last() =~= s@.subrange(
                from as int,
                i as int,
            ));
        }
        i += 1;
    }
    proof {
        assert(s@.subrange(from as int, len as int) =~= s@.skip(from as int));
    }
    Some(acc)
}

/// A digit prefix of a digit sequence never exceeds the whole.
proof fn lemma_digits_prefix_monotone(s: Seq<char>, n: int)
    requires
        0 <= n <= s.len(),
        spec_all_digits(s),
    ensures
        spec_digits_value(s) >= spec_digits_value(s.subrange(0, n)),
    decreases s.len() - n,
{
    assert(s.subrange(0, s.len() as int) =~= s);
    if n < s.len() {
        lemma_digits_prefix_monotone(s, n + 1);
        let shorter = s.subrange(0, n);
        let longer = s.subrange(0, n + 1);
        assert(longer.drop_last() =~= shorter);
        lemma_digits_value_bounds(shorter);
        assert(spec_is_digit(s[n]));
        assert(spec_digits_value(longer) == spec_digits_value(shorter) * 10
            + spec_digit_value(s[n]));
        assert(spec_digits_value(shorter) * 10 >= spec_digits_value(shorter)) by (nonlinear_arith)
            requires
                spec_digits_value(shorter) >= 0,
        ;
    }
}

/// Parses `s` as a `u64` decimal literal, as the standard library's
/// string-to-integer conversion reads it: an optional `+` sign followed
/// by one or more digits, rejecting values out of range.
pub fn parse_u64(s: &str) -> (r: Option<u64>)
    ensures
        match r {
            Some(v) => {
                &&& spec_is_int_literal(s@)
                &&& !spec_is_negative(s@)
                &&& v == spec_int_literal_value(s@)
            },
            None => !(spec_is_int_literal(s@) && !spec_is_negative(s@)
                && spec_int_literal_value(s@) <= u64::MAX),
        },
{
    let len = s.unicode_len();
    if len == 0 {
        return None;
    }
    let first = s.get_char(0);
    if first == '-' {
        proof {
            if spec_is_int_literal(s@) && !spec_is_negative(s@) {
                assert(false);
            }
        }
        return None;
    }
    let start: usize = if first == '+' {
        1
    } else {
        0
    };
    if start == len {
        return None;
    }
    proof {
        assert(spec_digit_run(s@) =~= s@.skip(start as int));
        if spec_all_digits(s@.skip(start as int)) {
            lemma_digits_value_bounds(s@.skip(start as int));
        }
    }
    parse_digits(s, start, u64::MAX)
}

/// Parses `s` as an `i64` decimal literal, as the standard library's
/// string-to-integer conversion reads it.
pub fn parse_i64(s: &str) -> (r: Option<i64>)
    ensures
        match r {
            Some(v) => {
                &&& spec_is_int_literal(s@)
                &&& v == spec_int_literal_value(s@)
            },
            None => !(spec_is_int_literal(s@) && i64::MIN <= spec_int_literal_value(s@)
                <= i64::MAX),
        },
{
    let len = s.unicode_len();
    if len == 0 {
        return None;
    }
    let first = s.get_char(0);
    let negative = first == '-';
    let start: usize = if first == '+' || first == '-' {
        1
    } else {
        0
    };
    if start == len {
        return None;
    }
    proof {
        assert(spec_digit_run(s@) =~= s@.skip(start as int));
        if spec_all_digits(s@.skip(start as int)) {
            lemma_digits_value_bounds(s@.skip(start as int));
        }
    }
    if negative {
        let bound: u64 = 9223372036854775808u64;
        match parse_digits(s, start, bound) {
            Some(v) => {
                if v == bound {
                    Some(i64::MIN)
                } else {
                    Some(-(v as i64))
                }
            },
            None => None,
        }
    } else {
        match parse_digits(s, start, i64::MAX as u64) {
            Some(v) => Some(v as i64),
            None => None,
        }
    }
}

/// Parses `s` as a `usize` decimal literal.
pub fn parse_usize(s: &str) -> (r: Option<usize>)
    ensures
        match r {
            Some(v) => {
                &&& spec_is_int_literal(s@)
                &&& !spec_is_negative(s@)
                &&& v == spec_int_literal_value(s@)
            },
            None => !(spec_is_int_literal(s@) && !spec_is_negative(s@)
                && spec_int_literal_value(s@) <= usize::MAX),
        },
{
    let len = s.unicode_len();
    if len == 0 {
        return None;
    }
    let first = s.get_char(0);
    if first == '-' {
        proof {
            if spec_is_int_literal(s@) && !spec_is_negative(s@) {
                assert(false);
            }
        }
        return None;
    }
    let start: usize = if first == '+' {
        1
    } else {
        0
    };
    if start == len {
        return None;
    }
    proof {
        assert(spec_digit_run(s@) =~= s@.skip(start as int));
        if spec_all_digits(s@.skip(start as int)) {
            lemma_digits_value_bounds(s@.skip(start as int));
        }
    }
    match parse_digits(s, start, usize::MAX as u64) {
        Some(v) => Some(v as usize),
        None => None,
    }
}

/// The sequence without its leading characters `c`.
pub open spec fn spec_trim_start(s: Seq<char>, c: char) -> Seq<char>
    decreases s.len(),
{
    if s.len() > 0 && s[0] == c {
        spec_trim_start(s.drop_first(), c)
    } else {
        s
    }
}

/// The sequence without its trailing characters `c`.
pub open spec fn spec_trim_end(s: Seq<char>, c: char) -> Seq<char>
    decreases s.len(),
{
    if s.len() > 0 && s.last() == c {
        spec_trim_end(s.drop_last(), c)
    } else {
        s
    }
}

/// The sequence without leading and trailing spaces.
pub open spec fn spec_trim_spaces(s: Seq<char>) -> Seq<char> {
    spec_trim_end(spec_trim_start(s, ' '), ' ')
}

/// Removes the leading `start` characters and the trailing `end`
/// characters.
pub fn trim_pair(s: &str, start: char, end: char) -> (r: String)
    ensures
        r@ == spec_trim_end(spec_trim_start(s@, start), end),
{
    proof {
        assert(s@.skip(0) =~= s@);
    }
    let len = s.unicode_len();
    let mut from: usize = 0;
    while from < len && s.get_char(from) == start
        invariant
            len == s@.len(),
            from <= len,
            spec_trim_start(s@, start) == spec_trim_start(s@.skip(from as int), start),
        decreases len - from,
    {
        proof {
            assert(s@.skip(from as int)[0] == s@[from as int]);
            assert(s@.skip(from as int).drop_first() =~= s@.skip(from + 1));
        }
        from += 1;
    }
    proof {
        if from < len {
            assert(s@.skip(from as int)[0] == s@[from as int]);
        }
        assert(spec_trim_start(s@, start) =~= s@.skip(from as int));
    }
    let mut to: usize = len;
    while to > from && s.get_char(to - 1) == end
        invariant
            len == s@.len(),
            from <= to <= len,
            spec_trim_start(s@, start) == s@.skip(from as int),
            spec_trim_end(s@.skip(from as int), end) == spec_trim_end(
                s@.subrange(from as int, to as int),
                end,
            ),
        decreases to,
    {
        proof {
            let part = s@.subrange(from as int, to as int);
            assert(part.last() == s@[to - 1]);
            assert(part.drop_last() =~= s@.subrange(from as int, to - 1));
            if to == from + 1 {
                assert(s@.skip(from as int) =~= s@.subrange(from as int, len as int));
            }
        }
        to -= 1;
    }
    proof {
        let part = s@.subrange(from as int, to as int);
        if to > from {
            assert(part.last() == s@[to - 1]);
        }
        assert(spec_trim_end(part, end) =~= part);
        if from == to {
            assert(part =~= Seq::<char>::empty());
        }
        if from == len {
            assert(s@.skip(from as int) =~= s@.subrange(from as int, to as int));
        }
    }
    substring(s, from, to)
}

/// The pieces of `s` split on the separator `c`: splitting an empty
/// sequence, or one without the separator, yields that sequence as its
/// one piece.
pub open spec fn spec_split(s: Seq<char>, c: char) -> Seq<Seq<char>>
    decreases s.len(),
{
    if !s.contains(c) {
        seq![s]
    } else {
        let i = spec_find(s, c);
        if 0 <= i < s.len() {
            seq![s.subrange(0, i)] + spec_split(s.skip(i + 1), c)
        } else {
            seq![s]
        }
    }
}

/// The index of the first occurrence of `c` in `s`, which must occur.
pub open spec fn spec_find(s: Seq<char>, c: char) -> int
    decreases s.len(),
{
    if s.len() == 0 {
        0
    } else if s[0] == c {
        0
    } else {
        1 + spec_find(s.drop_first(), c)
    }
}

proof fn lemma_find_bounds(s: Seq<char>, c: char)
    requires
        s.contains(c),
    ensures
        0 <= spec_find(s, c) < s.len(),
        s[spec_find(s, c)] == c,
        forall|j: int| 0 <= j < spec_find(s, c) ==> s[j] != c,
    decreases s.len(),
{
    if s.len() > 0 && s[0] != c {
        let rest = s.drop_first();
        assert(rest.contains(c)) by {
            let k = choose|k: int| 0 <= k < s.len() && s[k] == c;
            assert(rest[k - 1] == c);
        }
        lemma_find_bounds(rest, c);
        let f = spec_find(rest, c);
        assert(s[1 + f] == rest[f]);
        assert forall|j: int| 0 <= j < 1 + f implies s[j] != c by {
            if j > 0 {
                assert(rest[j - 1] != c);
            }
        }
    }
}

/// Splits `s` on the separator `c`.
pub fn split_char(s: &str, c: char) -> (r: Vec<String>)
    ensures
        r@.map(|_i: int, p: String| p@) == spec_split(s@, c),
    decreases s@.len(),
{
    let len = s.unicode_len();
    let mut i: usize = 0;
    while i < len && s.get_char(i) != c
        invariant
            len == s@.len(),
            i <= len,
            forall|j: int| 0 <= j < i ==> s@[j] != c,
        decreases len - i,
    {
        i += 1;
    }
    if i == len {
        proof {
            assert(!s@.contains(c)) by {
                if s@.contains(c) {
                    let k = choose|k: int| 0 <= k < s@.len() && s@[k] == c;
                    assert(s@[k] != c);
                }
            }
        }
        let mut pieces: Vec<String> = Vec::new();
        pieces.push(s.to_owned());
        proof {
            assert(pieces@.map(|_i: int, p: String| p@) =~= seq![s@]);
        }
        pieces
    } else {
        proof {
            assert(s@[i as int] == c);
            assert(s@.contains(c));
            lemma_find_bounds(s@, c);
            assert(spec_find(s@, c) == i as int) by {
                let f = spec_find(s@, c);
                if f < i {
                    assert(s@[f] != c);
                }
                if f > i {
                    assert(s@[i as int] != c);
                }
            }
        }
        let head = substring(s, 0, i);
        let tail = s.substring_char(i + 1, len);
        let rest = split_char(tail, c);
        let mut pieces: Vec<String> = Vec::new();
        pieces.push(head);
        let n = rest.len();
        let mut k: usize = 0;
        while k < n
            invariant
                n == rest.len(),
                k <= n,
                pieces@.len() == k + 1,
                pieces@[0]@ == s@.subrange(0, spec_find(s@, c)),
                forall|j: int| 0 <= j < k ==> pieces@[j + 1]@ == rest@[j]@,
            decreases n - k,
        {
            pieces.push(rest[k].clone());
            k += 1;
        }
        proof {
            assert(tail@ =~= s@.skip(i + 1));
            assert(pieces@.map(|_i: int, p: String| p@) =~= seq![
                s@.subrange(0, spec_find(s@, c)),
            ] + rest@.map(|_i: int, p: String| p@));
        }
        pieces
    }
}

/// The pieces each without leading and trailing spaces.
pub open spec fn spec_trim_all(pieces: Seq<Seq<char>>) -> Seq<Seq<char>> {
    pieces.map(|_i: int, p: Seq<char>| spec_trim_spaces(p))
}

/// Trims spaces off both ends of every piece.
pub fn trim_all(pieces: &Vec<String>) -> (r: Vec<String>)
    ensures
        r@.map(|_i: int, p: String| p@) == spec_trim_all(
            pieces@.map(|_i: int, p: String| p@),
        ),
{
    let mut trimmed: Vec<String> = Vec::new();
    let n = pieces.len();
    let mut i: usize = 0;
    while i < n
        invariant
            n == pieces.len(),
            i <= n,
            trimmed@.len() == i,
            forall|j: int|
                0 <= j < i ==> (#[trigger] trimmed@[j])@ == spec_trim_spaces(pieces@[j]@),
        decreases n - i,
    {
        trimmed.push(trim_pair(pieces[i].as_str(), ' ', ' '));
        i += 1;
    }
    proof {
        assert(trimmed@.map(|_i: int, p: String| p@) =~= spec_trim_all(
            pieces@.map(|_i: int, p: String| p@),
        ));
    }
    trimmed
}

/// The pieces joined with the separator `c` between them.
pub open spec fn spec_join(pieces: Seq<Seq<char>>, c: char) -> Seq<char>
    decreases pieces.len(),
{
    if pieces.len() == 0 {
        Seq::<char>::empty()
    } else if pieces.len() == 1 {
        pieces[0]
    } else {
        spec_join(pieces.drop_last(), c) + seq![c] + pieces.last()
    }
}

/// Joins the pieces with the separator `c` between them.
pub fn join_char(pieces: &Vec<String>, c: char, sep: &str) -> (r: String)
    requires
        sep@ == seq![c],
    ensures
        r@ == spec_join(pieces@.map(|_i: int, p: String| p@), c),
{
    let ghost pv = pieces@.map(|_i: int, p: String| p@);
    let mut joined = String::new();
    let n = pieces.len();
    let mut i: usize = 0;
    while i < n
        invariant
            n == pieces.len(),
            pv == pieces@.map(|_i: int, p: String| p@),
            i <= n,
            joined@ == spec_join(pv.take(i as int), c),
            sep@ == seq![c],
        decreases n - i,
    {
        proof {
            assert(pv.take(i + 1).drop_last() =~= pv.take(i as int));
            assert(pv.take(i + 1).last() == pv[i as int]);
            if i == 0 {
                assert(pv.take(0) =~= Seq::<Seq<char>>::empty());
            }
        }
        if i > 0 {
            joined.append(sep);
        }
        joined.append(pieces[i].as_str());
        proof {
            if i == 0 {
                assert(joined@ =~= spec_join(pv.take(1), c));
            }
        }
        i += 1;
    }
    proof {
        assert(pv.take(n as int) =~= pv);
        if n == 0 {
            assert(joined@ =~= spec_join(pv, c));
        }
    }
    joined
}

/// The decimal digit character of a value below ten.
pub open spec fn spec_digit_char(d: int) -> char {
    if d == 0 {
        '0'
    } else if d == 1 {
        '1'
    } else if d == 2 {
        '2'
    } else if d == 3 {
        '3'
    } else if d == 4 {
        '4'
    } else if d == 5 {
        '5'
    } else if d == 6 {
        '6'
    } else if d == 7 {
        '7'
    } else if d == 8 {
        '8'
    } else {
        '9'
    }
}

/// The decimal form of an unsigned value, most significant digit first.
pub open spec fn spec_format_u64(n: u64) -> Seq<char>
    decreases n,
{
    if n < 10 {
        seq![spec_digit_char(n as int)]
    } else {
        spec_format_u64(n / 10) + seq![spec_digit_char((n % 10) as int)]
    }
}

/// Appends one decimal digit character.
fn append_digit(s: &mut String, d: u64)
    requires
        d < 10,
    ensures
        final(s)@ == old(s)@ + seq![spec_digit_char(d as int)],
{
    proof {
        reveal_strlit("0");
        reveal_strlit("1");
        reveal_strlit("2");
        reveal_strlit("3");
        reveal_strlit("4");
        reveal_strlit("5");
        reveal_strlit("6");
        reveal_strlit("7");
        reveal_strlit("8");
        reveal_strlit("9");
    }
    if d == 0 {
        s.append("0");
    } else if d == 1 {
        s.append("1");
    } else if d == 2 {
        s.append("2");
    } else if d == 3 {
        s.append("3");
    } else if d == 4 {
        s.append("4");
    } else if d == 5 {
        s.append("5");
    } else if d == 6 {
        s.append("6");
    } else if d == 7 {
        s.append("7");
    } else if d == 8 {
        s.append("8");
    } else {
        s.append("9");
    }
}

/// Renders an unsigned value in decimal.
pub fn format_u64(n: u64) -> (r: String)
    ensures
        r@ == spec_format_u64(n),
    decreases n,
{
    if n < 10 {
        let mut s = String::new();
        append_digit(&mut s, n);
        proof {
            assert(s@ =~= spec_format_u64(n));
        }
        s
    } else {
        let mut s = format_u64(n / 10);
        append_digit(&mut s, n % 10);
        s
    }
}

/// Parses `s` as a boolean literal: exactly `true` or `false`.
pub fn parse_bool(s: &str) -> (r: Option<bool>)
    ensures
        r == Some(true) <==> s@ == "true"@,
        r == Some(false) <==> s@ == "false"@,
        r is None <==> (s@ != "true"@ && s@ != "false"@),
{
    proof {
        reveal_strlit("true");
        reveal_strlit("false");
        assert("true"@.len() == 4);
        assert("false"@.len() == 5);
        assert("true"@ != "false"@);
    }
    if str_eq(s, "true") {
        Some(true)
    } else if str_eq(s, "false") {
        Some(false)
    } else {
        None
    }
}

} // verus!
