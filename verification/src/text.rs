//! Taking strings apart.

use vstd::prelude::*;
use vstd::string::StringExecFns;

verus! {

/// Where `c` first stands in `s`; the length of `s` where it does not.
pub open spec fn index_of_or_len(s: Seq<char>, c: char) -> int
    decreases s.len(),
{
    if s.len() == 0 || s[0] == c {
        0
    } else {
        1 + index_of_or_len(s.skip(1), c)
    }
}

/// The `n`-th piece of `s`, counted from 0, where `s` is cut at every `sep`.
/// `None` where `s` has fewer pieces.
pub open spec fn piece(s: Seq<char>, sep: char, n: nat) -> Option<Seq<char>>
    decreases n,
{
    let end = index_of_or_len(s, sep);
    if n == 0 {
        Some(s.take(end))
    } else if end >= s.len() {
        None
    } else {
        piece(s.skip(end + 1), sep, (n - 1) as nat)
    }
}

/// The first `k` characters of `s` are not `c`, and `s` ends there or has `c`
/// there: then `k` is where `c` first stands.
pub proof fn lemma_index_of_or_len(s: Seq<char>, c: char, k: int)
    requires
        0 <= k <= s.len(),
        forall|j: int| 0 <= j < k ==> s[j] != c,
        k == s.len() || s[k] == c,
    ensures
        index_of_or_len(s, c) == k,
    decreases s.len(),
{
    if k > 0 {
        let rest = s.skip(1);
        assert forall|j: int| 0 <= j < k - 1 implies rest[j] != c by {
            assert(rest[j] == s[j + 1]);
        }
        lemma_index_of_or_len(rest, c, k - 1);
    }
}

/// Where `c` first stands in `s` at or after `from`; the length of `s` where
/// it does not.
pub fn find_char(s: &str, from: usize, c: char) -> (at: usize)
    requires
        from <= s@.len(),
    ensures
        at == from + index_of_or_len(s@.skip(from as int), c),
        from <= at <= s@.len(),
        at < s@.len() ==> s@[at as int] == c,
        forall|j: int| from <= j < at ==> s@[j] != c,
{
    let len = s.unicode_len();
    let mut at: usize = from;
    while at < len && s.get_char(at) != c
        invariant
            from <= at <= len,
            len == s@.len(),
            forall|j: int| from <= j < at ==> s@[j] != c,
        decreases len - at,
    {
        at = at + 1;
    }
    proof {
        let tail = s@.skip(from as int);
        assert forall|j: int| 0 <= j < at - from implies tail[j] != c by {
            assert(tail[j] == s@[from + j]);
        }
        lemma_index_of_or_len(tail, c, at - from);
    }
    at
}

/// The `n`-th piece of what follows `from` in `s`, cut at every `sep`.
pub fn piece_from(s: &str, from: usize, sep: char, n: usize) -> (found: Option<String>)
    requires
        from <= s@.len(),
    ensures
        match found {
            Some(text) => piece(s@.skip(from as int), sep, n as nat) == Some(text@),
            None => piece(s@.skip(from as int), sep, n as nat) is None,
        },
{
    let len = s.unicode_len();
    let mut start: usize = from;
    let mut left: usize = n;
    loop
        invariant
            from <= start <= len,
            len == s@.len(),
            left <= n,
            piece(s@.skip(from as int), sep, n as nat) == piece(
                s@.skip(start as int),
                sep,
                left as nat,
            ),
        decreases left,
    {
        let end = find_char(s, start, sep);
        if left == 0 {
            let text = s.substring_char(start, end).to_owned();
            assert(text@ =~= s@.skip(start as int).take(end - start));
            return Some(text);
        }
        if end == len {
            return None;
        }
        assert(s@.skip(start as int).skip(end - start + 1) =~= s@.skip(end + 1));
        start = end + 1;
        left = left - 1;
    }
}

/// What `char::is_whitespace` says of `c`.
pub uninterp spec fn is_whitespace(c: char) -> bool;

/// What `char::is_alphabetic` says of `c`.
pub uninterp spec fn is_alphabetic(c: char) -> bool;

/// Calls `char::is_whitespace`.
///
/// Trusted: only that the answer depends on `c` alone.
#[verifier::external_body]
fn char_is_whitespace(c: char) -> (b: bool)
    ensures
        b == is_whitespace(c),
{
    c.is_whitespace()
}

/// Calls `char::is_alphabetic`.
///
/// Trusted: only that the answer depends on `c` alone.
#[verifier::external_body]
fn char_is_alphabetic(c: char) -> (b: bool)
    ensures
        b == is_alphabetic(c),
{
    c.is_alphabetic()
}

/// The words of `s`: its longest runs of characters that are not whitespace,
/// from left to right.
pub open spec fn words(s: Seq<char>) -> Seq<Seq<char>>
    decreases s.len(),
{
    if s.len() == 0 {
        Seq::empty()
    } else {
        let before = words(s.drop_last());
        if is_whitespace(s.last()) {
            before
        } else if s.len() >= 2 && !is_whitespace(s[s.len() - 2]) {
            before.drop_last().push(before.last().push(s.last()))
        } else {
            before.push(seq![s.last()])
        }
    }
}

/// A run of characters that are not whitespace, begun at the start of `s` or
/// after whitespace, is the last word of what has been read of `s`, and the
/// words before it are those of what stands before it.
proof fn lemma_words_run(s: Seq<char>, start: int, end: int)
    requires
        0 <= start < end <= s.len(),
        start == 0 || is_whitespace(s[start - 1]),
        forall|j: int| start <= j < end ==> !is_whitespace(s[j]),
    ensures
        words(s.take(end)) == words(s.take(start)).push(s.subrange(start, end)),
    decreases end - start,
{
    let read = s.take(end);
    assert(read.drop_last() =~= s.take(end - 1));
    assert(read.last() == s[end - 1]);
    if end - 1 == start {
        if start > 0 {
            assert(read[read.len() - 2] == s[start - 1]);
        }
        assert(seq![s[start]] =~= s.subrange(start, end));
    } else {
        lemma_words_run(s, start, end - 1);
        assert(read[read.len() - 2] == s[end - 2]);
        let before = words(s.take(end - 1));
        assert(before.drop_last() =~= words(s.take(start)));
        assert(before.last().push(s[end - 1]) =~= s.subrange(start, end));
    }
}

/// Whitespace adds no word.
proof fn lemma_words_gap(s: Seq<char>, start: int, end: int)
    requires
        0 <= start <= end <= s.len(),
        forall|j: int| start <= j < end ==> is_whitespace(s[j]),
    ensures
        words(s.take(end)) == words(s.take(start)),
    decreases end - start,
{
    if start < end {
        lemma_words_gap(s, start, end - 1);
        assert(s.take(end).drop_last() =~= s.take(end - 1));
        assert(s.take(end).last() == s[end - 1]);
    }
}

/// The views of `v`, in order.
pub open spec fn texts(v: Seq<String>) -> Seq<Seq<char>> {
    Seq::new(v.len(), |i: int| v[i]@)
}

/// The words of `line`.
pub fn split_words(line: &str) -> (found: Vec<String>)
    ensures
        texts(found@) == words(line@),
{
    let len = line.unicode_len();
    let mut found: Vec<String> = Vec::new();
    let mut i: usize = 0;
    assert(line@.take(0) =~= Seq::<char>::empty());
    assert(texts(found@) =~= words(line@.take(0)));
    while i < len
        invariant
            0 <= i <= len,
            len == line@.len(),
            texts(found@) == words(line@.take(i as int)),
            i == 0 || i == len || is_whitespace(line@[i - 1]) || is_whitespace(line@[i as int]),
        decreases len - i,
    {
        if char_is_whitespace(line.get_char(i)) {
            proof {
                lemma_words_gap(line@, i as int, i + 1);
            }
            i = i + 1;
        } else {
            let start = i;
            i = i + 1;
            while i < len && !char_is_whitespace(line.get_char(i))
                invariant
                    start < i <= len,
                    len == line@.len(),
                    forall|j: int| start <= j < i ==> !is_whitespace(line@[j]),
                decreases len - i,
            {
                i = i + 1;
            }
            let word = line.substring_char(start, i).to_owned();
            proof {
                lemma_words_run(line@, start as int, i as int);
                assert(texts(found@.push(word)) =~= texts(found@).push(word@));
            }
            found.push(word);
        }
    }
    assert(line@.take(i as int) =~= line@);
    found
}

/// Whether `c` is one of the digits `0` to `9`.
pub open spec fn is_digit_char(c: char) -> bool {
    '0' <= c <= '9'
}

/// What the digit `c` counts for; 0 for anything else.
pub open spec fn digit_char_value(c: char) -> nat {
    if is_digit_char(c) {
        (c as u32 - '0' as u32) as nat
    } else {
        0
    }
}

/// The number that `digits` write in base ten.
pub open spec fn number(digits: Seq<char>) -> nat
    decreases digits.len(),
{
    if digits.len() == 0 {
        0
    } else {
        number(digits.drop_last()) * 10 + digit_char_value(digits.last())
    }
}

/// The digits of a written number: what follows one leading plus sign, if
/// there is one.
pub open spec fn unsigned_digits(s: Seq<char>) -> Seq<char> {
    if s.len() > 0 && s[0] == '+' {
        s.skip(1)
    } else {
        s
    }
}

/// The number that `s` writes: `Some` exactly where `s` is one or more
/// digits, after at most one plus sign, and the number fits in 32 bits.
pub open spec fn u32_of(s: Seq<char>) -> Option<u32> {
    let digits = unsigned_digits(s);
    if digits.len() > 0 && (forall|i: int|
        0 <= i < digits.len() ==> is_digit_char(#[trigger] digits[i])) && number(digits)
        <= u32::MAX {
        Some(number(digits) as u32)
    } else {
        None
    }
}

/// A number is at least the number that any of its leading digits write.
proof fn lemma_number_prefix(digits: Seq<char>, k: int)
    requires
        0 <= k <= digits.len(),
    ensures
        number(digits.take(k)) <= number(digits),
    decreases digits.len(),
{
    if k == digits.len() {
        assert(digits.take(k) =~= digits);
    } else {
        lemma_number_prefix(digits.drop_last(), k);
        assert(digits.drop_last().take(k) =~= digits.take(k));
    }
}

/// Reads `s` as a number of 32 bits.
pub fn parse_u32(s: &str) -> (value: Option<u32>)
    ensures
        value == u32_of(s@),
{
    let n = s.unicode_len();
    let start: usize = if n > 0 && s.get_char(0) == '+' {
        1
    } else {
        0
    };
    let ghost digits = unsigned_digits(s@);
    assert(digits =~= s@.subrange(start as int, n as int));
    if start == n {
        return None;
    }
    let mut value: u32 = 0;
    let mut i: usize = start;
    assert(s@.subrange(start as int, i as int) =~= Seq::<char>::empty());
    while i < n
        invariant
            start <= i <= n,
            n == s@.len(),
            digits == s@.subrange(start as int, n as int),
            digits == unsigned_digits(s@),
            forall|k: int| 0 <= k < i - start ==> is_digit_char(#[trigger] digits[k]),
            value == number(s@.subrange(start as int, i as int)),
        decreases n - i,
    {
        let c = s.get_char(i);
        let ghost read = s@.subrange(start as int, i + 1);
        proof {
            assert(read.drop_last() =~= s@.subrange(start as int, i as int));
            assert(read.last() == c);
            assert(digits[i - start] == c);
            assert(digits.take(i + 1 - start) =~= read);
            lemma_number_prefix(digits, i + 1 - start);
        }
        if c < '0' || c > '9' {
            return None;
        }
        let d: u32 = c as u32 - '0' as u32;
        if value > (u32::MAX - d) / 10 {
            return None;
        }
        value = value * 10 + d;
        i = i + 1;
    }
    assert(s@.subrange(start as int, n as int) =~= digits);
    Some(value)
}

/// `parts` put together with `sep` between each two.
pub open spec fn joined(parts: Seq<Seq<char>>, sep: Seq<char>) -> Seq<char>
    decreases parts.len(),
{
    if parts.len() == 0 {
        Seq::empty()
    } else if parts.len() == 1 {
        parts[0]
    } else {
        joined(parts.drop_last(), sep) + sep + parts.last()
    }
}

/// The parts of `parts` from `from` up to `to`, put together with `sep`
/// between each two.
pub fn join(parts: &Vec<String>, from: usize, to: usize, sep: &str) -> (text: String)
    requires
        from <= to <= parts@.len(),
    ensures
        text@ == joined(texts(parts@).subrange(from as int, to as int), sep@),
{
    let mut text = String::new();
    let mut i: usize = from;
    let ghost all = texts(parts@);
    assert(all.subrange(from as int, from as int) =~= Seq::<Seq<char>>::empty());
    while i < to
        invariant
            from <= i <= to <= parts@.len(),
            all == texts(parts@),
            text@ == joined(all.subrange(from as int, i as int), sep@),
        decreases to - i,
    {
        proof {
            let next = all.subrange(from as int, i + 1);
            assert(next.drop_last() =~= all.subrange(from as int, i as int));
            assert(next.last() == parts@[i as int]@);
            if i == from {
                assert(next[0] == parts@[i as int]@);
                assert(Seq::<char>::empty() + parts@[i as int]@ =~= parts@[i as int]@);
            }
        }
        if i > from {
            text.append(sep);
        }
        text.append(parts[i].as_str());
        i = i + 1;
    }
    text
}

/// `s` without the characters at its start that are not letters.
pub open spec fn trim_start(s: Seq<char>) -> Seq<char>
    decreases s.len(),
{
    if s.len() > 0 && !is_alphabetic(s[0]) {
        trim_start(s.skip(1))
    } else {
        s
    }
}

/// `s` without the characters at its end that are not letters.
pub open spec fn trim_end(s: Seq<char>) -> Seq<char>
    decreases s.len(),
{
    if s.len() > 0 && !is_alphabetic(s.last()) {
        trim_end(s.drop_last())
    } else {
        s
    }
}

/// `s` without the characters at its two ends that are not letters.
pub open spec fn trimmed(s: Seq<char>) -> Seq<char> {
    trim_end(trim_start(s))
}

/// Dropping leading characters that are not letters, as far as a letter or
/// the end.
proof fn lemma_trim_start(s: Seq<char>, k: int)
    requires
        0 <= k <= s.len(),
        forall|j: int| 0 <= j < k ==> !is_alphabetic(s[j]),
        k == s.len() || is_alphabetic(s[k]),
    ensures
        trim_start(s) == s.skip(k),
    decreases k,
{
    if k > 0 {
        let rest = s.skip(1);
        assert forall|j: int| 0 <= j < k - 1 implies !is_alphabetic(rest[j]) by {
            assert(rest[j] == s[j + 1]);
        }
        if k < s.len() {
            assert(rest[k - 1] == s[k]);
        }
        lemma_trim_start(rest, k - 1);
        assert(rest.skip(k - 1) =~= s.skip(k));
    } else {
        assert(s.skip(0) =~= s);
    }
}

/// Dropping trailing characters that are not letters, as far back as a letter
/// or the start.
proof fn lemma_trim_end(s: Seq<char>, k: int)
    requires
        0 <= k <= s.len(),
        forall|j: int| k <= j < s.len() ==> !is_alphabetic(s[j]),
        k == 0 || is_alphabetic(s[k - 1]),
    ensures
        trim_end(s) == s.take(k),
    decreases s.len() - k,
{
    if k < s.len() {
        let rest = s.drop_last();
        lemma_trim_end(rest, k);
        assert(rest.take(k) =~= s.take(k));
    } else {
        assert(s.take(k) =~= s);
    }
}

/// `s` without the characters at its two ends that are not letters.
pub fn trim_to_letters(s: &str) -> (text: String)
    ensures
        text@ == trimmed(s@),
{
    let len = s.unicode_len();
    let mut from: usize = 0;
    while from < len && !char_is_alphabetic(s.get_char(from))
        invariant
            0 <= from <= len,
            len == s@.len(),
            forall|j: int| 0 <= j < from ==> !is_alphabetic(s@[j]),
        decreases len - from,
    {
        from = from + 1;
    }
    let mut to: usize = len;
    while to > from && !char_is_alphabetic(s.get_char(to - 1))
        invariant
            from <= to <= len,
            len == s@.len(),
            forall|j: int| to <= j < len ==> !is_alphabetic(s@[j]),
        decreases to,
    {
        to = to - 1;
    }
    proof {
        lemma_trim_start(s@, from as int);
        let tail = s@.skip(from as int);
        assert forall|j: int| to - from <= j < tail.len() implies !is_alphabetic(tail[j]) by {
            assert(tail[j] == s@[from + j]);
        }
        if to > from {
            assert(tail[to - from - 1] == s@[to - 1]);
        }
        lemma_trim_end(tail, to - from);
        assert(tail.take(to - from) =~= s@.subrange(from as int, to as int));
    }
    s.substring_char(from, to).to_owned()
}

} // verus!
