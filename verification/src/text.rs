//! Character-level helpers for the line-oriented texts the daemon reads.

use vstd::prelude::*;
use vstd::string::*;

verus! {

/// Whether `c` has the Unicode property `White_Space`.
pub open spec fn is_whitespace(c: char) -> bool {
    let u = c as u32;
    ||| 0x09 <= u <= 0x0d
    ||| u == 0x20
    ||| u == 0x85
    ||| u == 0xa0
    ||| u == 0x1680
    ||| 0x2000 <= u <= 0x200a
    ||| u == 0x2028
    ||| u == 0x2029
    ||| u == 0x202f
    ||| u == 0x205f
    ||| u == 0x3000
}

/// Tests a character for the Unicode property `White_Space`.
pub fn whitespace(c: char) -> (r: bool)
    ensures
        r == is_whitespace(c),
{
    let u = c as u32;
    (0x09 <= u && u <= 0x0d) || u == 0x20 || u == 0x85 || u == 0xa0 || u == 0x1680 || (0x2000 <= u
        && u <= 0x200a) || u == 0x2028 || u == 0x2029 || u == 0x202f || u == 0x205f || u == 0x3000
}

/// The characters of a string, in order.
pub fn chars_of(s: &str) -> (chars: Vec<char>)
    ensures
        chars@ == s@,
{
    broadcast use vstd::string::group_string_axioms;

    let mut chars: Vec<char> = Vec::new();
    for c in it: s.chars()
        invariant
            it.seq() == s@,
            chars@ == s@.take(it.index()),
    {
        proof {
            assert(s@.take(it.index() + 1) =~= s@.take(it.index()).push(c));
        }
        chars.push(c);
    }
    proof {
        assert(s@.take(s@.len() as int) =~= s@);
    }
    chars
}

/// `s` without its leading whitespace.
pub open spec fn strip_start(s: Seq<char>) -> Seq<char>
    decreases s.len(),
{
    if s.len() > 0 && is_whitespace(s[0]) {
        strip_start(s.drop_first())
    } else {
        s
    }
}

/// `s` without its trailing whitespace.
pub open spec fn strip_end(s: Seq<char>) -> Seq<char>
    decreases s.len(),
{
    if s.len() > 0 && is_whitespace(s.last()) {
        strip_end(s.drop_last())
    } else {
        s
    }
}

/// `s` without leading and trailing whitespace.
pub open spec fn trimmed(s: Seq<char>) -> Seq<char> {
    strip_end(strip_start(s))
}

/// `s` begins with `prefix`.
pub open spec fn has_prefix(s: Seq<char>, prefix: Seq<char>) -> bool {
    prefix.len() <= s.len() && s.subrange(0, prefix.len() as int) == prefix
}

/// `pattern` occurs in `s` as a run of adjacent characters.
pub open spec fn contains_run(s: Seq<char>, pattern: Seq<char>) -> bool {
    exists|i: int| occurs_at(s, pattern, i)
}

/// `pattern` occurs in `s` at index `i`.
pub open spec fn occurs_at(s: Seq<char>, pattern: Seq<char>, i: int) -> bool {
    0 <= i && i + pattern.len() <= s.len() && s.subrange(i, i + pattern.len()) == pattern
}

/// Number of characters before the first whitespace character of `s`.
pub open spec fn token_len(s: Seq<char>) -> nat
    decreases s.len(),
{
    if s.len() > 0 && !is_whitespace(s[0]) {
        1 + token_len(s.drop_first())
    } else {
        0
    }
}

/// The first whitespace-separated word of `s`, or the empty sequence when
/// `s` holds only whitespace.
pub open spec fn first_token(s: Seq<char>) -> Seq<char> {
    let t = strip_start(s);
    t.subrange(0, token_len(t) as int)
}

/// The pieces of `s` between line feeds. A text without a line feed is one
/// line, and a line feed at the very end is followed by one empty line.
pub open spec fn lines_of(s: Seq<char>) -> Seq<Seq<char>>
    decreases s.len(),
{
    if s.len() == 0 {
        seq![Seq::<char>::empty()]
    } else {
        let before = lines_of(s.drop_last());
        if s.last() == '\n' {
            before.push(Seq::<char>::empty())
        } else {
            before.drop_last().push(before.last().push(s.last()))
        }
    }
}

/// The pieces of `s` between whitespace characters, empty pieces included.
pub open spec fn fields_of(s: Seq<char>) -> Seq<Seq<char>>
    decreases s.len(),
{
    if s.len() == 0 {
        seq![Seq::<char>::empty()]
    } else {
        let before = fields_of(s.drop_last());
        if is_whitespace(s.last()) {
            before.push(Seq::<char>::empty())
        } else {
            before.drop_last().push(before.last().push(s.last()))
        }
    }
}

/// The test for a piece that holds at least one character.
pub open spec fn nonempty() -> spec_fn(Seq<char>) -> bool {
    |w: Seq<char>| w.len() > 0
}

/// The whitespace-separated words of `s`, in order.
pub open spec fn words_of(s: Seq<char>) -> Seq<Seq<char>> {
    fields_of(s).filter(nonempty())
}

/// What each of the strings holds, in order.
pub open spec fn texts_of(strings: Seq<String>) -> Seq<Seq<char>> {
    Seq::new(strings.len(), |i: int| strings[i]@)
}

/// `c` is one of the ten ASCII digits.
pub open spec fn is_digit(c: char) -> bool {
    '0' <= c <= '9'
}

/// Every character of `s` is an ASCII digit.
pub open spec fn all_digits(s: Seq<char>) -> bool {
    forall|i: int| 0 <= i < s.len() ==> is_digit(#[trigger] s[i])
}

/// The number that a run of ASCII digits writes in base ten.
pub open spec fn digits_value(s: Seq<char>) -> nat
    decreases s.len(),
{
    if s.len() == 0 {
        0
    } else {
        (digits_value(s.drop_last()) * 10 + (s.last() as u32 - '0' as u32)) as nat
    }
}

/// The `u32` that `s` writes in base ten: an optional `+`, then at least one
/// ASCII digit and nothing else, with a value of at most `u32::MAX`.
pub open spec fn parse_u32(s: Seq<char>) -> Option<u32> {
    let digits = if s.len() > 0 && s[0] == '+' {
        s.drop_first()
    } else {
        s
    };
    if digits.len() > 0 && all_digits(digits) && digits_value(digits) <= u32::MAX {
        Some(digits_value(digits) as u32)
    } else {
        None
    }
}

/// Finds where `chars[from..to]` begins once its leading whitespace is
/// dropped.
pub fn skip_whitespace(chars: &Vec<char>, from: usize, to: usize) -> (start: usize)
    requires
        from <= to <= chars@.len(),
    ensures
        from <= start <= to,
        chars@.subrange(start as int, to as int) == strip_start(
            chars@.subrange(from as int, to as int),
        ),
{
    let mut start: usize = from;
    while start < to && whitespace(chars[start])
        invariant
            from <= start <= to <= chars@.len(),
            strip_start(chars@.subrange(from as int, to as int)) == strip_start(
                chars@.subrange(start as int, to as int),
            ),
        decreases to - start,
    {
        proof {
            assert(chars@.subrange(start as int, to as int).drop_first() =~= chars@.subrange(
                start + 1,
                to as int,
            ));
        }
        start += 1;
    }
    start
}

/// Finds the bounds of `chars[from..to]` without its leading and trailing
/// whitespace.
pub fn trim_bounds(chars: &Vec<char>, from: usize, to: usize) -> (bounds: (usize, usize))
    requires
        from <= to <= chars@.len(),
    ensures
        from <= bounds.0 <= bounds.1 <= to,
        chars@.subrange(bounds.0 as int, bounds.1 as int) == trimmed(
            chars@.subrange(from as int, to as int),
        ),
{
    let start = skip_whitespace(chars, from, to);
    let mut end: usize = to;
    while end > start && whitespace(chars[end - 1])
        invariant
            start <= end <= to <= chars@.len(),
            strip_end(chars@.subrange(start as int, to as int)) == strip_end(
                chars@.subrange(start as int, end as int),
            ),
        decreases end - start,
    {
        proof {
            assert(chars@.subrange(start as int, end as int).drop_last() =~= chars@.subrange(
                start as int,
                end - 1,
            ));
        }
        end -= 1;
    }
    (start, end)
}

/// Tests whether `chars[from..to]` begins with `prefix`.
pub fn starts_with(chars: &Vec<char>, from: usize, to: usize, prefix: &Vec<char>) -> (r: bool)
    requires
        from <= to <= chars@.len(),
    ensures
        r == has_prefix(chars@.subrange(from as int, to as int), prefix@),
{
    let n = prefix.len();
    if n > to - from {
        return false;
    }
    let ghost s = chars@.subrange(from as int, to as int);
    let mut i: usize = 0;
    while i < n
        invariant
            i <= n <= to - from,
            to <= chars@.len(),
            n == prefix@.len(),
            s == chars@.subrange(from as int, to as int),
            s.subrange(0, i as int) == prefix@.subrange(0, i as int),
        decreases n - i,
    {
        if chars[from + i] != prefix[i] {
            proof {
                assert(s.subrange(0, n as int)[i as int] != prefix@[i as int]);
            }
            return false;
        }
        proof {
            assert(s.subrange(0, i + 1) =~= s.subrange(0, i as int).push(s[i as int]));
            assert(prefix@.subrange(0, i + 1) =~= prefix@.subrange(0, i as int).push(
                prefix@[i as int],
            ));
        }
        i += 1;
    }
    proof {
        assert(prefix@.subrange(0, n as int) =~= prefix@);
    }
    true
}

/// Tests whether `pattern` occurs somewhere in `chars[from..to]`.
pub fn contains(chars: &Vec<char>, from: usize, to: usize, pattern: &Vec<char>) -> (r: bool)
    requires
        from <= to <= chars@.len(),
    ensures
        r == contains_run(chars@.subrange(from as int, to as int), pattern@),
{
    let n = pattern.len();
    let ghost s = chars@.subrange(from as int, to as int);
    if n > to - from {
        return false;
    }
    let last: usize = to - n;
    let mut i: usize = from;
    loop
        invariant
            from <= i <= last,
            last == to - n,
            n == pattern@.len(),
            from <= to <= chars@.len(),
            s == chars@.subrange(from as int, to as int),
            forall|k: int| 0 <= k < i - from ==> !occurs_at(s, pattern@, k),
        decreases last - i,
    {
        proof {
            assert(chars@.subrange(i as int, to as int).subrange(0, n as int) =~= s.subrange(
                i - from,
                i - from + n,
            ));
        }
        if starts_with(chars, i, to, pattern) {
            proof {
                assert(occurs_at(s, pattern@, i - from));
            }
            return true;
        }
        if i >= last {
            return false;
        }
        i += 1;
    }
}

/// Finds the bounds of the first whitespace-separated word of
/// `chars[from..to]`.
pub fn first_token_bounds(chars: &Vec<char>, from: usize, to: usize) -> (bounds: (usize, usize))
    requires
        from <= to <= chars@.len(),
    ensures
        from <= bounds.0 <= bounds.1 <= to,
        chars@.subrange(bounds.0 as int, bounds.1 as int) == first_token(
            chars@.subrange(from as int, to as int),
        ),
{
    let start = skip_whitespace(chars, from, to);
    let ghost t = chars@.subrange(start as int, to as int);
    let mut end: usize = start;
    while end < to && !whitespace(chars[end])
        invariant
            start <= end <= to <= chars@.len(),
            t == chars@.subrange(start as int, to as int),
            token_len(t) == (end - start) + token_len(chars@.subrange(end as int, to as int)),
        decreases to - end,
    {
        proof {
            assert(chars@.subrange(end as int, to as int).drop_first() =~= chars@.subrange(
                end + 1,
                to as int,
            ));
        }
        end += 1;
    }
    proof {
        assert(t.subrange(0, end - start) =~= chars@.subrange(start as int, end as int));
    }
    (start, end)
}

proof fn lemma_digits_value_grows(s: Seq<char>, k: int)
    requires
        0 <= k <= s.len(),
        all_digits(s),
    ensures
        digits_value(s.subrange(0, k)) <= digits_value(s),
    decreases s.len() - k,
{
    if k < s.len() {
        lemma_digits_value_grows(s, k + 1);
        assert(s.subrange(0, k + 1).drop_last() =~= s.subrange(0, k));
        assert(is_digit(s[k]));
    } else {
        assert(s.subrange(0, k) =~= s);
    }
}

/// Reads `chars[from..to]` as a `u32` written in base ten.
pub fn parse_decimal(chars: &Vec<char>, from: usize, to: usize) -> (value: Option<u32>)
    requires
        from <= to <= chars@.len(),
    ensures
        value == parse_u32(chars@.subrange(from as int, to as int)),
{
    let ghost s = chars@.subrange(from as int, to as int);
    let first: usize = if from < to && chars[from] == '+' {
        from + 1
    } else {
        from
    };
    let ghost digits = chars@.subrange(first as int, to as int);
    proof {
        if first > from {
            assert(s.drop_first() =~= digits);
        } else {
            assert(s =~= digits);
        }
    }
    if first == to {
        return None;
    }
    let mut total: u64 = 0;
    let mut i: usize = first;
    while i < to
        invariant
            first <= i <= to <= chars@.len(),
            digits == chars@.subrange(first as int, to as int),
            digits.len() > 0,
            parse_u32(chars@.subrange(from as int, to as int)) == if all_digits(digits)
                && digits_value(digits) <= u32::MAX {
                Some(digits_value(digits) as u32)
            } else {
                None
            },
            all_digits(digits.subrange(0, i - first)),
            total == digits_value(digits.subrange(0, i - first)),
            total <= u32::MAX,
        decreases to - i,
    {
        let c = chars[i];
        if c < '0' || c > '9' {
            proof {
                assert(!is_digit(digits[i - first]));
            }
            return None;
        }
        let d: u64 = (c as u32 - '0' as u32) as u64;
        let next: u64 = total * 10 + d;
        proof {
            let longer = digits.subrange(0, i - first + 1);
            assert(longer.drop_last() =~= digits.subrange(0, i - first));
            assert(longer.last() == c);
            assert forall|k: int| 0 <= k < longer.len() implies is_digit(#[trigger] longer[k]) by {
                if k < i - first {
                    assert(longer[k] == digits.subrange(0, i - first)[k]);
                }
            }
            if next > u32::MAX && all_digits(digits) {
                lemma_digits_value_grows(digits, i - first + 1);
            }
        }
        if next > u32::MAX as u64 {
            return None;
        }
        total = next;
        i += 1;
    }
    proof {
        assert(digits.subrange(0, to - first) =~= digits);
    }
    Some(total as u32)
}

/// Tests whether `chars[from..to]` is exactly `pattern`.
pub fn range_is(chars: &Vec<char>, from: usize, to: usize, pattern: &Vec<char>) -> (r: bool)
    requires
        from <= to <= chars@.len(),
    ensures
        r == (chars@.subrange(from as int, to as int) == pattern@),
{
    let ghost s = chars@.subrange(from as int, to as int);
    proof {
        assert(s.subrange(0, s.len() as int) =~= s);
    }
    to - from == pattern.len() && starts_with(chars, from, to, pattern)
}

proof fn lemma_fields_of_nonempty(s: Seq<char>)
    ensures
        fields_of(s).len() >= 1,
    decreases s.len(),
{
    if s.len() > 0 {
        lemma_fields_of_nonempty(s.drop_last());
    }
}

/// Splits `chars[from..to]`, the characters of that part of `input`, into
/// its whitespace-separated words.
pub fn split_words(input: &str, chars: &Vec<char>, from: usize, to: usize) -> (words: Vec<String>)
    requires
        chars@ == input@,
        from <= to <= chars@.len(),
    ensures
        texts_of(words@) == words_of(chars@.subrange(from as int, to as int)),
{
    let mut words: Vec<String> = Vec::new();
    let mut start: usize = from;
    let mut i: usize = from;
    proof {
        let s = chars@.subrange(from as int, from as int);
        assert(s.len() == 0);
        assert(fields_of(s) =~= seq![Seq::<char>::empty()]);
        assert(fields_of(s).drop_last() =~= Seq::<Seq<char>>::empty());
        assert(fields_of(s).drop_last().filter(nonempty()) =~= Seq::<Seq<char>>::empty()) by {
            reveal(Seq::filter);
        }
        assert(texts_of(words@) =~= Seq::<Seq<char>>::empty());
    }
    while i < to
        invariant
            from <= start <= i <= to <= chars@.len(),
            chars@ == input@,
            fields_of(chars@.subrange(from as int, i as int)).len() >= 1,
            fields_of(chars@.subrange(from as int, i as int)).last() == chars@.subrange(
                start as int,
                i as int,
            ),
            texts_of(words@) == fields_of(
                chars@.subrange(from as int, i as int),
            ).drop_last().filter(nonempty()),
        decreases to - i,
    {
        let ghost before = fields_of(chars@.subrange(from as int, i as int));
        let ghost old_words = words@;
        proof {
            assert(chars@.subrange(from as int, i + 1).drop_last() =~= chars@.subrange(
                from as int,
                i as int,
            ));
            lemma_fields_of_nonempty(chars@.subrange(from as int, i + 1));
        }
        if whitespace(chars[i]) {
            if i > start {
                let word = String::from_str(input.substring_char(start, i));
                words.push(word);
            }
            proof {
                let after = fields_of(chars@.subrange(from as int, i + 1));
                assert(after == before.push(Seq::<char>::empty()));
                assert(after.drop_last() =~= before);
                assert(before =~= before.drop_last().push(before.last()));
                before.drop_last().lemma_filter_push(before.last(), nonempty());
                assert(chars@.subrange(i + 1, i + 1) =~= Seq::<char>::empty());
                if i > start {
                    assert(texts_of(words@) =~= texts_of(old_words).push(before.last()));
                }
            }
            start = i + 1;
        } else {
            proof {
                let after = fields_of(chars@.subrange(from as int, i + 1));
                assert(after == before.drop_last().push(before.last().push(chars@[i as int])));
                assert(after.drop_last() =~= before.drop_last());
                assert(chars@.subrange(start as int, i + 1) =~= chars@.subrange(
                    start as int,
                    i as int,
                ).push(chars@[i as int]));
            }
        }
        i += 1;
    }
    let ghost all = fields_of(chars@.subrange(from as int, to as int));
    let ghost old_words = words@;
    if to > start {
        let word = String::from_str(input.substring_char(start, to));
        words.push(word);
    }
    proof {
        assert(all =~= all.drop_last().push(all.last()));
        all.drop_last().lemma_filter_push(all.last(), nonempty());
        if to > start {
            assert(texts_of(words@) =~= texts_of(old_words).push(all.last()));
        }
    }
    words
}

} // verus!
