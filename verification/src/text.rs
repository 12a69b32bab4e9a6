//! Text handling on character sequences: words, path segments, suffixes, letter case and decimal
//! numbers, each stated over the characters of a string.
use vstd::prelude::*;

verus! {

/// `String::push` appends the given character to the end of the string.
pub assume_specification[ String::push ](s: &mut String, c: char)
    ensures
        final(s)@ == old(s)@.push(c),
;

/// The characters with the Unicode property `White_Space`.
pub open spec fn is_space(c: char) -> bool {
    let u = c as u32;
    ||| 0x9 <= u <= 0xd
    ||| u == 0x20
    ||| u == 0x85
    ||| u == 0xa0
    ||| u == 0x1680
    ||| 0x2000 <= u <= 0x200a
    ||| u == 0x2028
    ||| u == 0x2029
    ||| u == 0x202f
    ||| u == 0x205f
    ||| u == 0x3000
}

/// How many characters at the start of `s` are no white space.
pub open spec fn word_len(s: Seq<char>) -> nat
    decreases s.len(),
{
    if s.len() == 0 || is_space(s[0]) {
        0
    } else {
        1 + word_len(s.drop_first())
    }
}

/// A word is no longer than the text it starts.
pub proof fn lemma_word_len_bound(s: Seq<char>)
    ensures
        word_len(s) <= s.len(),
    decreases s.len(),
{
    if s.len() > 0 && !is_space(s[0]) {
        lemma_word_len_bound(s.drop_first());
    }
}

/// The maximal runs of characters that are no white space, in order.
pub open spec fn words(s: Seq<char>) -> Seq<Seq<char>>
    decreases s.len(),
{
    if s.len() == 0 {
        seq![]
    } else if word_len(s) == 0 {
        words(s.drop_first())
    } else {
        proof {
            lemma_word_len_bound(s);
        }
        seq![s.take(word_len(s) as int)] + words(s.skip(word_len(s) as int))
    }
}

/// Whether `c` is white space.
pub fn is_white_space(c: char) -> (r: bool)
    ensures
        r == is_space(c),
{
    let u: u32 = c as u32;
    (0x9 <= u && u <= 0xd) || u == 0x20 || u == 0x85 || u == 0xa0 || u == 0x1680 || (0x2000 <= u
        && u <= 0x200a) || u == 0x2028 || u == 0x2029 || u == 0x202f || u == 0x205f || u == 0x3000
}

/// The characters of `s`, in order.
pub fn chars_of(s: &str) -> (r: Vec<char>)
    ensures
        r@ == s@,
{
    let mut r: Vec<char> = Vec::new();
    for c in it: s.chars()
        invariant
            r@ == it.seq().take(it.index()),
            it.seq() == s@,
    {
        r.push(c);
    }
    assert(s@.take(s@.len() as int) =~= s@);
    r
}

/// The characters of `chars` from `from` up to but without `to`, as a string.
pub fn text_of(chars: &Vec<char>, from: usize, to: usize) -> (r: String)
    requires
        from <= to <= chars@.len(),
    ensures
        r@ == chars@.subrange(from as int, to as int),
{
    let mut r = String::new();
    let mut i: usize = from;
    while i < to
        invariant
            from <= i <= to <= chars@.len(),
            r@ == chars@.subrange(from as int, i as int),
        decreases to - i,
    {
        r.push(chars[i]);
        i += 1;
        assert(chars@.subrange(from as int, i as int) =~= chars@.subrange(
            from as int,
            i - 1,
        ).push(chars@[i - 1]));
    }
    r
}

/// Whether `a` and `b` hold the same characters.
pub fn same_text(a: &str, b: &str) -> (r: bool)
    ensures
        r == (a@ == b@),
{
    a.to_owned() == b.to_owned()
}

/// `a` followed by `b`.
pub fn join2(a: &str, b: &str) -> (r: String)
    ensures
        r@ == a@ + b@,
{
    let mut r = a.to_owned();
    r.append(b);
    r
}

/// The three texts one after the other.
pub fn join3(a: &str, b: &str, c: &str) -> (r: String)
    ensures
        r@ == a@ + b@ + c@,
{
    let mut r = join2(a, b);
    r.append(c);
    r
}

/// The four texts one after the other.
pub fn join4(a: &str, b: &str, c: &str, d: &str) -> (r: String)
    ensures
        r@ == a@ + b@ + c@ + d@,
{
    let mut r = join3(a, b, c);
    r.append(d);
    r
}

/// The five texts one after the other.
pub fn join5(a: &str, b: &str, c: &str, d: &str, e: &str) -> (r: String)
    ensures
        r@ == a@ + b@ + c@ + d@ + e@,
{
    let mut r = join4(a, b, c, d);
    r.append(e);
    r
}

/// The six texts one after the other.
pub fn join6(a: &str, b: &str, c: &str, d: &str, e: &str, f: &str) -> (r: String)
    ensures
        r@ == a@ + b@ + c@ + d@ + e@ + f@,
{
    let mut r = join5(a, b, c, d, e);
    r.append(f);
    r
}

/// The character of a decimal digit.
pub open spec fn digit_char(d: nat) -> char {
    (48 + d) as char
}

/// The decimal digits of `n`, without leading zeros; a single `0` for zero.
pub open spec fn decimal(n: nat) -> Seq<char>
    decreases n,
{
    if n < 10 {
        seq![digit_char(n)]
    } else {
        decimal(n / 10).push(digit_char(n % 10))
    }
}

/// The decimal text of `n`.
pub fn decimal_text(n: u64) -> (r: String)
    ensures
        r@ == decimal(n as nat),
    decreases n,
{
    let d: u8 = (n % 10) as u8;
    let c: char = (48 + d) as char;
    if n < 10 {
        let mut r = String::new();
        r.push(c);
        assert(r@ =~= seq![digit_char(n as nat)]);
        r
    } else {
        let mut r = decimal_text(n / 10);
        r.push(c);
        r
    }
}

/// What follows the last `sep` in `s`; all of `s` where there is none.
pub open spec fn after_last(s: Seq<char>, sep: char) -> Seq<char>
    decreases s.len(),
{
    if s.len() == 0 || s.last() == sep {
        seq![]
    } else {
        after_last(s.drop_last(), sep).push(s.last())
    }
}

/// What follows a `sep` without another one is what follows the last.
pub proof fn lemma_after_last(before: Seq<char>, sep: char, tail: Seq<char>)
    requires
        forall|i: int| 0 <= i < tail.len() ==> #[trigger] tail[i] != sep,
    ensures
        after_last(before.push(sep) + tail, sep) == tail,
    decreases tail.len(),
{
    let s = before.push(sep) + tail;
    if tail.len() == 0 {
        assert(s.last() == sep);
    } else {
        assert(s.last() == tail.last());
        assert(s.drop_last() =~= before.push(sep) + tail.drop_last());
        lemma_after_last(before, sep, tail.drop_last());
        assert(after_last(s, sep) =~= tail);
    }
}

/// The part of `s` after the last `sep`.
pub fn last_segment(s: &str, sep: char) -> (r: String)
    ensures
        r@ == after_last(s@, sep),
{
    let chars = chars_of(s);
    let mut i: usize = chars.len();
    assert(s@.take(i as int) =~= s@);
    assert(after_last(s@, sep) =~= after_last(s@.take(i as int), sep) + s@.skip(i as int));
    while i > 0 && chars[i - 1] != sep
        invariant
            i <= chars@.len(),
            chars@ == s@,
            after_last(s@, sep) == after_last(s@.take(i as int), sep) + s@.skip(i as int),
        decreases i,
    {
        i -= 1;
        assert(s@.take(i + 1).drop_last() =~= s@.take(i as int));
        assert(s@.skip(i as int) =~= seq![s@[i as int]] + s@.skip(i + 1));
        assert(after_last(s@, sep) =~= after_last(s@.take(i as int), sep) + s@.skip(i as int));
    }
    assert(after_last(s@.take(i as int), sep) =~= seq![]);
    assert(chars@.subrange(i as int, chars@.len() as int) =~= s@.skip(i as int));
    assert(after_last(s@, sep) =~= s@.skip(i as int));
    text_of(&chars, i, chars.len())
}

/// The characters of each string.
pub open spec fn texts(v: Seq<String>) -> Seq<Seq<char>> {
    Seq::new(v.len(), |i: int| v[i]@)
}

/// The words of `s`, in order.
pub fn split_words(s: &str) -> (r: Vec<String>)
    ensures
        texts(r@) == words(s@),
{
    let chars = chars_of(s);
    let mut r: Vec<String> = Vec::new();
    let mut i: usize = 0;
    assert(s@.skip(0) =~= s@);
    assert(texts(r@) + words(s@) =~= words(s@));
    while i < chars.len()
        invariant
            i <= chars@.len(),
            chars@ == s@,
            words(s@) == texts(r@) + words(s@.skip(i as int)),
        decreases chars@.len() - i,
    {
        let start: usize = i;
        let ghost rest = s@.skip(start as int);
        assert(rest[0] == chars@[start as int]);
        if is_white_space(chars[i]) {
            i += 1;
            assert(rest.drop_first() =~= s@.skip(i as int));
        } else {
            assert(s@.subrange(start as int, i as int) =~= seq![]);
            while i < chars.len() && !is_white_space(chars[i])
                invariant
                    start <= i <= chars@.len(),
                    chars@ == s@,
                    rest == s@.skip(start as int),
                    word_len(rest) == (i - start) + word_len(s@.skip(i as int)),
                decreases chars@.len() - i,
            {
                assert(s@.skip(i as int)[0] == chars@[i as int]);
                i += 1;
                assert(s@.skip(i - 1).drop_first() =~= s@.skip(i as int));
            }
            assert(i < chars@.len() ==> s@.skip(i as int)[0] == chars@[i as int]);
            assert(word_len(rest) == i - start);
            let ghost before = r@;
            r.push(text_of(&chars, start, i));
            assert(rest.take(i - start) =~= chars@.subrange(start as int, i as int));
            assert(rest.skip(i - start) =~= s@.skip(i as int));
            assert(texts(r@) =~= texts(before).push(rest.take(i - start)));
            assert(texts(before) + words(rest) =~= texts(r@) + words(s@.skip(i as int)));
        }
    }
    assert(texts(r@) + words(s@.skip(i as int)) =~= texts(r@));
    r
}

/// `s` without the run of `c` at its end.
pub open spec fn trimmed_end(s: Seq<char>, c: char) -> Seq<char>
    decreases s.len(),
{
    if s.len() > 0 && s.last() == c {
        trimmed_end(s.drop_last(), c)
    } else {
        s
    }
}

/// `s` with every `c` at its end taken off.
pub fn trim_end_char(s: &str, c: char) -> (r: String)
    ensures
        r@ == trimmed_end(s@, c),
{
    let chars = chars_of(s);
    let mut n: usize = chars.len();
    assert(s@.take(n as int) =~= s@);
    while n > 0 && chars[n - 1] == c
        invariant
            n <= chars@.len(),
            chars@ == s@,
            trimmed_end(s@, c) == trimmed_end(s@.take(n as int), c),
        decreases n,
    {
        n -= 1;
        assert(s@.take(n + 1).drop_last() =~= s@.take(n as int));
    }
    assert(chars@.subrange(0, n as int) =~= s@.take(n as int));
    text_of(&chars, 0, n)
}

/// The lower case letter of an ASCII capital; any other character as it is.
pub open spec fn lower(c: char) -> char {
    if 'A' <= c <= 'Z' {
        (c as u32 + 32) as char
    } else {
        c
    }
}

/// `s` with every ASCII capital made lower case.
pub open spec fn lowered(s: Seq<char>) -> Seq<char> {
    s.map_values(|c: char| lower(c))
}

/// A decimal number holds no capitals.
pub proof fn lemma_decimal_is_lower(n: nat)
    ensures
        lowered(decimal(n)) == decimal(n),
    decreases n,
{
    if n >= 10 {
        lemma_decimal_is_lower(n / 10);
    }
    assert(decimal(n).last() == digit_char(n % 10));
    assert(lowered(decimal(n)) =~= decimal(n)) by {
        assert forall|i: int| 0 <= i < decimal(n).len() implies lower(#[trigger] decimal(n)[i])
            == decimal(n)[i] by {
            if i < decimal(n).len() - 1 {
                assert(lowered(decimal(n / 10))[i] == decimal(n / 10)[i]);
            }
        }
    }
}

fn lower_char(c: char) -> (r: char)
    ensures
        r == lower(c),
{
    if 'A' <= c && c <= 'Z' {
        let b: u8 = c as u8;
        (b + 32) as char
    } else {
        c
    }
}

/// `s` with its ASCII capitals made lower case.
pub fn to_lower(s: &str) -> (r: String)
    ensures
        r@ == lowered(s@),
{
    let chars = chars_of(s);
    let mut r = String::new();
    let mut i: usize = 0;
    while i < chars.len()
        invariant
            i <= chars@.len(),
            chars@ == s@,
            r@ == lowered(s@.take(i as int)),
        decreases chars@.len() - i,
    {
        r.push(lower_char(chars[i]));
        i += 1;
        assert(lowered(s@.take(i as int)) =~= lowered(s@.take(i - 1)).push(lower(s@[i - 1])));
    }
    assert(s@.take(i as int) =~= s@);
    r
}

/// Whether `a` and `b` are the same text when ASCII capitals and small letters count as equal.
pub fn same_ignoring_case(a: &str, b: &str) -> (r: bool)
    ensures
        r == (lowered(a@) == lowered(b@)),
{
    to_lower(a) == to_lower(b)
}

/// The characters of a word are no white space, and none or a white space follows it.
proof fn lemma_word_len_bounds(s: Seq<char>)
    ensures
        word_len(s) <= s.len(),
        forall|i: int| 0 <= i < word_len(s) ==> !is_space(#[trigger] s[i]),
        word_len(s) == s.len() || is_space(s[word_len(s) as int]),
    decreases s.len(),
{
    if s.len() > 0 && !is_space(s[0]) {
        let t = s.drop_first();
        lemma_word_len_bounds(t);
        assert forall|i: int| 0 <= i < word_len(s) implies !is_space(#[trigger] s[i]) by {
            if i > 0 {
                assert(t[i - 1] == s[i]);
            }
        }
        if word_len(s) < s.len() {
            assert(t[word_len(t) as int] == s[word_len(s) as int]);
        }
    }
}

/// A run of characters that are no white space, followed by none or by a white space, is a word.
proof fn lemma_word_len_is(s: Seq<char>, n: int)
    requires
        0 <= n <= s.len(),
        forall|i: int| 0 <= i < n ==> !is_space(#[trigger] s[i]),
        n == s.len() || is_space(s[n]),
    ensures
        word_len(s) == n,
    decreases n,
{
    if n > 0 {
        let t = s.drop_first();
        assert(forall|i: int| 0 <= i < n - 1 ==> t[i] == s[i + 1]);
        lemma_word_len_is(t, n - 1);
    }
}

proof fn lemma_words_parted(a: Seq<char>, c: char, b: Seq<char>)
    requires
        is_space(c),
    ensures
        words(a.push(c) + b) == words(a) + words(b),
    decreases a.len(),
{
    let s = a.push(c) + b;
    if a.len() == 0 {
        assert(s[0] == c);
        assert(s.drop_first() =~= b);
        assert(words(a) + words(b) =~= words(b));
    } else if is_space(a[0]) {
        assert(s[0] == a[0]);
        assert(s.drop_first() =~= a.drop_first().push(c) + b);
        lemma_words_parted(a.drop_first(), c, b);
    } else {
        lemma_word_len_bounds(a);
        let n = word_len(a) as int;
        assert forall|i: int| 0 <= i < n implies !is_space(#[trigger] s[i]) by {
            assert(s[i] == a[i]);
        }
        assert(s[n] == if n < a.len() {
            a[n]
        } else {
            c
        });
        lemma_word_len_is(s, n);
        assert(s.take(n) =~= a.take(n));
        assert(s.skip(n) =~= a.skip(n).push(c) + b);
        lemma_words_parted(a.skip(n), c, b);
        assert(words(s) =~= seq![a.take(n)] + words(s.skip(n)));
        assert(words(a) =~= seq![a.take(n)] + words(a.skip(n)));
        assert(words(s) =~= words(a) + words(b));
    }
}

/// White space parts a text: the words of two texts with a white space between them are the words of
/// the one and then those of the other. A text without white space is one word, and an empty text
/// has none.
pub proof fn white_space_parts_words(
    whole: &str,
    first: &str,
    c: char,
    second: &str,
    r: Vec<String>,
    x: Vec<String>,
    y: Vec<String>,
)
    requires
        whole@ == first@.push(c) + second@,
        is_space(c),
        call_ensures(split_words, (whole,), r),
        call_ensures(split_words, (first,), x),
        call_ensures(split_words, (second,), y),
    ensures
        r@.len() == x@.len() + y@.len(),
        forall|i: int| 0 <= i < x@.len() ==> (#[trigger] r@[i])@ == x@[i]@,
        forall|i: int| 0 <= i < y@.len() ==> r@[x@.len() + i]@ == (#[trigger] y@[i])@,
{
    lemma_words_parted(first@, c, second@);
    assert(texts(r@) == texts(x@) + texts(y@));
    assert(texts(r@).len() == r@.len());
    assert forall|i: int| 0 <= i < x@.len() implies (#[trigger] r@[i])@ == x@[i]@ by {
        assert(texts(r@)[i] == texts(x@)[i]);
    }
    assert forall|i: int| 0 <= i < y@.len() implies r@[x@.len() + i]@ == (#[trigger] y@[i])@ by {
        assert(texts(r@)[x@.len() + i] == texts(y@)[i]);
    }
}

/// A text without white space is one word, or none where it is empty.
pub proof fn text_without_white_space_is_a_word(s: &str, r: Vec<String>)
    requires
        call_ensures(split_words, (s,), r),
        forall|i: int| 0 <= i < s@.len() ==> !is_space(#[trigger] s@[i]),
    ensures
        s@.len() == 0 ==> r@.len() == 0,
        s@.len() > 0 ==> r@.len() == 1 && r@[0]@ == s@,
{
    assert(texts(r@).len() == r@.len());
    if s@.len() > 0 {
        let n = s@.len() as int;
        lemma_word_len_is(s@, n);
        assert(s@.take(n) =~= s@);
        assert(s@.skip(n) =~= seq![]);
        assert(words(s@.skip(n)) =~= seq![]);
        assert(words(s@) =~= seq![s@.take(n)] + words(s@.skip(n)));
        assert(words(s@) =~= seq![s@]);
        assert(texts(r@)[0] == s@);
    }
}

/// The last segment ends the text and holds no separator, and a separator or nothing stands before
/// it.
pub proof fn last_segment_follows_the_last_separator(s: &str, sep: char, r: String)
    requires
        call_ensures(last_segment, (s, sep), r),
    ensures
        r@.is_suffix_of(s@),
        forall|i: int| 0 <= i < r@.len() ==> #[trigger] r@[i] != sep,
        r@.len() == s@.len() || s@[s@.len() - r@.len() - 1] == sep,
{
    lemma_after_last_parts(s@, sep);
}

/// What follows the last separator, and what stands before it.
pub proof fn lemma_after_last_parts(s: Seq<char>, sep: char)
    ensures
        ({
            let r = after_last(s, sep);
            &&& r.len() <= s.len()
            &&& r == s.skip(s.len() - r.len())
            &&& forall|i: int| 0 <= i < r.len() ==> #[trigger] r[i] != sep
            &&& r.len() == s.len() || s[s.len() - r.len() - 1] == sep
        }),
    decreases s.len(),
{
    let r = after_last(s, sep);
    if s.len() > 0 && s.last() != sep {
        let t = s.drop_last();
        lemma_after_last_parts(t, sep);
        let q = after_last(t, sep);
        assert(r =~= s.skip(s.len() - r.len())) by {
            assert(q =~= t.skip(t.len() - q.len()));
            assert forall|i: int| 0 <= i < r.len() implies r[i] == s.skip(s.len() - r.len())[i] by {
                if i < q.len() {
                    assert(q[i] == t.skip(t.len() - q.len())[i]);
                }
            }
        }
    } else {
        assert(r =~= s.skip(s.len() - r.len()));
    }
}

/// Trimming takes exactly the run of the given character off the end.
pub proof fn trimming_takes_off_the_whole_run(s: &str, c: char, r: String)
    requires
        call_ensures(trim_end_char, (s, c), r),
    ensures
        r@.is_prefix_of(s@),
        forall|i: int| r@.len() <= i < s@.len() ==> #[trigger] s@[i] == c,
        r@.len() == 0 || r@.last() != c,
{
    lemma_trimmed_parts(s@, c);
}

/// What is left of a trimmed text, and what was taken off.
pub proof fn lemma_trimmed_parts(s: Seq<char>, c: char)
    ensures
        ({
            let r = trimmed_end(s, c);
            &&& r.len() <= s.len()
            &&& r == s.take(r.len() as int)
            &&& forall|i: int| r.len() <= i < s.len() ==> #[trigger] s[i] == c
            &&& r.len() == 0 || r.last() != c
        }),
    decreases s.len(),
{
    if s.len() > 0 && s.last() == c {
        let t = s.drop_last();
        lemma_trimmed_parts(t, c);
        let r = trimmed_end(t, c);
        assert(r =~= s.take(r.len() as int)) by {
            assert(r =~= t.take(r.len() as int));
        }
        assert forall|i: int| r.len() <= i < s.len() implies #[trigger] s[i] == c by {
            if i < t.len() {
                assert(t[i] == c);
            }
        }
    } else {
        assert(s =~= s.take(s.len() as int));
    }
}

/// The number that decimal digits tell of.
pub open spec fn decimal_value(s: Seq<char>) -> int
    decreases s.len(),
{
    if s.len() == 0 {
        0
    } else {
        10 * decimal_value(s.drop_last()) + (s.last() as int - '0' as int)
    }
}

/// A decimal text holds digits only, has no leading zero and tells of the number that was written.
pub proof fn decimal_text_reads_back(n: u64, r: String)
    requires
        call_ensures(decimal_text, (n,), r),
    ensures
        decimal_value(r@) == n,
        forall|i: int| 0 <= i < r@.len() ==> '0' <= #[trigger] r@[i] <= '9',
        r@.len() > 0,
        r@.len() == 1 || r@[0] != '0',
{
    lemma_decimal_reads_back(n as nat);
}

proof fn lemma_decimal_reads_back(n: nat)
    ensures
        decimal_value(decimal(n)) == n,
        forall|i: int| 0 <= i < decimal(n).len() ==> '0' <= #[trigger] decimal(n)[i] <= '9',
        decimal(n).len() > 0,
        n > 0 ==> decimal(n)[0] != '0',
        n < 10 ==> decimal(n).len() == 1,
    decreases n,
{
    let s = decimal(n);
    if n < 10 {
        assert(s.drop_last() =~= seq![]);
        assert(decimal_value(s.drop_last()) == 0);
    } else {
        lemma_decimal_reads_back(n / 10);
        assert(s.drop_last() =~= decimal(n / 10));
        assert(s[0] == decimal(n / 10)[0]);
        assert forall|i: int| 0 <= i < s.len() implies '0' <= #[trigger] s[i] <= '9' by {
            if i < s.len() - 1 {
                assert(s[i] == decimal(n / 10)[i]);
            }
        }
    }
}

/// Making a text lower case moves each ASCII capital to its small letter and leaves any other
/// character.
pub proof fn lower_case_moves_capitals_only(s: &str, r: String, i: int)
    requires
        call_ensures(to_lower, (s,), r),
        0 <= i < s@.len(),
    ensures
        r@.len() == s@.len(),
        'A' <= s@[i] <= 'Z' ==> r@[i] as int - 'a' as int == s@[i] as int - 'A' as int,
        !('A' <= s@[i] <= 'Z') ==> r@[i] == s@[i],
{
}

/// Two texts are the same when capitals do not count exactly where their characters agree one by one
/// or are the capital and the small form of one letter.
pub proof fn sameness_ignores_capitals_only(a: &str, b: &str, r: bool)
    requires
        call_ensures(same_ignoring_case, (a, b), r),
    ensures
        r <==> a@.len() == b@.len() && forall|i: int|
            0 <= i < a@.len() ==> same_letter(#[trigger] a@[i], b@[i]),
{
    if r {
        assert(lowered(a@).len() == lowered(b@).len());
        assert forall|i: int| 0 <= i < a@.len() implies same_letter(#[trigger] a@[i], b@[i]) by {
            assert(lowered(a@)[i] == lowered(b@)[i]);
        }
    } else if a@.len() == b@.len() && forall|i: int|
        0 <= i < a@.len() ==> same_letter(#[trigger] a@[i], b@[i]) {
        assert(lowered(a@) =~= lowered(b@));
    }
}

/// Two characters are equal, or the capital and the small form of one ASCII letter.
pub open spec fn same_letter(a: char, b: char) -> bool {
    ||| a == b
    ||| 'A' <= a <= 'Z' && b as int == a as int + 32
    ||| 'A' <= b <= 'Z' && a as int == b as int + 32
}

} // verus!
