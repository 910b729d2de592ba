//! Text as a sequence of characters: searching, cutting, splitting and joining.

use vstd::prelude::*;

verus! {

/// The position of the first `c` in `s` at or after `from`, or `s.len()` where there is none.
pub open spec fn find_char(s: Seq<char>, c: char, from: int) -> int
    decreases s.len() - from,
{
    if from < 0 || from >= s.len() {
        s.len() as int
    } else if s[from] == c {
        from
    } else {
        find_char(s, c, from + 1)
    }
}

/// The part of `s` in front of the first `c`; all of `s` where `c` does not occur.
pub open spec fn before(s: Seq<char>, c: char) -> Seq<char> {
    s.take(find_char(s, c, 0))
}

/// Whether `pattern` stands in `s` at position `i`.
pub open spec fn occurs_at(s: Seq<char>, pattern: Seq<char>, i: int) -> bool {
    &&& 0 <= i
    &&& i + pattern.len() <= s.len()
    &&& s.subrange(i, i + pattern.len()) == pattern
}

/// Whether `pattern` stands anywhere in `s`.
pub open spec fn contains_text(s: Seq<char>, pattern: Seq<char>) -> bool {
    exists|i: int| occurs_at(s, pattern, i)
}

/// Whether `i` is the first position at which `pattern` stands in `s`.
pub open spec fn first_at(s: Seq<char>, pattern: Seq<char>, i: int) -> bool {
    &&& occurs_at(s, pattern, i)
    &&& forall|j: int| 0 <= j < i ==> !occurs_at(s, pattern, j)
}

/// The pieces of `s` between its separators `c`; there is always at least one.
pub open spec fn split(s: Seq<char>, c: char) -> Seq<Seq<char>>
    decreases s.len(),
{
    let i = find_char(s, c, 0);
    if 0 <= i < s.len() {
        seq![s.take(i)] + split(s.skip(i + 1), c)
    } else {
        seq![s]
    }
}

/// The pieces put together again, with `c` between each two neighbours.
pub open spec fn join(parts: Seq<Seq<char>>, c: char) -> Seq<char>
    decreases parts.len(),
{
    if parts.len() == 0 {
        seq![]
    } else if parts.len() == 1 {
        parts[0]
    } else {
        join(parts.drop_last(), c) + seq![c] + parts.last()
    }
}

/// `s` without the run of `c` at its end.
pub open spec fn trim_end_char(s: Seq<char>, c: char) -> Seq<char>
    decreases s.len(),
{
    if s.len() > 0 && s.last() == c {
        trim_end_char(s.drop_last(), c)
    } else {
        s
    }
}

/// `s` without the copies of `suffix` at its end.
pub open spec fn trim_end_text(s: Seq<char>, suffix: Seq<char>) -> Seq<char>
    decreases s.len(),
{
    if suffix.len() > 0 && occurs_at(s, suffix, s.len() - suffix.len()) {
        trim_end_text(s.take(s.len() - suffix.len()), suffix)
    } else {
        s
    }
}

/// The character of one decimal digit.
pub open spec fn digit(d: int) -> char {
    (48 + d) as char
}

/// The decimal digits of a natural number, without leading zeros.
pub open spec fn digits(n: nat) -> Seq<char>
    decreases n,
{
    if n < 10 {
        seq![digit(n as int)]
    } else {
        digits(n / 10).push(digit((n % 10) as int))
    }
}

/// The decimal form of an integer, with a minus sign where it is negative.
pub open spec fn decimal(n: int) -> Seq<char> {
    if n < 0 {
        seq!['-'] + digits((-n) as nat)
    } else {
        digits(n as nat)
    }
}

/// The contents of a list of strings.
pub open spec fn texts(list: Seq<String>) -> Seq<Seq<char>> {
    list.map_values(|s: String| s@)
}

/// `find_char` finds the first occurrence.
pub proof fn lemma_find_char(s: Seq<char>, c: char, from: int)
    requires
        0 <= from <= s.len(),
    ensures
        from <= find_char(s, c, from) <= s.len(),
        forall|j: int| from <= j < find_char(s, c, from) ==> s[j] != c,
        find_char(s, c, from) < s.len() ==> s[find_char(s, c, from)] == c,
    decreases s.len() - from,
{
    if from < s.len() && s[from] != c {
        lemma_find_char(s, c, from + 1);
    }
}

/// A position with `c`, and none before it from `from` on, is what `find_char` gives.
pub proof fn lemma_find_char_unique(s: Seq<char>, c: char, from: int, i: int)
    requires
        0 <= from <= i <= s.len(),
        forall|j: int| from <= j < i ==> s[j] != c,
        i < s.len() ==> s[i] == c,
    ensures
        find_char(s, c, from) == i,
    decreases i - from,
{
    if from < i {
        lemma_find_char_unique(s, c, from + 1, i);
    }
}

/// The characters of a string, one by one.
pub fn chars_of(text: &str) -> (r: Vec<char>)
    ensures
        r@ == text@,
{
    let mut r: Vec<char> = Vec::new();
    for c in it: text.chars()
        invariant
            r@ == it.seq().take(it.index() as int),
            it.seq() == text@,
    {
        r.push(c);
    }
    r
}

/// Whether two strings hold the same characters.
pub fn same_text(a: &str, b: &str) -> (r: bool)
    ensures
        r == (a@ == b@),
{
    a.to_string() == b.to_string()
}

/// The position of the first `c` in `chars`, or its length where there is none.
pub fn position_of(chars: &Vec<char>, c: char, from: usize) -> (r: usize)
    requires
        from <= chars@.len(),
    ensures
        r == find_char(chars@, c, from as int),
{
    let mut i: usize = from;
    while i < chars.len() && chars[i] != c
        invariant
            from <= i <= chars@.len(),
            forall|j: int| from <= j < i ==> chars@[j] != c,
        decreases chars@.len() - i,
    {
        i = i + 1;
    }
    proof {
        lemma_find_char_unique(chars@, c, from as int, i as int);
    }
    i
}

/// Whether `c` occurs in `text`.
pub fn has_char(text: &str, c: char) -> (r: bool)
    ensures
        r == text@.contains(c),
{
    let chars = chars_of(text);
    let i: usize = position_of(&chars, c, 0);
    proof {
        lemma_find_char(text@, c, 0);
        if i < text@.len() {
            assert(text@[i as int] == c);
        }
    }
    i < chars.len()
}

/// The part of `text` in front of the first `c`; all of it where `c` does not occur.
pub fn cut_before(text: &str, c: char) -> (r: &str)
    ensures
        r@ == before(text@, c),
{
    let chars = chars_of(text);
    let i: usize = position_of(&chars, c, 0);
    proof {
        lemma_find_char(text@, c, 0);
    }
    text.substring_char(0, i)
}

/// Whether `pattern` stands in `s` at position `i`.
fn stands_at(s: &Vec<char>, pattern: &Vec<char>, i: usize) -> (r: bool)
    ensures
        r == occurs_at(s@, pattern@, i as int),
{
    if pattern.len() > s.len() || i > s.len() - pattern.len() {
        return false;
    }
    let length: usize = s.len();
    let mut k: usize = 0;
    while k < pattern.len()
        invariant
            k <= pattern@.len(),
            length == s@.len(),
            i + pattern@.len() <= s@.len(),
            forall|j: int| 0 <= j < k ==> s@[i + j] == pattern@[j],
        decreases pattern@.len() - k,
    {
        if s[i + k] != pattern[k] {
            proof {
                if s@.subrange(i as int, i + pattern@.len()) == pattern@ {
                    assert(s@.subrange(i as int, i + pattern@.len())[k as int] == pattern@[k as int]);
                }
            }
            return false;
        }
        k = k + 1;
    }
    assert(s@.subrange(i as int, i + pattern@.len()) =~= pattern@);
    true
}

/// The first position at which `pattern` stands in `text`, in characters.
pub fn find_text(text: &str, pattern: &str) -> (r: Option<usize>)
    ensures
        match r {
            Some(i) => first_at(text@, pattern@, i as int),
            None => !contains_text(text@, pattern@),
        },
{
    let s = chars_of(text);
    let p = chars_of(pattern);
    let mut i: usize = 0;
    while i < s.len()
        invariant
            s@ == text@,
            p@ == pattern@,
            i <= s@.len(),
            forall|j: int| 0 <= j < i ==> !occurs_at(s@, p@, j),
        decreases s@.len() - i,
    {
        if stands_at(&s, &p, i) {
            return Some(i);
        }
        i = i + 1;
    }
    if stands_at(&s, &p, i) {
        return Some(i);
    }
    None
}

/// Whether `text` begins with `prefix`.
pub fn begins_with(text: &str, prefix: &str) -> (r: bool)
    ensures
        r == occurs_at(text@, prefix@, 0),
{
    let s = chars_of(text);
    let p = chars_of(prefix);
    stands_at(&s, &p, 0)
}

/// The pieces of `text` between its separators `c`.
pub fn split_on(text: &str, c: char) -> (r: Vec<String>)
    ensures
        texts(r@) == split(text@, c),
{
    let chars = chars_of(text);
    let mut r: Vec<String> = Vec::new();
    let mut start: usize = 0;
    assert(text@.skip(0) =~= text@);
    assert(texts(r@) + split(text@, c) =~= split(text@, c));
    loop
        invariant
            chars@ == text@,
            start <= chars@.len(),
            texts(r@) + split(text@.skip(start as int), c) == split(text@, c),
        decreases chars@.len() - start,
    {
        let end: usize = position_of(&chars, c, start);
        let ghost rest = text@.skip(start as int);
        let ghost done = texts(r@);
        proof {
            lemma_find_char(text@, c, start as int);
            assert forall|j: int| 0 <= j < end - start implies rest[j] != c by {
                assert(rest[j] == text@[start + j]);
            }
            lemma_find_char_unique(rest, c, 0, end - start);
            assert(rest.take(end - start) =~= text@.subrange(start as int, end as int));
        }
        let piece = text.substring_char(start, end).to_string();
        r.push(piece);
        assert(texts(r@) =~= done.push(piece@));
        if end >= chars.len() {
            assert(rest.take(end - start) =~= rest);
            assert(texts(r@) =~= done + split(rest, c));
            return r;
        }
        assert(rest.skip(end - start + 1) =~= text@.skip(end + 1));
        assert(texts(r@) + split(text@.skip(end + 1), c) =~= done + split(rest, c));
        start = end + 1;
    }
}

/// The first `count` pieces put together again, with an underscore between each two neighbours.
pub fn join_first(parts: &Vec<String>, count: usize) -> (r: String)
    requires
        count <= parts@.len(),
    ensures
        r@ == join(texts(parts@).take(count as int), '_'),
{
    let mut r = String::new();
    let mut i: usize = 0;
    while i < count
        invariant
            i <= count <= parts@.len(),
            r@ == join(texts(parts@).take(i as int), '_'),
        decreases count - i,
    {
        let ghost so_far = texts(parts@).take(i as int);
        if i > 0 {
            r.append("_");
        }
        r.append(parts[i].as_str());
        proof {
            reveal_strlit("_");
            assert("_"@ =~= seq!['_']);
            let next = texts(parts@).take(i + 1);
            assert(next.drop_last() =~= so_far);
            assert(next.last() == parts@[i as int]@);
            if i == 0 {
                assert(r@ =~= next[0]);
            } else {
                assert(r@ =~= join(so_far, '_') + seq!['_'] + next.last());
            }
        }
        i = i + 1;
    }
    r
}

/// `text` without the run of `c` at its end.
pub fn strip_end_char(text: &str, c: char) -> (r: &str)
    ensures
        r@ == trim_end_char(text@, c),
{
    let chars = chars_of(text);
    let mut n: usize = chars.len();
    assert(text@.take(n as int) =~= text@);
    while n > 0 && chars[n - 1] == c
        invariant
            chars@ == text@,
            n <= chars@.len(),
            trim_end_char(text@.take(n as int), c) == trim_end_char(text@, c),
        decreases n,
    {
        assert(text@.take(n as int).drop_last() =~= text@.take(n - 1));
        n = n - 1;
    }
    text.substring_char(0, n)
}

/// `text` without the copies of `suffix` at its end.
pub fn strip_end_text(text: &str, suffix: &str) -> (r: String)
    ensures
        r@ == trim_end_text(text@, suffix@),
{
    let mut chars = chars_of(text);
    let tail = chars_of(suffix);
    if tail.len() == 0 {
        return text.to_string();
    }
    while tail.len() <= chars.len() && stands_at(&chars, &tail, chars.len() - tail.len())
        invariant
            tail@ == suffix@,
            tail@.len() > 0,
            chars@.len() <= text@.len(),
            chars@ == text@.take(chars@.len() as int),
            trim_end_text(chars@, suffix@) == trim_end_text(text@, suffix@),
        decreases chars@.len(),
    {
        let n: usize = chars.len() - tail.len();
        chars.truncate(n);
        assert(chars@ =~= text@.take(n as int));
    }
    text.substring_char(0, chars.len()).to_string()
}

/// One decimal digit.
fn digit_text(d: u64) -> (r: &'static str)
    requires
        d < 10,
    ensures
        r@ == seq![digit(d as int)],
{
    proof {
        reveal_strlit("0");
        reveal_strlit("1");
        reveal_strlit("2");
        reveal_strlit("3");
        reveal_strlit("4");
        reveal_strlit("5");
        reveal_strlit("6");
        reveal_strlit("7");
        reveal_strlit("8");
        reveal_strlit("9");
    }
    match d {
        0 => "0",
        1 => "1",
        2 => "2",
        3 => "3",
        4 => "4",
        5 => "5",
        6 => "6",
        7 => "7",
        8 => "8",
        _ => "9",
    }
}

/// The decimal form of an unsigned number.
pub fn decimal_u64(n: u64) -> (r: String)
    ensures
        r@ == decimal(n as int),
    decreases n,
{
    if n < 10 {
        digit_text(n).to_string()
    } else {
        let mut r = decimal_u64(n / 10);
        r.append(digit_text(n % 10));
        assert(r@ =~= digits((n / 10) as nat).push(digit((n % 10) as int)));
        r
    }
}

/// The decimal form of a signed number.
pub fn decimal_i64(n: i64) -> (r: String)
    ensures
        r@ == decimal(n as int),
{
    if n < 0 {
        let magnitude: u64 = (-(n + 1)) as u64 + 1;
        let mut r = "-".to_string();
        r.append(decimal_u64(magnitude).as_str());
        proof {
            reveal_strlit("-");
            assert(r@ =~= seq!['-'] + digits((-n) as nat));
        }
        r
    } else {
        decimal_u64(n as u64)
    }
}

/// A piece in front of others is joined to them by one separator.
proof fn lemma_join_front(part: Seq<char>, rest: Seq<Seq<char>>, c: char)
    requires
        rest.len() > 0,
    ensures
        join(seq![part] + rest, c) == part + seq![c] + join(rest, c),
    decreases rest.len(),
{
    let all = seq![part] + rest;
    assert(all.last() == rest.last());
    if rest.len() == 1 {
        assert(all.drop_last() =~= seq![part]);
        assert(join(seq![part], c) == part);
    } else {
        assert(all.drop_last() =~= seq![part] + rest.drop_last());
        lemma_join_front(part, rest.drop_last(), c);
        assert((part + seq![c] + join(rest.drop_last(), c)) + seq![c] + rest.last() =~= part + seq![
            c,
        ] + (join(rest.drop_last(), c) + seq![c] + rest.last()));
    }
}

/// There is always a piece, and no piece holds the separator.
pub proof fn lemma_split_pieces(s: Seq<char>, c: char)
    ensures
        split(s, c).len() > 0,
        split(s, c)[0] == before(s, c),
        forall|i: int| 0 <= i < split(s, c).len() ==> !(#[trigger] split(s, c)[i]).contains(c),
    decreases s.len(),
{
    lemma_find_char(s, c, 0);
    let i = find_char(s, c, 0);
    if i < s.len() {
        let rest = s.skip(i + 1);
        lemma_split_pieces(rest, c);
        assert forall|k: int| 0 <= k < split(s, c).len() implies !(#[trigger] split(
            s,
            c,
        )[k]).contains(c) by {
            if k > 0 {
                assert(split(s, c)[k] == split(rest, c)[k - 1]);
            }
        }
    } else {
        assert(s.take(i) =~= s);
    }
}

/// What was split is what the pieces give when they are joined.
pub proof fn law_join_undoes_split(s: Seq<char>, c: char)
    ensures
        join(split(s, c), c) == s,
    decreases s.len(),
{
    lemma_find_char(s, c, 0);
    let i = find_char(s, c, 0);
    if i < s.len() {
        let rest = s.skip(i + 1);
        law_join_undoes_split(rest, c);
        lemma_split_pieces(rest, c);
        lemma_join_front(s.take(i), split(rest, c), c);
        assert(s.take(i) + seq![c] + rest =~= s);
    }
}

/// A text around a separator is split into the pieces of its two halves.
pub proof fn lemma_split_at_separator(a: Seq<char>, b: Seq<char>, c: char)
    ensures
        split(a + seq![c] + b, c) == split(a, c) + split(b, c),
    decreases a.len(),
{
    let s = a + seq![c] + b;
    let i = find_char(a, c, 0);
    lemma_find_char(a, c, 0);
    assert forall|j: int| 0 <= j < i implies s[j] != c by {
        assert(s[j] == a[j]);
    }
    lemma_find_char_unique(s, c, 0, i);
    assert(s.take(i) =~= a.take(i));
    if i < a.len() {
        assert(s.skip(i + 1) =~= a.skip(i + 1) + seq![c] + b);
        lemma_split_at_separator(a.skip(i + 1), b, c);
        assert(seq![a.take(i)] + (split(a.skip(i + 1), c) + split(b, c)) =~= (seq![a.take(i)]
            + split(a.skip(i + 1), c)) + split(b, c));
    } else {
        assert(a.take(i) =~= a);
        assert(s.skip(i + 1) =~= b);
    }
}

/// Pieces without the separator are what their joined text is split into.
pub proof fn law_split_undoes_join(parts: Seq<Seq<char>>, c: char)
    requires
        parts.len() > 0,
        forall|i: int| 0 <= i < parts.len() ==> !(#[trigger] parts[i]).contains(c),
    ensures
        split(join(parts, c), c) == parts,
    decreases parts.len(),
{
    let last = parts.last();
    assert(!parts[parts.len() - 1].contains(c));
    lemma_find_char(last, c, 0);
    assert(find_char(last, c, 0) == last.len());
    assert(split(last, c) =~= seq![last]);
    if parts.len() == 1 {
        assert(parts =~= seq![last]);
    } else {
        let front = parts.drop_last();
        assert forall|i: int| 0 <= i < front.len() implies !(#[trigger] front[i]).contains(c) by {
            assert(!parts[i].contains(c));
        }
        law_split_undoes_join(front, c);
        lemma_split_at_separator(join(front, c), last, c);
        assert(front + seq![last] =~= parts);
    }
}

/// Leading pieces join to the beginning of what all pieces join to.
pub proof fn lemma_join_prefix(parts: Seq<Seq<char>>, n: int, c: char)
    requires
        0 <= n <= parts.len(),
    ensures
        join(parts.take(n), c).is_prefix_of(join(parts, c)),
    decreases parts.len(),
{
    if n == parts.len() {
        assert(parts.take(n) =~= parts);
    } else {
        let front = parts.drop_last();
        assert(front.take(n) =~= parts.take(n));
        lemma_join_prefix(front, n, c);
    }
}

/// In a text that begins with a text that holds `c`, the first `c` stands in that beginning.
pub proof fn lemma_before_of_prefix(prefix: Seq<char>, s: Seq<char>, c: char)
    requires
        prefix.is_prefix_of(s),
        prefix.contains(c),
    ensures
        before(prefix, c) == before(s, c),
{
    lemma_find_char(prefix, c, 0);
    let i = find_char(prefix, c, 0);
    let k = choose|k: int| 0 <= k < prefix.len() && prefix[k] == c;
    assert(i <= k);
    assert forall|j: int| 0 <= j < i implies s[j] != c by {
        assert(prefix[j] == s[j]);
    }
    lemma_find_char_unique(s, c, 0, i);
    assert(prefix.take(i) =~= s.take(i));
}

/// What stands in the beginning of a text stands in the text.
pub proof fn lemma_contains_of_prefix(prefix: Seq<char>, s: Seq<char>, pattern: Seq<char>)
    requires
        prefix.is_prefix_of(s),
        contains_text(prefix, pattern),
    ensures
        contains_text(s, pattern),
{
    let i = choose|i: int| occurs_at(prefix, pattern, i);
    assert(s.subrange(i, i + pattern.len()) =~= prefix.subrange(i, i + pattern.len()));
    assert(occurs_at(s, pattern, i));
}

/// A run of `c` at the end makes no difference to what is left when that run is cut off, and what
/// is left does not end in `c`.
pub proof fn law_trimmed_end(s: Seq<char>, c: char)
    ensures
        trim_end_char(s.push(c), c) == trim_end_char(s, c),
        trim_end_char(s, c).len() > 0 ==> trim_end_char(s, c).last() != c,
        trim_end_char(s, c).is_prefix_of(s),
    decreases s.len(),
{
    assert(s.push(c).drop_last() =~= s);
    if s.len() > 0 && s.last() == c {
        law_trimmed_end(s.drop_last(), c);
    }
}

/// What stands in front of the first separator is what was put there.
pub proof fn law_text_before_a_separator(a: Seq<char>, b: Seq<char>, c: char)
    requires
        !a.contains(c),
    ensures
        before(a + seq![c] + b, c) == a,
        before(a, c) == a,
{
    let s = a + seq![c] + b;
    assert forall|j: int| 0 <= j < a.len() implies s[j] != c && a[j] != c by {
        assert(a.contains(a[j]));
        assert(s[j] == a[j]);
    }
    lemma_find_char_unique(s, c, 0, a.len() as int);
    lemma_find_char_unique(a, c, 0, a.len() as int);
    assert(s.take(a.len() as int) =~= a);
    assert(a.take(a.len() as int) =~= a);
}

/// A text stands in every text that was put around it.
pub proof fn law_text_stands_in_its_surroundings(a: Seq<char>, pattern: Seq<char>, b: Seq<char>)
    ensures
        contains_text(a + pattern + b, pattern),
{
    let s = a + pattern + b;
    let n = a.len() as int;
    assert(s.subrange(n, n + pattern.len()) =~= pattern);
    assert(occurs_at(s, pattern, n));
}

/// A text that stands in another has something in front of it and something behind it.
pub proof fn law_contained_text_can_be_cut_out(s: Seq<char>, pattern: Seq<char>)
    requires
        contains_text(s, pattern),
    ensures
        exists|a: Seq<char>, b: Seq<char>| s == #[trigger] (a + pattern + b),
{
    let i = choose|i: int| occurs_at(s, pattern, i);
    let a = s.take(i);
    let b = s.skip(i + pattern.len());
    assert(s =~= a + s.subrange(i, i + pattern.len()) + b);
    assert(s == a + pattern + b);
}

/// The first position of a text is one at which its characters stand, and there is none before.
pub proof fn law_first_position_is_the_first(s: Seq<char>, pattern: Seq<char>, i: int)
    ensures
        first_at(s, pattern, i) <==> {
            &&& 0 <= i <= s.len() - pattern.len()
            &&& forall|k: int| 0 <= k < pattern.len() ==> s[i + k] == #[trigger] pattern[k]
            &&& forall|j: int|
                0 <= j < i ==> #[trigger] s.subrange(j, j + pattern.len()) != pattern
        },
{
    let n = pattern.len() as int;
    if 0 <= i <= s.len() - n {
        if forall|k: int| 0 <= k < n ==> s[i + k] == #[trigger] pattern[k] {
            assert(s.subrange(i, i + n) =~= pattern);
        }
        if occurs_at(s, pattern, i) {
            assert forall|k: int| 0 <= k < n implies s[i + k] == #[trigger] pattern[k] by {
                assert(s.subrange(i, i + n)[k] == s[i + k]);
            }
        }
        if first_at(s, pattern, i) {
            assert forall|j: int| 0 <= j < i implies #[trigger] s.subrange(j, j + n) != pattern by {
                assert(!occurs_at(s, pattern, j));
            }
        }
        if forall|j: int| 0 <= j < i ==> #[trigger] s.subrange(j, j + n) != pattern {
            assert forall|j: int| 0 <= j < i implies !occurs_at(s, pattern, j) by {
                assert(s.subrange(j, j + n) != pattern);
            }
        }
    }
}

/// Pieces are joined in their order, with one separator between each two.
pub proof fn law_pieces_are_joined_in_order(
    first: Seq<Seq<char>>,
    others: Seq<Seq<char>>,
    piece: Seq<char>,
    c: char,
)
    requires
        first.len() > 0,
        others.len() > 0,
    ensures
        join(seq![piece], c) == piece,
        join(first + others, c) == join(first, c) + seq![c] + join(others, c),
    decreases others.len(),
{
    let all = first + others;
    assert(all.last() == others.last());
    if others.len() == 1 {
        assert(all.drop_last() =~= first);
        assert(others =~= seq![others.last()]);
    } else {
        assert(all.drop_last() =~= first + others.drop_last());
        law_pieces_are_joined_in_order(first, others.drop_last(), piece, c);
        assert((join(first, c) + seq![c] + join(others.drop_last(), c)) + seq![c] + others.last()
            =~= join(first, c) + seq![c] + (join(others.drop_last(), c) + seq![c] + others.last()));
    }
}

/// However many characters `c` were put at the end of a text that does not end in one, what is left
/// without them is that text.
pub proof fn law_run_at_the_end_is_cut_off(s: Seq<char>, c: char, n: nat)
    requires
        s.len() > 0 ==> s.last() != c,
    ensures
        trim_end_char(s + Seq::new(n, |i: int| c), c) == s,
    decreases n,
{
    let run = Seq::new(n, |i: int| c);
    if n == 0 {
        assert(s + run =~= s);
    } else {
        let shorter = Seq::new((n - 1) as nat, |i: int| c);
        assert((s + run).drop_last() =~= s + shorter);
        assert((s + run).last() == c);
        law_run_at_the_end_is_cut_off(s, c, (n - 1) as nat);
    }
}

/// However many copies of a text were put at the end of another, they are cut off; a text that does
/// not end in it stays as it is.
pub proof fn law_copies_at_the_end_are_cut_off(s: Seq<char>, suffix: Seq<char>)
    requires
        suffix.len() > 0,
    ensures
        trim_end_text(s + suffix, suffix) == trim_end_text(s, suffix),
        (forall|a: Seq<char>| s != #[trigger] (a + suffix)) ==> trim_end_text(s, suffix) == s,
{
    let longer = s + suffix;
    let n = suffix.len() as int;
    assert(longer.subrange(s.len() as int, s.len() + n) =~= suffix);
    assert(longer.take(s.len() as int) =~= s);
    assert(occurs_at(longer, suffix, longer.len() - n));
    if occurs_at(s, suffix, s.len() - n) {
        let a = s.take(s.len() - n);
        assert(s =~= a + s.subrange(s.len() - n, s.len() as int));
        assert(s == a + suffix);
    }
}

/// The number that a row of decimal digits stands for.
pub open spec fn number_of(row: Seq<char>) -> int
    decreases row.len(),
{
    if row.len() == 0 {
        0
    } else {
        10 * number_of(row.drop_last()) + (row.last() as int - '0' as int)
    }
}

/// The decimal form of a natural number is a row of digits without a needless zero in front that
/// stands for the number; that of a negative one is a minus sign in front of the form of its
/// opposite.
pub proof fn law_decimal_form_is_read_back(n: nat)
    ensures
        number_of(decimal(n as int)) == n,
        decimal(n as int).len() > 0,
        forall|i: int|
            0 <= i < decimal(n as int).len() ==> '0' <= #[trigger] decimal(n as int)[i] <= '9',
        n > 0 ==> decimal(n as int)[0] != '0',
        n == 0 ==> decimal(n as int).len() == 1,
        n > 0 ==> decimal(-n) == seq!['-'] + decimal(n as int),
    decreases n,
{
    let row = decimal(n as int);
    if n < 10 {
        assert(row.drop_last() =~= seq![]);
        assert(number_of(row.drop_last()) == 0);
    } else {
        let front = (n / 10) as nat;
        law_decimal_form_is_read_back(front);
        assert(row.drop_last() =~= decimal(front as int));
        assert forall|i: int| 0 <= i < row.len() implies '0' <= #[trigger] row[i] <= '9' by {
            if i < row.len() - 1 {
                assert(row[i] == decimal(front as int)[i]);
            }
        }
        assert(row[0] == decimal(front as int)[0]);
    }
}

/// The contents of a list of strings are those of each of them, in order.
pub proof fn law_contents_of_a_list(list: Seq<String>, i: int)
    requires
        0 <= i < list.len(),
    ensures
        texts(list).len() == list.len(),
        texts(list)[i] == list[i]@,
{
}

} // verus!
