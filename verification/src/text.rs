//! Text as sequences of characters: character classes, case folding, words,
//! and the conversions between `str`, `String` and `Vec<char>`.
//!
//! Every decoder of this crate works on a `&[char]` and every encoder appends
//! to a `Vec<char>`, so that the grammar is stated over `Seq<char>` alone.

use vstd::prelude::*;

verus! {

/// `String::push` appends one character to the end of the string.
pub assume_specification[ std::string::String::push ](s: &mut std::string::String, c: char)
    ensures
        final(s)@ == old(s)@.push(c),
;

/// The ASCII whitespace characters: space, tab, line feed, form feed and
/// carriage return.
pub open spec fn is_ascii_space(c: char) -> bool {
    c == ' ' || c == '\t' || c == '\n' || c == '\x0C' || c == '\r'
}

/// The characters with the Unicode property `White_Space`.
pub open spec fn is_unicode_space(c: char) -> bool {
    let n = c as u32;
    ||| 0x09 <= n <= 0x0D
    ||| n == 0x20
    ||| n == 0x85
    ||| n == 0xA0
    ||| n == 0x1680
    ||| 0x2000 <= n <= 0x200A
    ||| n == 0x2028
    ||| n == 0x2029
    ||| n == 0x202F
    ||| n == 0x205F
    ||| n == 0x3000
}

/// Which characters separate words.
#[derive(Clone, Copy, PartialEq, Eq, Structural)]
pub enum Spacing {
    /// ASCII whitespace only.
    Ascii,
    /// Every Unicode whitespace character.
    Unicode,
}

impl Spacing {
    /// Whether `c` separates words under this spacing.
    pub open spec fn separates(self, c: char) -> bool {
        match self {
            Spacing::Ascii => is_ascii_space(c),
            Spacing::Unicode => is_unicode_space(c),
        }
    }

    /// Whether `c` separates words under this spacing.
    pub fn is_separator(self, c: char) -> (b: bool)
        ensures
            b == self.separates(c),
    {
        match self {
            Spacing::Ascii => c == ' ' || c == '\t' || c == '\n' || c == '\x0C' || c == '\r',
            Spacing::Unicode => {
                let n: u32 = c as u32;
                (0x09 <= n && n <= 0x0D) || n == 0x20 || n == 0x85 || n == 0xA0 || n == 0x1680 || (
                0x2000 <= n && n <= 0x200A) || n == 0x2028 || n == 0x2029 || n == 0x202F || n
                    == 0x205F || n == 0x3000
            },
        }
    }
}

/// Whether `c` is one of the ten decimal digits.
pub open spec fn is_digit(c: char) -> bool {
    '0' <= c <= '9'
}

/// The upper-case form of an ASCII letter; any other character is unchanged.
pub open spec fn upper_char(c: char) -> char {
    if 'a' <= c <= 'z' {
        ((c as u8) - 32) as char
    } else {
        c
    }
}

/// `s` with every ASCII letter in upper case.
pub open spec fn upper(s: Seq<char>) -> Seq<char> {
    Seq::new(s.len(), |i: int| upper_char(s[i]))
}

/// Whether no lower-case ASCII letter occurs in `s`.
pub open spec fn is_upper(s: Seq<char>) -> bool {
    forall|i: int| 0 <= i < s.len() ==> !('a' <= #[trigger] s[i] <= 'z')
}

/// Whether `s` is not empty and holds no separator.
pub open spec fn is_word(s: Seq<char>, spacing: Spacing) -> bool {
    s.len() > 0 && forall|i: int| 0 <= i < s.len() ==> !spacing.separates(#[trigger] s[i])
}

/// The length of the longest prefix of `s` that holds no separator.
pub open spec fn word_len(s: Seq<char>, spacing: Spacing) -> nat
    decreases s.len(),
{
    if s.len() == 0 || spacing.separates(s[0]) {
        0
    } else {
        1 + word_len(s.drop_first(), spacing)
    }
}

/// The words of `s`: its maximal runs of characters that are no separators,
/// from left to right.
pub open spec fn words(s: Seq<char>, spacing: Spacing) -> Seq<Seq<char>>
    decreases s.len(),
    via words_decreases
{
    if s.len() == 0 {
        Seq::empty()
    } else if spacing.separates(s[0]) {
        words(s.drop_first(), spacing)
    } else {
        let n = word_len(s, spacing) as int;
        seq![s.take(n)] + words(s.skip(n), spacing)
    }
}

#[via_fn]
proof fn words_decreases(s: Seq<char>, spacing: Spacing) {
    if s.len() > 0 && !spacing.separates(s[0]) {
        lemma_word_len_bound(s, spacing);
    }
}

/// A word length is at most the length of the text, and positive where the
/// text starts with a character that is no separator.
pub proof fn lemma_word_len_bound(s: Seq<char>, spacing: Spacing)
    ensures
        word_len(s, spacing) <= s.len(),
        s.len() > 0 && !spacing.separates(s[0]) ==> word_len(s, spacing) >= 1,
        forall|i: int| 0 <= i < word_len(s, spacing) ==> !spacing.separates(#[trigger] s[i]),
        word_len(s, spacing) < s.len() ==> spacing.separates(s[word_len(s, spacing) as int]),
    decreases s.len(),
{
    if s.len() == 0 || spacing.separates(s[0]) {
    } else {
        let t = s.drop_first();
        lemma_word_len_bound(t, spacing);
        assert forall|i: int| 0 <= i < word_len(s, spacing) implies !spacing.separates(
            #[trigger] s[i],
        ) by {
            if i > 0 {
                assert(s[i] == t[i - 1]);
            }
        }
        if word_len(s, spacing) < s.len() {
            assert(s[word_len(s, spacing) as int] == t[word_len(t, spacing) as int]);
        }
    }
}

/// The word length of a text whose first `n` characters are no separators
/// and which ends there or goes on with a separator is `n`.
pub proof fn lemma_word_len_is(s: Seq<char>, spacing: Spacing, n: int)
    requires
        0 <= n <= s.len(),
        forall|i: int| 0 <= i < n ==> !spacing.separates(#[trigger] s[i]),
        n < s.len() ==> spacing.separates(s[n]),
    ensures
        word_len(s, spacing) == n,
    decreases n,
{
    if n == 0 {
    } else {
        let t = s.drop_first();
        assert forall|i: int| 0 <= i < n - 1 implies !spacing.separates(#[trigger] t[i]) by {
            assert(t[i] == s[i + 1]);
        }
        lemma_word_len_is(t, spacing, n - 1);
    }
}

/// `parts` with `sep` between each two neighbours.
pub open spec fn join(parts: Seq<Seq<char>>, sep: Seq<char>) -> Seq<char>
    decreases parts.len(),
{
    if parts.len() == 0 {
        Seq::empty()
    } else if parts.len() == 1 {
        parts[0]
    } else {
        join(parts.drop_last(), sep) + sep + parts.last()
    }
}

/// How often `c` occurs in `s`.
pub open spec fn count(s: Seq<char>, c: char) -> nat
    decreases s.len(),
{
    if s.len() == 0 {
        0
    } else {
        count(s.drop_last(), c) + if s.last() == c {
            1nat
        } else {
            0nat
        }
    }
}

/// The place of the first `c` in `s`, or the length of `s` where there is
/// none.
pub open spec fn position(s: Seq<char>, c: char) -> int
    decreases s.len(),
{
    if s.len() == 0 || s[0] == c {
        0
    } else {
        1 + position(s.drop_first(), c)
    }
}

/// The pieces of `s` between the occurrences of `c`: one more than there
/// are occurrences, some of them possibly empty.
pub open spec fn split(s: Seq<char>, c: char) -> Seq<Seq<char>>
    decreases s.len(),
{
    if s.len() == 0 {
        seq![Seq::empty()]
    } else {
        let before = split(s.drop_last(), c);
        if s.last() == c {
            before.push(Seq::empty())
        } else {
            before.drop_last().push(before.last().push(s.last()))
        }
    }
}

/// Whether `s` begins with `pattern`.
pub open spec fn starts_with(s: Seq<char>, pattern: Seq<char>) -> bool {
    pattern.len() <= s.len() && s.take(pattern.len() as int) == pattern
}

/// The place where `pattern` first occurs in `s`.
pub open spec fn find(s: Seq<char>, pattern: Seq<char>) -> Option<int>
    decreases s.len(),
{
    if starts_with(s, pattern) {
        Some(0int)
    } else if s.len() == 0 {
        None
    } else {
        match find(s.drop_first(), pattern) {
            Some(i) => Some(i + 1),
            None => None,
        }
    }
}

/// The pieces of `s` between the occurrences of `pattern`, taken from left
/// to right without overlap.
pub open spec fn split_on(s: Seq<char>, pattern: Seq<char>) -> Seq<Seq<char>>
    recommends
        pattern.len() > 0,
    decreases s.len(),
    via split_on_decreases
{
    match find(s, pattern) {
        Some(i) if pattern.len() > 0 => seq![s.take(i)] + split_on(
            s.skip(i + pattern.len()),
            pattern,
        ),
        _ => seq![s],
    }
}

#[via_fn]
proof fn split_on_decreases(s: Seq<char>, pattern: Seq<char>) {
    lemma_find_bound(s, pattern);
}

/// Where `find` answers with a place, the pattern stands there, within the
/// text, and nowhere before.
pub proof fn lemma_find_bound(s: Seq<char>, pattern: Seq<char>)
    ensures
        match find(s, pattern) {
            Some(i) => 0 <= i && i + pattern.len() <= s.len() && starts_with(s.skip(i), pattern)
                && forall|j: int| 0 <= j < i ==> !starts_with(#[trigger] s.skip(j), pattern),
            None => forall|j: int| 0 <= j <= s.len() ==> !starts_with(#[trigger] s.skip(j), pattern),
        },
    decreases s.len(),
{
    assert(s.skip(0) =~= s);
    if starts_with(s, pattern) {
    } else if s.len() == 0 {
    } else {
        let t = s.drop_first();
        lemma_find_bound(t, pattern);
        assert forall|j: int| 1 <= j <= s.len() implies #[trigger] s.skip(j) == t.skip(j - 1) by {
            assert(s.skip(j) =~= t.skip(j - 1));
        }
        match find(t, pattern) {
            Some(i) => {
                assert(s.skip(i + 1) == t.skip(i));
                assert forall|j: int| 0 <= j < i + 1 implies !starts_with(
                    #[trigger] s.skip(j),
                    pattern,
                ) by {
                    if j > 0 {
                        assert(s.skip(j) == t.skip(j - 1));
                    }
                }
            },
            None => {
                assert forall|j: int| 0 <= j <= s.len() implies !starts_with(
                    #[trigger] s.skip(j),
                    pattern,
                ) by {
                    if j > 0 {
                        assert(s.skip(j) == t.skip(j - 1));
                    }
                }
            },
        }
    }
}

/// `s` without the Unicode whitespace at its end.
pub open spec fn trim_end(s: Seq<char>) -> Seq<char>
    decreases s.len(),
{
    if s.len() > 0 && is_unicode_space(s.last()) {
        trim_end(s.drop_last())
    } else {
        s
    }
}

/// The views of a vector of texts.
pub open spec fn texts(v: Seq<Vec<char>>) -> Seq<Seq<char>> {
    Seq::new(v.len(), |i: int| v[i]@)
}


/// The characters of `s`, in order.
pub fn chars_of(s: &str) -> (v: Vec<char>)
    ensures
        v@ == s@,
{
    let mut v: Vec<char> = Vec::new();
    for c in it: s.chars()
        invariant
            v@ == it.seq().take(it.index() as int),
            it.seq() == s@,
    {
        v.push(c);
    }
    v
}

/// The string made of the characters of `v`, in order.
pub fn string_of(v: &[char]) -> (s: String)
    ensures
        s@ == v@,
{
    let mut s = String::new();
    let mut i: usize = 0;
    while i < v.len()
        invariant
            i <= v.len(),
            s@ == v@.take(i as int),
        decreases v.len() - i,
    {
        s.push(v[i]);
        i += 1;
    }
    s
}

/// Appends the characters of `s` to `out`.
pub fn push_all(out: &mut Vec<char>, s: &[char])
    ensures
        final(out)@ == old(out)@ + s@,
{
    let mut i: usize = 0;
    while i < s.len()
        invariant
            i <= s.len(),
            out@ == old(out)@ + s@.take(i as int),
        decreases s.len() - i,
    {
        out.push(s[i]);
        i += 1;
    }
}

/// Appends the characters of the string `s` to `out`.
pub fn push_str(out: &mut Vec<char>, s: &str)
    ensures
        final(out)@ == old(out)@ + s@,
{
    for c in it: s.chars()
        invariant
            out@ == old(out)@ + it.seq().take(it.index() as int),
            it.seq() == s@,
    {
        out.push(c);
    }
}

/// Whether `s` holds exactly the characters of the string `other`.
pub fn same_text(s: &[char], other: &str) -> (b: bool)
    ensures
        b == (s@ == other@),
{
    let mut i: usize = 0;
    for c in it: other.chars()
        invariant
            it.seq() == other@,
            i == it.index(),
            i <= s.len(),
            s@.take(i as int) == other@.take(i as int),
    {
        if i >= s.len() || s[i] != c {
            assert(s@ != other@) by {
                if s@ == other@ {
                    assert(s@[i as int] == other@[i as int]);
                }
            }
            return false;
        }
        i += 1;
    }
    assert(other@.take(i as int) == other@);
    if i == s.len() {
        assert(s@.take(i as int) == s@);
        true
    } else {
        false
    }
}

/// Whether `a` and `b` hold the same characters.
pub fn same_chars(a: &[char], b: &[char]) -> (r: bool)
    ensures
        r == (a@ == b@),
{
    if a.len() != b.len() {
        return false;
    }
    let mut i: usize = 0;
    while i < a.len()
        invariant
            i <= a.len(),
            a.len() == b.len(),
            a@.take(i as int) == b@.take(i as int),
        decreases a.len() - i,
    {
        if a[i] != b[i] {
            return false;
        }
        assert(a@.take(i + 1) == a@.take(i as int).push(a@[i as int]));
        assert(b@.take(i + 1) == b@.take(i as int).push(b@[i as int]));
        i += 1;
    }
    assert(a@.take(i as int) == a@);
    assert(b@.take(i as int) == b@);
    true
}

/// The upper-case form of an ASCII letter; any other character unchanged.
pub fn to_upper_char(c: char) -> (r: char)
    ensures
        r == upper_char(c),
{
    if 'a' <= c && c <= 'z' {
        let b: u8 = c as u8;
        (b - 32) as char
    } else {
        c
    }
}

/// `s` with every ASCII letter in upper case.
pub fn to_upper(s: &[char]) -> (r: Vec<char>)
    ensures
        r@ == upper(s@),
{
    let mut r: Vec<char> = Vec::new();
    let mut i: usize = 0;
    while i < s.len()
        invariant
            i <= s.len(),
            r@ == upper(s@).take(i as int),
        decreases s.len() - i,
    {
        r.push(to_upper_char(s[i]));
        assert(upper(s@).take(i + 1) == upper(s@).take(i as int).push(upper(s@)[i as int]));
        i += 1;
    }
    assert(upper(s@).take(i as int) == upper(s@));
    r
}

/// The characters of `s` from `from` up to `to`, as a vector of their own.
pub fn copy_range(s: &[char], from: usize, to: usize) -> (r: Vec<char>)
    requires
        from <= to <= s.len(),
    ensures
        r@ == s@.subrange(from as int, to as int),
{
    let mut r: Vec<char> = Vec::new();
    let mut i: usize = from;
    while i < to
        invariant
            from <= i <= to <= s.len(),
            r@ == s@.subrange(from as int, i as int),
        decreases to - i,
    {
        r.push(s[i]);
        assert(s@.subrange(from as int, i + 1) == s@.subrange(from as int, i as int).push(
            s@[i as int],
        ));
        i += 1;
    }
    r
}

/// The words of `s`, from left to right.
pub fn split_words(s: &[char], spacing: Spacing) -> (r: Vec<Vec<char>>)
    ensures
        texts(r@) == words(s@, spacing),
{
    let mut r: Vec<Vec<char>> = Vec::new();
    let mut i: usize = 0;
    assert(s@.skip(0) == s@);
    assert(texts(r@) == Seq::<Seq<char>>::empty());
    while i < s.len()
        invariant
            i <= s.len(),
            words(s@, spacing) == texts(r@) + words(s@.skip(i as int), spacing),
        decreases s.len() - i,
    {
        let ghost rest = s@.skip(i as int);
        if spacing.is_separator(s[i]) {
            assert(rest.drop_first() == s@.skip(i + 1));
            i += 1;
        } else {
            let start = i;
            while i < s.len() && !spacing.is_separator(s[i])
                invariant
                    start <= i <= s.len(),
                    forall|k: int| start <= k < i ==> !spacing.separates(#[trigger] s@[k]),
                decreases s.len() - i,
            {
                i += 1;
            }
            let word = copy_range(s, start, i);
            proof {
                let n = i - start;
                lemma_word_len_is(rest, spacing, n);
                assert(rest.take(n) == word@);
                assert(rest.skip(n) == s@.skip(i as int));
                assert(texts(r@.push(word)) == texts(r@) + seq![word@]);
            }
            r.push(word);
        }
    }
    assert(s@.skip(i as int) == Seq::<char>::empty());
    r
}

/// `parts` from the one at `from` up to the one at `to`, with one space
/// between each two neighbours.
pub fn join_range(parts: &Vec<Vec<char>>, from: usize, to: usize) -> (r: Vec<char>)
    requires
        from <= to <= parts.len(),
    ensures
        r@ == join(texts(parts@).subrange(from as int, to as int), seq![' ']),
{
    let ghost all = texts(parts@).subrange(from as int, to as int);
    let mut r: Vec<char> = Vec::new();
    let mut i: usize = from;
    assert(all.take(0) == Seq::<Seq<char>>::empty());
    while i < to
        invariant
            from <= i <= to <= parts.len(),
            all == texts(parts@).subrange(from as int, to as int),
            r@ == join(all.take(i - from), seq![' ']),
        decreases to - i,
    {
        let ghost before = all.take(i - from);
        let ghost now = all.take(i - from + 1);
        assert(now.drop_last() == before);
        assert(now.last() == parts@[i as int]@);
        if i > from {
            r.push(' ');
        }
        let ghost mid = r@;
        push_all(&mut r, parts[i].as_slice());
        proof {
            if i > from {
                assert(mid == join(before, seq![' ']) + seq![' ']) by {
                    assert(mid == join(before, seq![' ']).push(' '));
                }
            } else {
                assert(now.len() == 1);
            }
        }
        i += 1;
    }
    assert(all.take(i - from) == all);
    r
}

/// `parts` from the one at `from` on, with one space between each two
/// neighbours.
pub fn join_from(parts: &Vec<Vec<char>>, from: usize) -> (r: Vec<char>)
    requires
        from <= parts.len(),
    ensures
        r@ == join(texts(parts@).skip(from as int), seq![' ']),
{
    assert(texts(parts@).skip(from as int) == texts(parts@).subrange(
        from as int,
        parts.len() as int,
    ));
    join_range(parts, from, parts.len())
}

/// `parts` taken `n` at a time, each group joined with single spaces. The
/// last group holds what is left, which may be less than `n`.
pub open spec fn groups(parts: Seq<Seq<char>>, n: nat) -> Seq<Seq<char>>
    decreases parts.len(),
{
    if parts.len() == 0 || n == 0 {
        Seq::empty()
    } else if parts.len() <= n {
        seq![join(parts, seq![' '])]
    } else {
        seq![join(parts.take(n as int), seq![' '])] + groups(parts.skip(n as int), n)
    }
}

/// `parts` taken `n` at a time, each group joined with single spaces.
pub fn group_words(parts: &Vec<Vec<char>>, n: usize) -> (r: Vec<Vec<char>>)
    requires
        n >= 1,
    ensures
        texts(r@) == groups(texts(parts@), n as nat),
{
    let ghost all = texts(parts@);
    let mut r: Vec<Vec<char>> = Vec::new();
    let mut i: usize = 0;
    assert(all.skip(0) == all);
    assert(texts(r@) == Seq::<Seq<char>>::empty());
    while i < parts.len()
        invariant
            i <= parts.len(),
            n >= 1,
            all == texts(parts@),
            groups(all, n as nat) == texts(r@) + groups(all.skip(i as int), n as nat),
        decreases parts.len() - i,
    {
        let ghost rest = all.skip(i as int);
        let to: usize = if parts.len() - i <= n {
            parts.len()
        } else {
            i + n
        };
        let group = join_range(parts, i, to);
        proof {
            assert(all.subrange(i as int, to as int) == rest.take(to - i));
            if to == parts.len() {
                assert(rest.take(to - i) == rest);
                assert(all.skip(to as int) == Seq::<Seq<char>>::empty());
            } else {
                assert(rest.skip(n as int) == all.skip(to as int));
            }
            assert(texts(r@.push(group)) == texts(r@) + seq![group@]);
        }
        r.push(group);
        i = to;
    }
    assert(all.skip(i as int) == Seq::<Seq<char>>::empty());
    r
}

/// How often `c` occurs in `s`.
pub fn count_of(s: &[char], c: char) -> (n: usize)
    ensures
        n == count(s@, c),
{
    let mut n: usize = 0;
    let mut i: usize = 0;
    assert(s@.take(0) == Seq::<char>::empty());
    while i < s.len()
        invariant
            i <= s.len(),
            n <= i,
            n == count(s@.take(i as int), c),
        decreases s.len() - i,
    {
        assert(s@.take(i + 1).drop_last() == s@.take(i as int));
        if s[i] == c {
            n += 1;
        }
        i += 1;
    }
    assert(s@.take(i as int) == s@);
    n
}

/// The place of the first `c` in `s`, or the length of `s` where there is
/// none.
pub fn position_of(s: &[char], c: char) -> (n: usize)
    ensures
        n == position(s@, c),
        n <= s.len(),
        n < s.len() ==> s@[n as int] == c,
        forall|k: int| 0 <= k < n ==> s@[k] != c,
{
    let mut i: usize = 0;
    assert(s@.skip(0) == s@);
    while i < s.len() && s[i] != c
        invariant
            i <= s.len(),
            position(s@, c) == i + position(s@.skip(i as int), c),
            forall|k: int| 0 <= k < i ==> s@[k] != c,
        decreases s.len() - i,
    {
        assert(s@.skip(i as int).drop_first() == s@.skip(i + 1));
        i += 1;
    }
    i
}

/// The pieces of `s` between the occurrences of `c`.
pub fn split_at_each(s: &[char], c: char) -> (r: Vec<Vec<char>>)
    ensures
        texts(r@) == split(s@, c),
        r.len() >= 1,
{
    let mut r: Vec<Vec<char>> = Vec::new();
    let mut piece: Vec<char> = Vec::new();
    let mut i: usize = 0;
    assert(s@.take(0) == Seq::<char>::empty());
    assert(texts(r@).push(piece@) == split(s@.take(0), c));
    while i < s.len()
        invariant
            i <= s.len(),
            texts(r@).push(piece@) == split(s@.take(i as int), c),
        decreases s.len() - i,
    {
        let ghost before = split(s@.take(i as int), c);
        assert(s@.take(i + 1).drop_last() == s@.take(i as int));
        assert(before.drop_last() == texts(r@));
        assert(before.last() == piece@);
        if s[i] == c {
            assert(texts(r@.push(piece)) == texts(r@).push(piece@));
            r.push(piece);
            piece = Vec::new();
        } else {
            piece.push(s[i]);
        }
        i += 1;
    }
    assert(s@.take(i as int) == s@);
    assert(texts(r@.push(piece)) == texts(r@).push(piece@));
    r.push(piece);
    r
}

/// Whether `pattern` stands in `s` at the place `at`.
pub fn matches_at(s: &[char], at: usize, pattern: &[char]) -> (b: bool)
    requires
        at <= s.len(),
    ensures
        b == starts_with(s@.skip(at as int), pattern@),
{
    if pattern.len() > s.len() - at {
        return false;
    }
    let ghost rest = s@.skip(at as int);
    let mut k: usize = 0;
    while k < pattern.len()
        invariant
            k <= pattern.len(),
            at + pattern.len() <= s.len(),
            rest == s@.skip(at as int),
            rest.take(k as int) == pattern@.take(k as int),
        decreases pattern.len() - k,
    {
        if s[at + k] != pattern[k] {
            assert(rest.take(pattern.len() as int) != pattern@) by {
                if rest.take(pattern.len() as int) == pattern@ {
                    assert(rest.take(pattern.len() as int)[k as int] == pattern@[k as int]);
                }
            }
            return false;
        }
        assert(rest.take(k + 1) == rest.take(k as int).push(rest[k as int]));
        assert(pattern@.take(k + 1) == pattern@.take(k as int).push(pattern@[k as int]));
        k += 1;
    }
    assert(pattern@.take(k as int) == pattern@);
    true
}

/// The place where `pattern` first occurs in `s` at or after `from`.
pub fn find_from(s: &[char], from: usize, pattern: &[char]) -> (r: Option<usize>)
    requires
        from <= s.len(),
    ensures
        match r {
            Some(i) => find(s@.skip(from as int), pattern@) == Some(i - from) && from <= i
                && i + pattern.len() <= s.len(),
            None => find(s@.skip(from as int), pattern@).is_none(),
        },
{
    let mut i: usize = from;
    let ghost rest = s@.skip(from as int);
    proof {
        lemma_find_bound(rest, pattern@);
    }
    loop
        invariant
            from <= i <= s.len(),
            rest == s@.skip(from as int),
            forall|j: int| 0 <= j < i - from ==> !starts_with(#[trigger] rest.skip(j), pattern@),
            match find(rest, pattern@) {
                Some(k) => 0 <= k && k + pattern.len() <= rest.len() && starts_with(
                    rest.skip(k),
                    pattern@,
                ) && forall|j: int| 0 <= j < k ==> !starts_with(#[trigger] rest.skip(j), pattern@),
                None => forall|j: int|
                    0 <= j <= rest.len() ==> !starts_with(#[trigger] rest.skip(j), pattern@),
            },
        decreases s.len() - i,
    {
        assert(rest.skip(i - from) == s@.skip(i as int));
        if matches_at(s, i, pattern) {
            return Some(i);
        }
        if i == s.len() {
            return None;
        }
        i += 1;
    }
}

/// The pieces of `s` between the occurrences of `pattern`.
pub fn split_on_text(s: &[char], pattern: &[char]) -> (r: Vec<Vec<char>>)
    requires
        pattern.len() > 0,
    ensures
        texts(r@) == split_on(s@, pattern@),
        r.len() >= 1,
{
    let mut r: Vec<Vec<char>> = Vec::new();
    let mut i: usize = 0;
    assert(s@.skip(0) == s@);
    assert(texts(r@) == Seq::<Seq<char>>::empty());
    loop
        invariant
            i <= s.len(),
            pattern.len() > 0,
            split_on(s@, pattern@) == texts(r@) + split_on(s@.skip(i as int), pattern@),
        decreases s.len() - i,
    {
        let ghost rest = s@.skip(i as int);
        match find_from(s, i, pattern) {
            Some(at) => {
                let piece = copy_range(s, i, at);
                proof {
                    assert(rest.take(at - i) == piece@);
                    assert(rest.skip(at - i + pattern.len()) == s@.skip(at + pattern.len()));
                    assert(texts(r@.push(piece)) == texts(r@) + seq![piece@]);
                }
                r.push(piece);
                i = at + pattern.len();
            },
            None => {
                let piece = copy_range(s, i, s.len());
                proof {
                    assert(rest == piece@);
                    assert(texts(r@.push(piece)) == texts(r@) + seq![piece@]);
                }
                r.push(piece);
                return r;
            },
        }
    }
}

/// The length of `s` without the Unicode whitespace at its end.
pub fn trimmed_len(s: &[char]) -> (n: usize)
    ensures
        n <= s.len(),
        s@.take(n as int) == trim_end(s@),
{
    let mut n: usize = s.len();
    assert(s@.take(n as int) == s@);
    while n > 0 && Spacing::Unicode.is_separator(s[n - 1])
        invariant
            n <= s.len(),
            trim_end(s@) == trim_end(s@.take(n as int)),
        decreases n,
    {
        assert(s@.take(n as int).drop_last() == s@.take(n - 1));
        n -= 1;
    }
    n
}

} // verus!
