//! What holds of words, lines and case folding, whatever the text.

use crate::text::{
    count, find, groups, is_upper, is_word, join, lemma_find_bound, lemma_word_len_bound,
    lemma_word_len_is, position, split, split_on, starts_with, trim_end, upper, word_len, words,
    Spacing,
};
use vstd::prelude::*;

verus! {

/// Whether `c` occurs nowhere in `s`.
pub open spec fn lacks(s: Seq<char>, c: char) -> bool {
    forall|i: int| 0 <= i < s.len() ==> #[trigger] s[i] != c
}

/// Whether `c` occurs in none of `parts`.
pub open spec fn all_lack(parts: Seq<Seq<char>>, c: char) -> bool {
    forall|i: int| 0 <= i < parts.len() ==> lacks(#[trigger] parts[i], c)
}

/// Whether each of `parts` is a word.
pub open spec fn all_words(parts: Seq<Seq<char>>, spacing: Spacing) -> bool {
    forall|i: int| 0 <= i < parts.len() ==> is_word(#[trigger] parts[i], spacing)
}

/// Whether none of `parts` holds a lower-case ASCII letter.
pub open spec fn all_upper(parts: Seq<Seq<char>>) -> bool {
    forall|i: int| 0 <= i < parts.len() ==> is_upper(#[trigger] parts[i])
}

/// Whether `s` is empty or starts with a separator.
pub open spec fn starts_apart(s: Seq<char>, spacing: Spacing) -> bool {
    s.len() == 0 || spacing.separates(s[0])
}

/// Whether `s` is empty or ends with a separator.
pub open spec fn ends_apart(s: Seq<char>, spacing: Spacing) -> bool {
    s.len() == 0 || spacing.separates(s.last())
}

/// Whether `s` is made of words with one space between each two
/// neighbours: the text that joining its own words gives back.
pub open spec fn is_spaced(s: Seq<char>) -> bool {
    join(words(s, Spacing::Ascii), seq![' ']) == s
}

/// Folding to upper case changes nothing in a text without lower-case
/// letters.
pub proof fn lemma_upper_fixed(s: Seq<char>)
    requires
        is_upper(s),
    ensures
        upper(s) == s,
{
    assert(upper(s) =~= s);
}

/// Folding to upper case twice is folding once.
pub proof fn lemma_upper_twice(s: Seq<char>)
    ensures
        upper(upper(s)) == upper(s),
        is_upper(upper(s)),
{
    assert(upper(upper(s)) =~= upper(s));
}

/// Folding to upper case goes through concatenation.
pub proof fn lemma_upper_concat(a: Seq<char>, b: Seq<char>)
    ensures
        upper(a + b) == upper(a) + upper(b),
{
    assert(upper(a + b) =~= upper(a) + upper(b));
}

/// The only word of a word is itself.
pub proof fn lemma_words_of_word(w: Seq<char>, spacing: Spacing)
    requires
        is_word(w, spacing),
    ensures
        words(w, spacing) == seq![w],
{
    lemma_word_len_is(w, spacing, w.len() as int);
    assert(w.take(w.len() as int) == w);
    assert(w.skip(w.len() as int) == Seq::<char>::empty());
    assert(words(w.skip(w.len() as int), spacing) == Seq::<Seq<char>>::empty());
}

/// Where two texts meet at a separator, or one of them is empty, the
/// words of both together are the words of the first and then those of
/// the second.
pub proof fn lemma_words_concat(a: Seq<char>, b: Seq<char>, spacing: Spacing)
    requires
        ends_apart(a, spacing) || starts_apart(b, spacing),
    ensures
        words(a + b, spacing) == words(a, spacing) + words(b, spacing),
    decreases a.len(),
{
    if a.len() == 0 {
        assert(a + b == b);
        assert(words(a, spacing) + words(b, spacing) == words(b, spacing));
    } else if spacing.separates(a[0]) {
        let t = a.drop_first();
        assert((a + b).drop_first() == t + b);
        if t.len() > 0 {
            assert(t.last() == a.last());
        }
        lemma_words_concat(t, b, spacing);
    } else {
        let n = word_len(a, spacing) as int;
        lemma_word_len_bound(a, spacing);
        if n < a.len() {
            let t = a.skip(n);
            assert forall|i: int| 0 <= i < n implies !spacing.separates(#[trigger] (a + b)[i]) by {
                assert((a + b)[i] == a[i]);
            }
            assert((a + b)[n] == a[n]);
            lemma_word_len_is(a + b, spacing, n);
            assert((a + b).take(n) == a.take(n));
            assert((a + b).skip(n) == t + b);
            assert(t.last() == a.last());
            lemma_words_concat(t, b, spacing);
            assert(seq![a.take(n)] + (words(t, spacing) + words(b, spacing)) == (seq![a.take(n)]
                + words(t, spacing)) + words(b, spacing));
        } else {
            assert(!spacing.separates(a.last()));
            assert forall|i: int| 0 <= i < n implies !spacing.separates(#[trigger] (a + b)[i]) by {
                assert((a + b)[i] == a[i]);
            }
            if b.len() > 0 {
                assert((a + b)[n] == b[0]);
            }
            lemma_word_len_is(a + b, spacing, n);
            assert((a + b).take(n) == a);
            assert((a + b).skip(n) == b);
            assert(a.take(n) == a);
            assert(a.skip(n) == Seq::<char>::empty());
            assert(words(a.skip(n), spacing) == Seq::<Seq<char>>::empty());
            assert(words(a, spacing) == seq![a]);
        }
    }
}

/// A text that holds one separator and nothing else has no words.
pub proof fn lemma_words_of_separator(c: char, spacing: Spacing)
    requires
        spacing.separates(c),
    ensures
        words(seq![c], spacing) == Seq::<Seq<char>>::empty(),
{
    let s = seq![c];
    assert(s.drop_first() == Seq::<char>::empty());
    assert(words(s.drop_first(), spacing) == Seq::<Seq<char>>::empty());
}

/// A separator between two texts parts their words.
pub proof fn lemma_words_around(a: Seq<char>, c: char, b: Seq<char>, spacing: Spacing)
    requires
        spacing.separates(c),
    ensures
        words(a + seq![c] + b, spacing) == words(a, spacing) + words(b, spacing),
{
    lemma_words_of_separator(c, spacing);
    lemma_words_concat(a, seq![c], spacing);
    assert((a + seq![c]).last() == c);
    lemma_words_concat(a + seq![c], b, spacing);
    assert(words(a, spacing) + Seq::<Seq<char>>::empty() == words(a, spacing));
}

/// The words of words that were joined with single spaces are those
/// words.
pub proof fn lemma_words_of_join(parts: Seq<Seq<char>>)
    requires
        all_words(parts, Spacing::Ascii),
    ensures
        words(join(parts, seq![' ']), Spacing::Ascii) == parts,
        is_spaced(join(parts, seq![' '])),
    decreases parts.len(),
{
    let spacing = Spacing::Ascii;
    if parts.len() == 0 {
    } else if parts.len() == 1 {
        lemma_words_of_word(parts[0], spacing);
        assert(parts == seq![parts[0]]);
    } else {
        let init = parts.drop_last();
        assert forall|i: int| 0 <= i < init.len() implies is_word(#[trigger] init[i], spacing) by {
            assert(init[i] == parts[i]);
        }
        lemma_words_of_join(init);
        lemma_words_of_word(parts.last(), spacing);
        lemma_words_around(join(init, seq![' ']), ' ', parts.last(), spacing);
        assert(init + seq![parts.last()] == parts);
    }
}

/// A character that occurs in no part and not in the separator occurs
/// nowhere in what joins the parts.
pub proof fn lemma_join_lacks(parts: Seq<Seq<char>>, sep: Seq<char>, c: char)
    requires
        all_lack(parts, c),
        lacks(sep, c),
    ensures
        lacks(join(parts, sep), c),
    decreases parts.len(),
{
    if parts.len() <= 1 {
    } else {
        let init = parts.drop_last();
        assert forall|i: int| 0 <= i < init.len() implies lacks(#[trigger] init[i], c) by {
            assert(init[i] == parts[i]);
        }
        lemma_join_lacks(init, sep, c);
    }
}

/// What joins texts without lower-case letters with single spaces has no
/// lower-case letter.
pub proof fn lemma_join_upper(parts: Seq<Seq<char>>)
    requires
        all_upper(parts),
    ensures
        is_upper(join(parts, seq![' '])),
    decreases parts.len(),
{
    if parts.len() <= 1 {
    } else {
        let init = parts.drop_last();
        assert forall|i: int| 0 <= i < init.len() implies is_upper(#[trigger] init[i]) by {
            assert(init[i] == parts[i]);
        }
        lemma_join_upper(init);
    }
}

/// A character that does not occur is counted zero times, and the place
/// of its first occurrence is the end.
pub proof fn lemma_lacks(s: Seq<char>, c: char)
    requires
        lacks(s, c),
    ensures
        count(s, c) == 0,
        position(s, c) == s.len(),
    decreases s.len(),
{
    if s.len() > 0 {
        let init = s.drop_last();
        assert forall|i: int| 0 <= i < init.len() implies #[trigger] init[i] != c by {
            assert(init[i] == s[i]);
        }
        lemma_lacks(init, c);
        lemma_position_lacks(s, c);
    }
}

/// The place of the first occurrence of a character that does not occur
/// is the end.
pub proof fn lemma_position_lacks(s: Seq<char>, c: char)
    requires
        lacks(s, c),
    ensures
        position(s, c) == s.len(),
    decreases s.len(),
{
    if s.len() > 0 {
        let t = s.drop_first();
        assert forall|i: int| 0 <= i < t.len() implies #[trigger] t[i] != c by {
            assert(t[i] == s[i + 1]);
        }
        lemma_position_lacks(t, c);
    }
}

/// The first occurrence of `c` in a text that starts with a text without
/// `c` and goes on with `c` is right after that start.
pub proof fn lemma_position_after(a: Seq<char>, c: char, b: Seq<char>)
    requires
        lacks(a, c),
    ensures
        position(a + seq![c] + b, c) == a.len(),
    decreases a.len(),
{
    let s = a + seq![c] + b;
    if a.len() == 0 {
        assert(s[0] == c);
    } else {
        let t = a.drop_first();
        assert(s[0] == a[0]);
        assert forall|i: int| 0 <= i < t.len() implies #[trigger] t[i] != c by {
            assert(t[i] == a[i + 1]);
        }
        assert(s.drop_first() == t + seq![c] + b);
        lemma_position_after(t, c, b);
    }
}

/// A text is parted in one piece more than it holds the character at
/// which it is parted.
pub proof fn lemma_split_len(s: Seq<char>, c: char)
    ensures
        split(s, c).len() == count(s, c) + 1,
    decreases s.len(),
{
    if s.len() > 0 {
        lemma_split_len(s.drop_last(), c);
    }
}

/// Appending a text without `c` to a text extends its last piece.
pub proof fn lemma_split_append(s: Seq<char>, t: Seq<char>, c: char)
    requires
        lacks(t, c),
    ensures
        split(s + t, c) == split(s, c).drop_last().push(split(s, c).last() + t),
    decreases t.len(),
{
    lemma_split_len(s, c);
    if t.len() == 0 {
        assert(s + t == s);
        assert(split(s, c).last() + t == split(s, c).last());
        assert(split(s, c).drop_last().push(split(s, c).last()) == split(s, c));
    } else {
        let init = t.drop_last();
        assert forall|i: int| 0 <= i < init.len() implies #[trigger] init[i] != c by {
            assert(init[i] == t[i]);
        }
        lemma_split_append(s, init, c);
        assert((s + t).drop_last() == s + init);
        assert((s + t).last() == t.last());
        let before = split(s + init, c);
        assert(before.last().push(t.last()) == split(s, c).last() + t);
        assert(before.drop_last() == split(s, c).drop_last());
    }
}

/// Appending `c` itself to a text adds an empty piece.
pub proof fn lemma_split_push(s: Seq<char>, c: char)
    ensures
        split(s + seq![c], c) == split(s, c).push(Seq::empty()),
{
    assert((s + seq![c]).drop_last() == s);
}

/// Trimming takes off whitespace that was appended.
pub proof fn lemma_trim_end_append(s: Seq<char>, c: char)
    requires
        crate::text::is_unicode_space(c),
    ensures
        trim_end(s.push(c)) == trim_end(s),
{
    assert(s.push(c).drop_last() == s);
}

/// Trimming leaves a text that does not end in whitespace as it is.
pub proof fn lemma_trim_end_fixed(s: Seq<char>)
    requires
        s.len() == 0 || !crate::text::is_unicode_space(s.last()),
    ensures
        trim_end(s) == s,
{
}


/// Up to the place of the first occurrence of `c` there is no `c`, and
/// at that place there is one unless the text ends there.
pub proof fn lemma_position_is(s: Seq<char>, c: char)
    ensures
        0 <= position(s, c) <= s.len(),
        forall|i: int| 0 <= i < position(s, c) ==> #[trigger] s[i] != c,
        position(s, c) < s.len() ==> s[position(s, c)] == c,
    decreases s.len(),
{
    if s.len() == 0 || s[0] == c {
    } else {
        let t = s.drop_first();
        lemma_position_is(t, c);
        assert forall|i: int| 0 <= i < position(s, c) implies #[trigger] s[i] != c by {
            if i > 0 {
                assert(s[i] == t[i - 1]);
            }
        }
        if position(s, c) < s.len() {
            assert(s[position(s, c)] == t[position(t, c)]);
        }
    }
}


/// Each word of a text is a word, and holds no lower-case letter where
/// the text holds none.
pub proof fn lemma_words_are_words(s: Seq<char>, spacing: Spacing)
    ensures
        all_words(words(s, spacing), spacing),
        is_upper(s) ==> all_upper(words(s, spacing)),
    decreases s.len(),
{
    if s.len() == 0 {
    } else if spacing.separates(s[0]) {
        let t = s.drop_first();
        lemma_words_are_words(t, spacing);
        if is_upper(s) {
            assert forall|i: int| 0 <= i < t.len() implies !('a' <= #[trigger] t[i] <= 'z') by {
                assert(t[i] == s[i + 1]);
            }
        }
    } else {
        let n = word_len(s, spacing) as int;
        lemma_word_len_bound(s, spacing);
        let first = s.take(n);
        let t = s.skip(n);
        lemma_words_are_words(t, spacing);
        let ws = words(s, spacing);
        assert(ws == seq![first] + words(t, spacing));
        assert forall|i: int| 0 <= i < first.len() implies !spacing.separates(
            #[trigger] first[i],
        ) by {
            assert(first[i] == s[i]);
        }
        assert(is_word(first, spacing));
        if is_upper(s) {
            assert forall|i: int| 0 <= i < t.len() implies !('a' <= #[trigger] t[i] <= 'z') by {
                assert(t[i] == s[i + n]);
            }
            assert forall|i: int| 0 <= i < first.len() implies !('a' <= #[trigger] first[i]
                <= 'z') by {
                assert(first[i] == s[i]);
            }
        }
        assert forall|k: int| 0 <= k < ws.len() implies is_word(#[trigger] ws[k], spacing) by {
            if k > 0 {
                assert(ws[k] == words(t, spacing)[k - 1]);
            }
        }
        if is_upper(s) {
            assert forall|k: int| 0 <= k < ws.len() implies is_upper(#[trigger] ws[k]) by {
                if k > 0 {
                    assert(ws[k] == words(t, spacing)[k - 1]);
                }
            }
        }
    }
}


/// A word is made of words with single spaces between them.
pub proof fn lemma_word_is_spaced(w: Seq<char>)
    requires
        is_word(w, Spacing::Ascii),
    ensures
        is_spaced(w),
        words(w, Spacing::Ascii) == seq![w],
{
    lemma_words_of_word(w, Spacing::Ascii);
}

/// Two words with a space between them are made of words with single
/// spaces between them.
pub proof fn lemma_pair_is_spaced(a: Seq<char>, b: Seq<char>)
    requires
        is_word(a, Spacing::Ascii),
        is_word(b, Spacing::Ascii),
    ensures
        is_spaced(a + seq![' '] + b),
        words(a + seq![' '] + b, Spacing::Ascii) == seq![a, b],
        join(seq![a, b], seq![' ']) == a + seq![' '] + b,
{
    lemma_words_of_word(a, Spacing::Ascii);
    lemma_words_of_word(b, Spacing::Ascii);
    lemma_words_around(a, ' ', b, Spacing::Ascii);
    let parts = seq![a, b];
    assert(seq![a] + seq![b] == parts);
    assert(parts.drop_last() == seq![a]);
    assert(join(parts.drop_last(), seq![' ']) == a);
}

/// The words of texts, one text after the other.
pub open spec fn flat(texts: Seq<Seq<char>>) -> Seq<Seq<char>>
    decreases texts.len(),
{
    if texts.len() == 0 {
        Seq::empty()
    } else {
        flat(texts.drop_last()) + words(texts.last(), Spacing::Ascii)
    }
}

/// The words of texts that were joined with a separator are the words of
/// the texts, one text after the other.
pub proof fn lemma_words_of_joined(texts: Seq<Seq<char>>, c: char)
    requires
        Spacing::Ascii.separates(c),
    ensures
        words(join(texts, seq![c]), Spacing::Ascii) == flat(texts),
    decreases texts.len(),
{
    if texts.len() == 0 {
    } else if texts.len() == 1 {
        assert(flat(texts.drop_last()) == Seq::<Seq<char>>::empty());
        assert(Seq::<Seq<char>>::empty() + words(texts[0], Spacing::Ascii) == words(
            texts[0],
            Spacing::Ascii,
        ));
    } else {
        lemma_words_of_joined(texts.drop_last(), c);
        lemma_words_around(join(texts.drop_last(), seq![c]), c, texts.last(), Spacing::Ascii);
    }
}

/// Joining two runs of texts joins each run and puts the separator
/// between them.
pub proof fn lemma_join_concat(a: Seq<Seq<char>>, b: Seq<Seq<char>>, sep: Seq<char>)
    requires
        a.len() > 0,
        b.len() > 0,
    ensures
        join(a + b, sep) == join(a, sep) + sep + join(b, sep),
    decreases b.len(),
{
    if b.len() == 1 {
        assert((a + b).drop_last() == a);
        assert((a + b).last() == b[0]);
    } else {
        let init = b.drop_last();
        lemma_join_concat(a, init, sep);
        assert((a + b).drop_last() == a + init);
        assert((a + b).last() == b.last());
        assert(join(a, sep) + sep + join(init, sep) + sep + b.last() == join(a, sep) + sep + (join(
            init,
            sep,
        ) + sep + b.last()));
    }
}

/// Texts that are each made of words with single spaces between them, and
/// of one word at least, give such a text when single spaces join them.
pub proof fn lemma_join_flat(texts: Seq<Seq<char>>)
    requires
        forall|i: int|
            0 <= i < texts.len() ==> is_spaced(#[trigger] texts[i]) && words(
                texts[i],
                Spacing::Ascii,
            ).len() > 0,
    ensures
        join(flat(texts), seq![' ']) == join(texts, seq![' ']),
        is_spaced(join(texts, seq![' '])),
        texts.len() > 0 ==> flat(texts).len() > 0,
    decreases texts.len(),
{
    lemma_words_of_joined(texts, ' ');
    if texts.len() == 0 {
    } else if texts.len() == 1 {
        assert(flat(texts.drop_last()) == Seq::<Seq<char>>::empty());
        assert(Seq::<Seq<char>>::empty() + words(texts[0], Spacing::Ascii) == words(
            texts[0],
            Spacing::Ascii,
        ));
    } else {
        let init = texts.drop_last();
        assert forall|i: int| 0 <= i < init.len() implies is_spaced(#[trigger] init[i]) && words(
            init[i],
            Spacing::Ascii,
        ).len() > 0 by {
            assert(init[i] == texts[i]);
        }
        lemma_join_flat(init);
        lemma_join_concat(flat(init), words(texts.last(), Spacing::Ascii), seq![' ']);
    }
}

/// Words taken one at a time are the words.
pub proof fn lemma_groups_one(parts: Seq<Seq<char>>)
    ensures
        groups(parts, 1) == parts,
    decreases parts.len(),
{
    if parts.len() == 0 {
    } else if parts.len() == 1 {
        assert(seq![parts[0]] == parts);
    } else {
        lemma_groups_one(parts.skip(1));
        assert(parts.take(1) == seq![parts[0]]);
        assert(join(parts.take(1), seq![' ']) == parts[0]);
        assert(seq![parts[0]] + parts.skip(1) == parts);
    }
}

/// Two more words behind an even number of words make one more pair.
pub proof fn lemma_groups_pair(a: Seq<Seq<char>>, x: Seq<char>, y: Seq<char>)
    requires
        a.len() % 2 == 0,
    ensures
        groups(a + seq![x, y], 2) == groups(a, 2) + seq![x + seq![' '] + y],
    decreases a.len(),
{
    let b = seq![x, y];
    assert(b.drop_last() == seq![x]);
    assert(join(b.drop_last(), seq![' ']) == x);
    assert(join(b, seq![' ']) == x + seq![' '] + y);
    if a.len() == 0 {
        assert(a + b == b);
        assert(groups(a, 2) + seq![x + seq![' '] + y] == seq![x + seq![' '] + y]);
    } else {
        let t = a.skip(2);
        lemma_groups_pair(t, x, y);
        assert((a + b).take(2) == a.take(2));
        assert((a + b).skip(2) == t + b);
        if a.len() == 2 {
            assert(a.take(2) == a);
            assert(groups(t, 2) == Seq::<Seq<char>>::empty());
        }
        assert(seq![join(a.take(2), seq![' '])] + (groups(t, 2) + seq![x + seq![' '] + y])
            == (seq![join(a.take(2), seq![' '])] + groups(t, 2)) + seq![x + seq![' '] + y]);
    }
}


/// Whether the last character of `pattern` stands nowhere else in it. No
/// two occurrences of such a pattern share a character.
pub open spec fn ends_apart_from_itself(pattern: Seq<char>) -> bool {
    pattern.len() > 0 && forall|k: int|
        0 <= k < pattern.len() - 1 ==> #[trigger] pattern[k] != pattern.last()
}

/// The place where a pattern stands, with no occurrence before it, is the
/// place where it is found.
pub proof fn lemma_find_is(s: Seq<char>, pattern: Seq<char>, i: int)
    requires
        0 <= i <= s.len(),
        starts_with(s.skip(i), pattern),
        forall|j: int| 0 <= j < i ==> !starts_with(#[trigger] s.skip(j), pattern),
    ensures
        find(s, pattern) == Some(i),
{
    lemma_find_bound(s, pattern);
}

/// What is found in a text is found at the same place in every text that
/// starts with it.
pub proof fn lemma_find_extends(x: Seq<char>, pattern: Seq<char>, y: Seq<char>)
    requires
        find(x, pattern).is_some(),
    ensures
        find(x + y, pattern) == find(x, pattern),
{
    let i = find(x, pattern).unwrap();
    let s = x + y;
    let n = pattern.len() as int;
    lemma_find_bound(x, pattern);
    assert(s.skip(i).take(n) == x.skip(i).take(n));
    assert forall|j: int| 0 <= j < i implies !starts_with(#[trigger] s.skip(j), pattern) by {
        assert(!starts_with(x.skip(j), pattern));
        assert(s.skip(j).take(n) == x.skip(j).take(n));
    }
    lemma_find_is(s, pattern, i);
}

/// A pattern that stands behind a text without it is found right there,
/// where no two occurrences of the pattern can share a character.
pub proof fn lemma_find_at_join(a: Seq<char>, pattern: Seq<char>, b: Seq<char>)
    requires
        ends_apart_from_itself(pattern),
        find(a, pattern).is_none(),
    ensures
        find(a + pattern + b, pattern) == Some(a.len() as int),
{
    let s = a + pattern + b;
    let n = pattern.len() as int;
    lemma_find_bound(a, pattern);
    assert(s.skip(a.len() as int).take(n) == pattern);
    assert forall|j: int| 0 <= j < a.len() implies !starts_with(#[trigger] s.skip(j), pattern) by {
        if j + n <= a.len() {
            assert(!starts_with(a.skip(j), pattern));
            assert(s.skip(j).take(n) == a.skip(j).take(n));
        } else if starts_with(s.skip(j), pattern) {
            let w = s.skip(j).take(n);
            let k = j + n - 1 - a.len();
            assert(w[n - 1] == s[j + n - 1]);
            assert(s[j + n - 1] == pattern[k]);
            assert(pattern[k] != pattern.last());
        }
    }
    lemma_find_is(s, pattern, a.len() as int);
}

/// Parting a text that ends with the pattern and a piece without it gives
/// the pieces of what stands before and then that piece, where no two
/// occurrences of the pattern can share a character.
pub proof fn lemma_split_on_append(x: Seq<char>, pattern: Seq<char>, t: Seq<char>)
    requires
        ends_apart_from_itself(pattern),
        find(t, pattern).is_none(),
    ensures
        split_on(x + pattern + t, pattern) == split_on(x, pattern) + seq![t],
    decreases x.len(),
{
    let s = x + pattern + t;
    let n = pattern.len() as int;
    match find(x, pattern) {
        Some(i) => {
            lemma_find_bound(x, pattern);
            lemma_find_extends(x, pattern, pattern + t);
            assert(x + (pattern + t) == s);
            let rest = x.skip(i + n);
            lemma_split_on_append(rest, pattern, t);
            assert(s.take(i) == x.take(i));
            assert(s.skip(i + n) == rest + pattern + t);
            assert(find(s, pattern) == Some(i));
            assert(split_on(s, pattern) == seq![s.take(i)] + split_on(s.skip(i + n), pattern));
            assert(split_on(x, pattern) == seq![x.take(i)] + split_on(rest, pattern));
            assert(seq![x.take(i)] + (split_on(rest, pattern) + seq![t]) == (seq![x.take(i)]
                + split_on(rest, pattern)) + seq![t]);
        },
        None => {
            lemma_find_at_join(x, pattern, t);
            assert(s.take(x.len() as int) == x);
            assert(s.skip(x.len() + n) == t);
            assert(split_on(t, pattern) == seq![t]);
            assert(split_on(x, pattern) == seq![x]);
            assert(split_on(s, pattern) == seq![s.take(x.len() as int)] + split_on(
                s.skip(x.len() + n),
                pattern,
            ));
        },
    }
}


/// Whether `b` stands nowhere in `s` right behind `a`.
pub open spec fn lacks_pair(s: Seq<char>, a: char, b: char) -> bool {
    forall|i: int| 0 <= i < s.len() - 1 ==> !(#[trigger] s[i] == a && s[i + 1] == b)
}

/// Two texts without a pair of characters make a text without it, unless
/// the pair stands where they meet.
pub proof fn lemma_concat_lacks_pair(x: Seq<char>, y: Seq<char>, a: char, b: char)
    requires
        lacks_pair(x, a, b),
        lacks_pair(y, a, b),
        x.len() == 0 || y.len() == 0 || x.last() != a || y[0] != b,
    ensures
        lacks_pair(x + y, a, b),
{
    let s = x + y;
    assert forall|i: int| 0 <= i < s.len() - 1 implies !(#[trigger] s[i] == a && s[i + 1] == b) by {
        if i + 1 < x.len() {
            assert(s[i] == x[i] && s[i + 1] == x[i + 1]);
        } else if i >= x.len() {
            assert(s[i] == y[i - x.len()] && s[i + 1] == y[i + 1 - x.len()]);
        } else {
            assert(s[i] == x.last() && s[i + 1] == y[0]);
        }
    }
}

/// Texts without a pair of characters that single spaces join make a text
/// without it.
pub proof fn lemma_join_lacks_pair(parts: Seq<Seq<char>>, a: char, b: char)
    requires
        a != ' ',
        b != ' ',
        forall|i: int| 0 <= i < parts.len() ==> lacks_pair(#[trigger] parts[i], a, b),
    ensures
        lacks_pair(join(parts, seq![' ']), a, b),
    decreases parts.len(),
{
    if parts.len() == 0 {
    } else if parts.len() == 1 {
    } else {
        let init = parts.drop_last();
        assert forall|i: int| 0 <= i < init.len() implies lacks_pair(#[trigger] init[i], a, b) by {
            assert(init[i] == parts[i]);
        }
        lemma_join_lacks_pair(init, a, b);
        lemma_concat_lacks_pair(join(init, seq![' ']), seq![' '], a, b);
        lemma_concat_lacks_pair(join(init, seq![' ']) + seq![' '], parts.last(), a, b);
    }
}

/// A pattern in which `b` stands right behind `a` occurs in no text
/// without that pair.
pub proof fn lemma_no_pair_no_find(s: Seq<char>, pattern: Seq<char>, k: int, a: char, b: char)
    requires
        lacks_pair(s, a, b),
        0 <= k,
        k + 1 < pattern.len(),
        pattern[k] == a,
        pattern[k + 1] == b,
    ensures
        find(s, pattern).is_none(),
{
    lemma_find_bound(s, pattern);
    if let Some(i) = find(s, pattern) {
        let w = s.skip(i).take(pattern.len() as int);
        assert(w[k] == s[i + k]);
        assert(w[k + 1] == s[i + k + 1]);
    }
}

} // verus!
