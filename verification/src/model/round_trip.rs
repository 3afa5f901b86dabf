//! Decoding gives back what was encoded: the values for which this holds,
//! and the proofs that it does.

use crate::model::types::{column_letter, decode_all, encode_all, letter_column};
use crate::model::{
    Boolean, Collection, Color, CommandName, Entity, List, Move, ParseError, Score,
    SimpleEntity, Vertex,
};
use crate::number::{is_float, lemma_numeral, lemma_unsigned_of_numeral, numeral, unsigned};
use crate::text::{groups, is_digit, is_upper, is_word, position, upper, words, Spacing};
use crate::text_laws::{
    all_lack, all_words, flat, is_spaced, lacks, lemma_groups_one,
    lemma_groups_pair, lemma_join_flat, lemma_join_lacks, lemma_lacks, lemma_pair_is_spaced,
    lemma_upper_fixed, lemma_upper_twice, lemma_word_is_spaced, lemma_words_around,
    lemma_words_of_join, lemma_words_of_joined, lemma_words_of_word,
};
use vstd::prelude::*;

verus! {

/// Whether `s` is not empty and made of upper-case ASCII letters and
/// decimal digits.
pub open spec fn is_plain(s: Seq<char>) -> bool {
    s.len() > 0 && forall|i: int|
        0 <= i < s.len() ==> ('A' <= #[trigger] s[i] <= 'Z' || is_digit(s[i]))
}

/// A text of upper-case letters and digits is a word in upper case that
/// holds neither plus sign nor line break.
pub proof fn lemma_plain(s: Seq<char>)
    requires
        is_plain(s),
    ensures
        is_word(s, Spacing::Ascii),
        is_word(s, Spacing::Unicode),
        is_upper(s),
        upper(s) == s,
        lacks(s, '+'),
        lacks(s, '\n'),
        lacks(s, ' '),
{
    lemma_upper_fixed(s);
}

/// A numeral is made of digits.
pub proof fn lemma_numeral_plain(n: nat)
    ensures
        is_plain(numeral(n)),
{
    lemma_numeral(n);
}

/// The text of a well-formed vertex is made of upper-case letters and
/// digits, and is longer than one character.
pub proof fn lemma_vertex_plain(v: Vertex)
    requires
        v.wf(),
    ensures
        is_plain(Vertex::encoded(v)),
        Vertex::encoded(v).len() >= 2,
        'A' <= Vertex::encoded(v)[0] <= 'T',
        Vertex::encoded(v)[0] != 'I',
        v is Coord ==> is_digit(Vertex::encoded(v)[1]),
{
    match v {
        Vertex::Coord(column, row) => {
            lemma_numeral(row as nat);
            let s = Vertex::encoded(v);
            assert forall|i: int| 0 <= i < s.len() implies ('A' <= #[trigger] s[i] <= 'Z'
                || is_digit(s[i])) by {
                if i > 0 {
                    assert(s[i] == numeral(row as nat)[i - 1]);
                }
            }
            assert(s[1] == numeral(row as nat)[0]);
        },
        Vertex::Pass => {
            reveal_strlit("PASS");
        },
        Vertex::Resign => {
            reveal_strlit("RESIGN");
        },
    }
}

/// No column has the letter `I`, and the text of a point holds none.
pub proof fn lemma_vertex_skips_letter(column: u8, row: u8)
    ensures
        column_letter(column) != 'I',
        lacks(Vertex::encoded(Vertex::Coord(column, row)), 'I'),
{
    lemma_numeral(row as nat);
    let s = Vertex::encoded(Vertex::Coord(column, row));
    assert forall|i: int| 0 <= i < s.len() implies #[trigger] s[i] != 'I' by {
        if i > 0 {
            assert(s[i] == numeral(row as nat)[i - 1]);
        }
    }
}

/// The letter `I` names no column when it is read, as no column is
/// written with it: a text that starts with it, in either case, is no
/// vertex.
pub proof fn lemma_letter_i_is_no_column(s: Seq<char>)
    requires
        s.len() > 0,
        s[0] == 'I' || s[0] == 'i',
    ensures
        Vertex::decoded(s).is_err(),
{
    reveal_strlit("PASS");
    reveal_strlit("RESIGN");
    assert(upper(s)[0] == 'I');
}

/// Decoding the text of a well-formed vertex gives the vertex back.
pub proof fn lemma_vertex_round_trip(v: Vertex)
    requires
        v.wf(),
    ensures
        Vertex::decoded(Vertex::encoded(v)) == Ok::<Vertex, ParseError>(v),
{
    let s = Vertex::encoded(v);
    lemma_vertex_plain(v);
    lemma_plain(s);
    reveal_strlit("PASS");
    reveal_strlit("RESIGN");
    match v {
        Vertex::Coord(column, row) => {
            assert(s.drop_first() == numeral(row as nat));
            lemma_unsigned_of_numeral(row as nat, 255);
            assert(s != "PASS"@) by {
                assert(is_digit(s[1]));
            }
            assert(s != "RESIGN"@) by {
                assert(is_digit(s[1]));
            }
            assert(letter_column(s[0]) == column);
        },
        Vertex::Pass => {},
        Vertex::Resign => {
            assert("RESIGN"@ != "PASS"@);
        },
    }
}

/// Decoding gives a vertex back from its text only where the vertex is
/// well formed.
pub proof fn lemma_vertex_round_trip_only(v: Vertex)
    requires
        Vertex::decoded(Vertex::encoded(v)) == Ok::<Vertex, ParseError>(v),
    ensures
        v.wf(),
{
}

/// The text of a well-formed vertex names no colour.
pub proof fn lemma_vertex_is_no_color(v: Vertex)
    requires
        v.wf(),
    ensures
        Color::decoded(Vertex::encoded(v)).is_err(),
{
    let s = Vertex::encoded(v);
    lemma_vertex_plain(v);
    lemma_plain(s);
    reveal_strlit("PASS");
    reveal_strlit("RESIGN");
    reveal_strlit("B");
    reveal_strlit("W");
    reveal_strlit("BLACK");
    reveal_strlit("WHITE");
    match v {
        Vertex::Coord(_, _) => {
            assert(is_digit(s[1]));
        },
        _ => {},
    }
}

/// Decoding the letter of a colour gives the colour back; the letter is
/// no vertex.
pub proof fn lemma_color_round_trip(c: Color)
    ensures
        Color::decoded(Color::encoded(c)) == Ok::<Color, ParseError>(c),
        Vertex::decoded(Color::encoded(c)).is_err(),
        is_plain(Color::encoded(c)),
        Color::encoded(c).len() == 1,
{
    let s = Color::encoded(c);
    reveal_strlit("B");
    reveal_strlit("W");
    reveal_strlit("BLACK");
    reveal_strlit("WHITE");
    reveal_strlit("PASS");
    reveal_strlit("RESIGN");
    assert(is_plain(s));
    lemma_plain(s);
    assert(s.drop_first() == Seq::<char>::empty());
}

/// The words of the text of a well-formed move are the letter of its
/// colour and the text of its vertex, whatever follows after whitespace.
pub proof fn lemma_move_words(m: Move, tail: Seq<char>)
    requires
        m.wf(),
        crate::text_laws::starts_apart(tail, Spacing::Ascii),
    ensures
        words(Move::encoded(m) + tail, Spacing::Ascii) == seq![
            Color::encoded(m.color),
            Vertex::encoded(m.vertex),
        ] + words(tail, Spacing::Ascii),
        upper(Move::encoded(m)) == Move::encoded(m),
{
    let c = Color::encoded(m.color);
    let v = Vertex::encoded(m.vertex);
    lemma_color_round_trip(m.color);
    lemma_vertex_plain(m.vertex);
    lemma_plain(c);
    lemma_plain(v);
    lemma_words_of_word(c, Spacing::Ascii);
    lemma_words_of_word(v, Spacing::Ascii);
    lemma_words_around(c, ' ', v, Spacing::Ascii);
    crate::text_laws::lemma_words_concat(c + seq![' '] + v, tail, Spacing::Ascii);
    assert(seq![c] + seq![v] == seq![c, v]);
    assert(is_upper(Move::encoded(m)));
    lemma_upper_fixed(Move::encoded(m));
}

/// Decoding the text of a well-formed move gives the move back; the text
/// is neither vertex nor colour.
pub proof fn lemma_move_round_trip(m: Move)
    requires
        m.wf(),
    ensures
        Move::decoded(Move::encoded(m)) == Ok::<Move, ParseError>(m),
        Vertex::decoded(Move::encoded(m)).is_err(),
        Color::decoded(Move::encoded(m)).is_err(),
{
    let s = Move::encoded(m);
    let c = Color::encoded(m.color);
    let v = Vertex::encoded(m.vertex);
    lemma_move_words(m, Seq::empty());
    assert(s + Seq::<char>::empty() == s);
    assert(words(Seq::<char>::empty(), Spacing::Ascii) == Seq::<Seq<char>>::empty());
    assert(seq![c, v] + Seq::<Seq<char>>::empty() == seq![c, v]);
    lemma_color_round_trip(m.color);
    lemma_vertex_round_trip(m.vertex);
    lemma_vertex_plain(m.vertex);
    reveal_strlit("B");
    reveal_strlit("W");
    reveal_strlit("BLACK");
    reveal_strlit("WHITE");
    reveal_strlit("PASS");
    reveal_strlit("RESIGN");
    assert(s[0] == c[0]);
    assert(s[1] == ' ');
    assert(s.len() == 2 + v.len());
    assert(s.drop_first()[0] == ' ');
    assert(unsigned(s.drop_first(), 255).is_none());
}

/// Decoding the text of a well-formed vertex, colour or move gives the
/// value back.
pub proof fn lemma_simple_entity_round_trip(e: SimpleEntity)
    requires
        e.wf(),
    ensures
        SimpleEntity::decoded(SimpleEntity::encoded(e)) == Ok::<SimpleEntity, ParseError>(e),
{
    match e {
        SimpleEntity::Vertex(v) => {
            lemma_vertex_round_trip(v);
        },
        SimpleEntity::Color(c) => {
            lemma_color_round_trip(c);
        },
        SimpleEntity::Move(m) => {
            lemma_move_round_trip(m);
        },
    }
}

/// What a text decodes to as a truth value depends on its letters alone,
/// not on their case.
pub proof fn lemma_boolean_ignores_case(s: Seq<char>, t: Seq<char>)
    requires
        upper(s) == upper(t),
    ensures
        Boolean::decoded(s) == Boolean::decoded(t),
{
}

/// Decoding the text of a truth value gives the value back, and so does
/// decoding that text in upper case.
pub proof fn lemma_boolean_round_trip(b: Boolean)
    ensures
        Boolean::decoded(Boolean::encoded(b)) == Ok::<Boolean, ParseError>(b),
        Boolean::decoded(upper(Boolean::encoded(b))) == Ok::<Boolean, ParseError>(b),
{
    reveal_strlit("true");
    reveal_strlit("false");
    reveal_strlit("TRUE");
    reveal_strlit("FALSE");
    assert(upper("true"@) =~= "TRUE"@);
    assert(upper("false"@) =~= "FALSE"@);
    lemma_upper_twice(Boolean::encoded(b));
}

/// Each of the two literals names its truth value in any mix of upper
/// and lower case: a text that differs from the literal in the case of
/// its letters alone decodes to the value of the literal.
pub proof fn lemma_boolean_in_any_case(s: Seq<char>, b: Boolean)
    requires
        upper(s) == upper(Boolean::encoded(b)),
    ensures
        Boolean::decoded(s) == Ok::<Boolean, ParseError>(b),
{
    lemma_boolean_ignores_case(s, Boolean::encoded(b));
    lemma_boolean_round_trip(b);
}

/// What makes a text no score: a winner other than `W` and `B`, no
/// margin, or a margin that is no number. The one text that needs neither
/// winner nor margin is the score of a draw.
pub proof fn lemma_score_rejects(s: Seq<char>)
    requires
        s != "0"@,
    ensures
        s.take(position(s, '+')) != "W"@ && s.take(position(s, '+')) != "B"@ ==> Score::decoded(
            s,
        ).is_err(),
        position(s, '+') == s.len() ==> Score::decoded(s).is_err(),
        !is_float(s.skip(position(s, '+') + 1)) ==> Score::decoded(s).is_err(),
{
}

/// A text that decodes as a score is a score, and decodes to itself.
pub proof fn lemma_score_keeps_text(s: Seq<char>)
    ensures
        Score::decoded(s) matches Ok(t) ==> t == s && Score::encoded(t) == s,
{
}


/// Where decoding gives back each of `items` from its text, it gives back
/// all of them from their texts.
pub proof fn lemma_decode_all_encoded<T: Entity>(items: Seq<T::V>)
    requires
        forall|i: int|
            0 <= i < items.len() ==> T::decoded(T::encoded(#[trigger] items[i])) == Ok::<
                T::V,
                ParseError,
            >(items[i]),
    ensures
        decode_all::<T>(encode_all::<T>(items)) == Ok::<Seq<T::V>, ParseError>(items),
    decreases items.len(),
{
    if items.len() == 0 {
        assert(items == Seq::<T::V>::empty());
    } else {
        let init = items.drop_last();
        assert forall|i: int| 0 <= i < init.len() implies T::decoded(
            T::encoded(#[trigger] init[i]),
        ) == Ok::<T::V, ParseError>(init[i]) by {
            assert(init[i] == items[i]);
        }
        lemma_decode_all_encoded::<T>(init);
        assert(encode_all::<T>(items).drop_last() == encode_all::<T>(init));
        assert(encode_all::<T>(items).last() == T::encoded(items.last()));
        assert(init.push(items.last()) == items);
    }
}

/// Where texts decode to values, there is one value for each text, and
/// each text decodes to its value.
pub proof fn lemma_decode_all_each<T: Entity>(parts: Seq<Seq<char>>)
    ensures
        decode_all::<T>(parts) matches Ok(items) ==> items.len() == parts.len() && forall|i: int|
            0 <= i < parts.len() ==> T::decoded(#[trigger] parts[i]) == Ok::<T::V, ParseError>(
                items[i],
            ),
    decreases parts.len(),
{
    if parts.len() > 0 {
        let init = parts.drop_last();
        lemma_decode_all_each::<T>(init);
        if let Ok(items) = decode_all::<T>(parts) {
            let before = decode_all::<T>(init).unwrap();
            assert forall|i: int| 0 <= i < parts.len() implies T::decoded(#[trigger] parts[i])
                == Ok::<T::V, ParseError>(items[i]) by {
                if i < init.len() {
                    assert(parts[i] == init[i]);
                    assert(items[i] == before[i]);
                }
            }
        }
    }
}

/// Whether every text that stands for one of `items` is a word from which
/// decoding gives the item back.
pub open spec fn all_round_trip<T: Entity>(items: Seq<T::V>) -> bool {
    forall|i: int|
        0 <= i < items.len() ==> {
            &&& T::decoded(T::encoded(#[trigger] items[i])) == Ok::<T::V, ParseError>(items[i])
            &&& is_word(T::encoded(items[i]), Spacing::Ascii)
        }
}

/// The text of a list whose items are words is made of these words with
/// single spaces between them, in one line.
pub proof fn lemma_list_text<T: Entity>(items: Seq<T::V>)
    requires
        all_round_trip::<T>(items),
    ensures
        words(List::<T>::encoded(items), Spacing::Ascii) == encode_all::<T>(items),
        is_spaced(List::<T>::encoded(items)),
        lacks(List::<T>::encoded(items), '\n'),
{
    let texts = encode_all::<T>(items);
    assert(all_words(texts, Spacing::Ascii));
    assert(all_lack(texts, '\n')) by {
        assert forall|i: int| 0 <= i < texts.len() implies lacks(#[trigger] texts[i], '\n') by {
            assert(is_word(texts[i], Spacing::Ascii));
        }
    }
    lemma_words_of_join(texts);
    lemma_join_lacks(texts, seq![' '], '\n');
}

/// Decoding the text of a list gives the list back, where every item is
/// written as one word from which decoding gives it back.
pub proof fn lemma_list_round_trip<T: Entity>(items: Seq<T::V>)
    requires
        all_round_trip::<T>(items),
        T::width() == 1,
    ensures
        List::<T>::decoded(List::<T>::encoded(items)) == Ok::<Seq<T::V>, ParseError>(items),
{
    lemma_list_text::<T>(items);
    lemma_lacks(List::<T>::encoded(items), '\n');
    lemma_groups_one(encode_all::<T>(items));
    lemma_decode_all_encoded::<T>(items);
}

/// Whether every vertex of `items` is well formed.
pub open spec fn all_wf(items: Seq<Vertex>) -> bool {
    forall|i: int| 0 <= i < items.len() ==> (#[trigger] items[i]).wf()
}

/// Well-formed vertices are written as words from which decoding gives
/// them back.
pub proof fn lemma_vertices_round_trip(items: Seq<Vertex>)
    requires
        all_wf(items),
    ensures
        all_round_trip::<Vertex>(items),
{
    assert forall|i: int| 0 <= i < items.len() implies {
        &&& Vertex::decoded(Vertex::encoded(#[trigger] items[i])) == Ok::<Vertex, ParseError>(
            items[i],
        )
        &&& is_word(Vertex::encoded(items[i]), Spacing::Ascii)
    } by {
        lemma_vertex_round_trip(items[i]);
        lemma_vertex_plain(items[i]);
        lemma_plain(Vertex::encoded(items[i]));
    }
}

/// Words are written as themselves, and decoding gives them back.
pub proof fn lemma_strings_round_trip(items: Seq<Seq<char>>)
    requires
        all_words(items, Spacing::Ascii),
    ensures
        all_round_trip::<String>(items),
{
    assert forall|i: int| 0 <= i < items.len() implies {
        &&& <String as Entity>::decoded(<String as Entity>::encoded(#[trigger] items[i])) == Ok::<
            Seq<char>,
            ParseError,
        >(items[i])
        &&& is_word(<String as Entity>::encoded(items[i]), Spacing::Ascii)
    } by {
        assert(is_word(items[i], Spacing::Ascii));
    }
}

/// Whether every move of `items` is well formed.
pub open spec fn all_moves_wf(items: Seq<Move>) -> bool {
    forall|i: int| 0 <= i < items.len() ==> (#[trigger] items[i]).wf()
}

/// The text of a well-formed move has two words, the letter of its colour
/// and the text of its vertex, with one space between them, and holds no
/// line break.
pub proof fn lemma_move_text(m: Move)
    requires
        m.wf(),
    ensures
        words(Move::encoded(m), Spacing::Ascii) == seq![
            Color::encoded(m.color),
            Vertex::encoded(m.vertex),
        ],
        is_spaced(Move::encoded(m)),
        lacks(Move::encoded(m), '\n'),
        Vertex::decoded(Color::encoded(m.color)).is_err(),
{
    let c = Color::encoded(m.color);
    let v = Vertex::encoded(m.vertex);
    lemma_color_round_trip(m.color);
    lemma_vertex_plain(m.vertex);
    lemma_plain(c);
    lemma_plain(v);
    lemma_pair_is_spaced(c, v);
}

/// The words of the texts of well-formed moves come in pairs, and taken
/// two at a time they are the texts of the moves.
pub proof fn lemma_moves_in_pairs(items: Seq<Move>)
    requires
        all_moves_wf(items),
    ensures
        flat(encode_all::<Move>(items)).len() == 2 * items.len(),
        groups(flat(encode_all::<Move>(items)), 2) == encode_all::<Move>(items),
    decreases items.len(),
{
    let texts = encode_all::<Move>(items);
    if items.len() == 0 {
        assert(flat(texts) == Seq::<Seq<char>>::empty());
        assert(texts == Seq::<Seq<char>>::empty());
    } else {
        let init = items.drop_last();
        let m = items.last();
        assert forall|i: int| 0 <= i < init.len() implies (#[trigger] init[i]).wf() by {
            assert(init[i] == items[i]);
        }
        lemma_moves_in_pairs(init);
        lemma_move_text(m);
        assert(texts.drop_last() == encode_all::<Move>(init));
        assert(texts.last() == Move::encoded(m));
        lemma_groups_pair(
            flat(encode_all::<Move>(init)),
            Color::encoded(m.color),
            Vertex::encoded(m.vertex),
        );
        assert(encode_all::<Move>(init).push(Move::encoded(m)) == texts);
    }
}

/// Decoding the text of a list of well-formed moves gives the list back,
/// and the text is made of words with single spaces between them.
#[verifier::rlimit(40)]
pub proof fn lemma_move_list_round_trip(items: Seq<Move>)
    requires
        all_moves_wf(items),
    ensures
        is_spaced(List::<Move>::encoded(items)),
        List::<Move>::decoded(List::<Move>::encoded(items)) == Ok::<Seq<Move>, ParseError>(items),
{
    let texts = encode_all::<Move>(items);
    let s = List::<Move>::encoded(items);
    assert forall|i: int| 0 <= i < texts.len() implies is_spaced(#[trigger] texts[i]) && words(
        texts[i],
        Spacing::Ascii,
    ).len() > 0 && lacks(texts[i], '\n') by {
        lemma_move_text(items[i]);
    }
    assert forall|i: int| 0 <= i < items.len() implies Move::decoded(
        Move::encoded(#[trigger] items[i]),
    ) == Ok::<Move, ParseError>(items[i]) by {
        lemma_move_round_trip(items[i]);
    }
    assert(all_lack(texts, '\n'));
    lemma_join_flat(texts);
    lemma_words_of_joined(texts, ' ');
    lemma_join_lacks(texts, seq![' '], '\n');
    lemma_lacks(s, '\n');
    lemma_moves_in_pairs(items);
    lemma_decode_all_encoded::<Move>(items);
}

/// Whether decoding gives a collection back from its text: its vertices
/// are well formed and it holds no move. A move is written in two words,
/// which are read as two items, a colour and a vertex.
pub open spec fn all_single(items: Seq<SimpleEntity>) -> bool {
    forall|i: int| 0 <= i < items.len() ==> (#[trigger] items[i]).wf() && !(items[i] is Move)
}

/// The words of the text of a well-formed vertex, colour or move.
pub open spec fn entity_words(e: SimpleEntity) -> Seq<Seq<char>> {
    match e {
        SimpleEntity::Vertex(v) => seq![Vertex::encoded(v)],
        SimpleEntity::Color(c) => seq![Color::encoded(c)],
        SimpleEntity::Move(m) => seq![Color::encoded(m.color), Vertex::encoded(m.vertex)],
    }
}

/// The text of a well-formed vertex, colour or move is made of its words
/// with single spaces between them, and holds no line break.
pub proof fn lemma_entity_text(e: SimpleEntity)
    requires
        e.wf(),
    ensures
        words(SimpleEntity::encoded(e), Spacing::Ascii) == entity_words(e),
        is_spaced(SimpleEntity::encoded(e)),
        lacks(SimpleEntity::encoded(e), '\n'),
{
    match e {
        SimpleEntity::Vertex(v) => {
            lemma_vertex_plain(v);
            lemma_plain(Vertex::encoded(v));
            lemma_word_is_spaced(Vertex::encoded(v));
        },
        SimpleEntity::Color(c) => {
            lemma_color_round_trip(c);
            lemma_plain(Color::encoded(c));
            lemma_word_is_spaced(Color::encoded(c));
        },
        SimpleEntity::Move(m) => {
            lemma_move_text(m);
        },
    }
}

/// Decoding the text of a collection gives the collection back, where
/// it holds well-formed vertices and colours alone, and the text is made of
/// words with single spaces between them.
pub proof fn lemma_collection_round_trip(items: Seq<SimpleEntity>)
    requires
        all_single(items),
    ensures
        Collection::decoded(Collection::encoded(items)) == Ok::<Seq<SimpleEntity>, ParseError>(
            items,
        ),
        is_spaced(Collection::encoded(items)),
{
    assert forall|i: int| 0 <= i < items.len() implies {
        &&& SimpleEntity::decoded(SimpleEntity::encoded(#[trigger] items[i])) == Ok::<
            SimpleEntity,
            ParseError,
        >(items[i])
        &&& is_word(SimpleEntity::encoded(items[i]), Spacing::Ascii)
    } by {
        lemma_simple_entity_round_trip(items[i]);
        lemma_entity_text(items[i]);
        lemma_words_of_word_back(SimpleEntity::encoded(items[i]));
    }
    lemma_list_text::<SimpleEntity>(items);
    lemma_decode_all_encoded::<SimpleEntity>(items);
}

/// A text whose only word is itself is a word.
pub proof fn lemma_words_of_word_back(w: Seq<char>)
    requires
        words(w, Spacing::Ascii) == seq![w],
    ensures
        is_word(w, Spacing::Ascii),
{
    crate::text_laws::lemma_words_are_words(w, Spacing::Ascii);
    assert(words(w, Spacing::Ascii)[0] == w);
}

/// Whether `s` is made of lower-case letters, hyphens and underscores,
/// starts with a letter, and is as long as a command name is: four
/// characters, or seven and more.
pub open spec fn is_name_like(s: Seq<char>) -> bool {
    &&& (s.len() == 4 || s.len() >= 7)
    &&& 'a' <= s[0] <= 'z'
    &&& forall|i: int|
        0 <= i < s.len() ==> ('a' <= #[trigger] s[i] <= 'z' || s[i] == '_' || s[i] == '-')
}

/// What is made like a command name is a word that holds neither plus
/// sign nor line break, is no number, and names no colour in any case.
pub proof fn lemma_name_like(s: Seq<char>)
    requires
        is_name_like(s),
    ensures
        is_word(s, Spacing::Ascii),
        lacks(s, '+'),
        lacks(s, '\n'),
        lacks(s, ' '),
        unsigned(s, u32::MAX as nat).is_none(),
        Color::decoded(s).is_err(),
        Color::decoded(upper(s)).is_err(),
{
    reveal_strlit("B");
    reveal_strlit("W");
    reveal_strlit("BLACK");
    reveal_strlit("WHITE");
    lemma_upper_twice(s);
    assert(!is_digit(s[0]));
    assert(crate::number::without_plus(s) == s);
}

/// The word of every command name is made like a command name.
#[verifier::rlimit(30)]
pub proof fn lemma_name_text(n: CommandName)
    ensures
        is_name_like(CommandName::encoded(n)),
{
    reveal_strlit("analyze");
    reveal_strlit("boardsize");
    reveal_strlit("clear_board");
    reveal_strlit("clear_cache");
    reveal_strlit("cputime");
    reveal_strlit("final_score");
    reveal_strlit("final_status_list");
    reveal_strlit("fixed_handicap");
    reveal_strlit("genmove");
    reveal_strlit("genmove_analyze");
    reveal_strlit("get_komi");
    reveal_strlit("gomill-cpu_time");
    reveal_strlit("kata-analyze");
    reveal_strlit("kata-genmove_analyze");
    reveal_strlit("kata-get-param");
    reveal_strlit("kata-get-rules");
    reveal_strlit("kata-list_time_settings");
    reveal_strlit("kata-raw-nn");
    reveal_strlit("kata-set-param");
    reveal_strlit("kata-set-rule");
    reveal_strlit("kata-set-rules");
    reveal_strlit("kgs-rules");
    reveal_strlit("kgs-time_settings");
    reveal_strlit("known_command");
    reveal_strlit("komi");
    reveal_strlit("list_commands");
    reveal_strlit("loadsgf");
    reveal_strlit("lz-analyze");
    reveal_strlit("lz-genmove_analyze");
    reveal_strlit("name");
    reveal_strlit("place_free_handicap");
    reveal_strlit("play");
    reveal_strlit("protocol_version");
    reveal_strlit("quit");
    reveal_strlit("rectangular_boardsize");
    reveal_strlit("reg_genmove");
    reveal_strlit("set_free_handicap");
    reveal_strlit("set_position");
    reveal_strlit("showboard");
    reveal_strlit("stop");
    reveal_strlit("time_left");
    reveal_strlit("time_settings");
    reveal_strlit("undo");
    reveal_strlit("unknown");
    reveal_strlit("version");
}

/// A word that names a command is made like a command name.
#[verifier::rlimit(30)]
pub proof fn lemma_name_decoded(s: Seq<char>)
    requires
        CommandName::decoded(s).is_ok(),
    ensures
        is_name_like(s),
{
    reveal_strlit("analyze");
    reveal_strlit("boardsize");
    reveal_strlit("clear_board");
    reveal_strlit("clear_cache");
    reveal_strlit("cputime");
    reveal_strlit("final_score");
    reveal_strlit("final_status_list");
    reveal_strlit("fixed_handicap");
    reveal_strlit("genmove");
    reveal_strlit("genmove_analyze");
    reveal_strlit("get_komi");
    reveal_strlit("gomill-cpu_time");
    reveal_strlit("kata-analyze");
    reveal_strlit("kata-genmove_analyze");
    reveal_strlit("kata-get-param");
    reveal_strlit("kata-get-rules");
    reveal_strlit("kata-list_time_settings");
    reveal_strlit("kata-raw-nn");
    reveal_strlit("kata-set-param");
    reveal_strlit("kata-set-rule");
    reveal_strlit("kata-set-rules");
    reveal_strlit("kgs-rules");
    reveal_strlit("kgs-time_settings");
    reveal_strlit("known_command");
    reveal_strlit("komi");
    reveal_strlit("list_commands");
    reveal_strlit("loadsgf");
    reveal_strlit("lz-analyze");
    reveal_strlit("lz-genmove_analyze");
    reveal_strlit("name");
    reveal_strlit("place_free_handicap");
    reveal_strlit("play");
    reveal_strlit("protocol_version");
    reveal_strlit("quit");
    reveal_strlit("rectangular_boardsize");
    reveal_strlit("reg_genmove");
    reveal_strlit("set_free_handicap");
    reveal_strlit("set_position");
    reveal_strlit("showboard");
    reveal_strlit("stop");
    reveal_strlit("time_left");
    reveal_strlit("time_settings");
    reveal_strlit("undo");
    reveal_strlit("unknown");
    reveal_strlit("version");
}

/// Whether `n` is a name that has a word of its own. `Unknown` stands
/// for the words that name nothing, and so the word that is written for
/// it names nothing either.
pub open spec fn is_named(n: CommandName) -> bool {
    n != CommandName::Unknown
}

/// The character of `s` at `i`, or a space where `s` ends before it.
pub open spec fn char_at(s: Seq<char>, i: int) -> char {
    if 0 <= i < s.len() {
        s[i]
    } else {
        ' '
    }
}

/// The length of a text and four of its characters: enough to tell the
/// words of the command names apart.
pub open spec fn mark(s: Seq<char>) -> (nat, char, char, char, char) {
    (s.len(), char_at(s, 0), char_at(s, 5), char_at(s, 8), char_at(s, 9))
}

/// The marks of the words of the command names, no two of them the same.
#[verifier::rlimit(30)]
pub proof fn lemma_name_marks()
    ensures
        mark("analyze"@) == (7nat, 'a', 'z', ' ', ' '),
        mark("boardsize"@) == (9nat, 'b', 's', 'e', ' '),
        mark("clear_board"@) == (11nat, 'c', '_', 'a', 'r'),
        mark("clear_cache"@) == (11nat, 'c', '_', 'c', 'h'),
        mark("cputime"@) == (7nat, 'c', 'm', ' ', ' '),
        mark("final_score"@) == (11nat, 'f', '_', 'o', 'r'),
        mark("final_status_list"@) == (17nat, 'f', '_', 'a', 't'),
        mark("fixed_handicap"@) == (14nat, 'f', '_', 'n', 'd'),
        mark("genmove"@) == (7nat, 'g', 'v', ' ', ' '),
        mark("genmove_analyze"@) == (15nat, 'g', 'v', 'a', 'n'),
        mark("get_komi"@) == (8nat, 'g', 'o', ' ', ' '),
        mark("gomill-cpu_time"@) == (15nat, 'g', 'l', 'p', 'u'),
        mark("kata-analyze"@) == (12nat, 'k', 'a', 'l', 'y'),
        mark("kata-genmove_analyze"@) == (20nat, 'k', 'g', 'm', 'o'),
        mark("kata-get-param"@) == (14nat, 'k', 'g', '-', 'p'),
        mark("kata-get-rules"@) == (14nat, 'k', 'g', '-', 'r'),
        mark("kata-list_time_settings"@) == (23nat, 'k', 'l', 't', '_'),
        mark("kata-raw-nn"@) == (11nat, 'k', 'r', '-', 'n'),
        mark("kata-set-param"@) == (14nat, 'k', 's', '-', 'p'),
        mark("kata-set-rule"@) == (13nat, 'k', 's', '-', 'r'),
        mark("kata-set-rules"@) == (14nat, 'k', 's', '-', 'r'),
        mark("kgs-rules"@) == (9nat, 'k', 'u', 's', ' '),
        mark("kgs-time_settings"@) == (17nat, 'k', 'i', '_', 's'),
        mark("known_command"@) == (13nat, 'k', '_', 'm', 'm'),
        mark("komi"@) == (4nat, 'k', ' ', ' ', ' '),
        mark("list_commands"@) == (13nat, 'l', 'c', 'm', 'a'),
        mark("loadsgf"@) == (7nat, 'l', 'g', ' ', ' '),
        mark("lz-analyze"@) == (10nat, 'l', 'a', 'z', 'e'),
        mark("lz-genmove_analyze"@) == (18nat, 'l', 'n', 'v', 'e'),
        mark("name"@) == (4nat, 'n', ' ', ' ', ' '),
        mark("place_free_handicap"@) == (19nat, 'p', '_', 'e', 'e'),
        mark("play"@) == (4nat, 'p', ' ', ' ', ' '),
        mark("protocol_version"@) == (16nat, 'p', 'c', '_', 'v'),
        mark("quit"@) == (4nat, 'q', ' ', ' ', ' '),
        mark("rectangular_boardsize"@) == (21nat, 'r', 'n', 'l', 'a'),
        mark("reg_genmove"@) == (11nat, 'r', 'e', 'o', 'v'),
        mark("set_free_handicap"@) == (17nat, 's', 'r', '_', 'h'),
        mark("set_position"@) == (12nat, 's', 'o', 't', 'i'),
        mark("showboard"@) == (9nat, 's', 'o', 'd', ' '),
        mark("stop"@) == (4nat, 's', ' ', ' ', ' '),
        mark("time_left"@) == (9nat, 't', 'l', 't', ' '),
        mark("time_settings"@) == (13nat, 't', 's', 't', 'i'),
        mark("undo"@) == (4nat, 'u', ' ', ' ', ' '),
        mark("unknown"@) == (7nat, 'u', 'w', ' ', ' '),
        mark("version"@) == (7nat, 'v', 'o', ' ', ' '),
{
    reveal_strlit("analyze");
    reveal_strlit("boardsize");
    reveal_strlit("clear_board");
    reveal_strlit("clear_cache");
    reveal_strlit("cputime");
    reveal_strlit("final_score");
    reveal_strlit("final_status_list");
    reveal_strlit("fixed_handicap");
    reveal_strlit("genmove");
    reveal_strlit("genmove_analyze");
    reveal_strlit("get_komi");
    reveal_strlit("gomill-cpu_time");
    reveal_strlit("kata-analyze");
    reveal_strlit("kata-genmove_analyze");
    reveal_strlit("kata-get-param");
    reveal_strlit("kata-get-rules");
    reveal_strlit("kata-list_time_settings");
    reveal_strlit("kata-raw-nn");
    reveal_strlit("kata-set-param");
    reveal_strlit("kata-set-rule");
    reveal_strlit("kata-set-rules");
    reveal_strlit("kgs-rules");
    reveal_strlit("kgs-time_settings");
    reveal_strlit("known_command");
    reveal_strlit("komi");
    reveal_strlit("list_commands");
    reveal_strlit("loadsgf");
    reveal_strlit("lz-analyze");
    reveal_strlit("lz-genmove_analyze");
    reveal_strlit("name");
    reveal_strlit("place_free_handicap");
    reveal_strlit("play");
    reveal_strlit("protocol_version");
    reveal_strlit("quit");
    reveal_strlit("rectangular_boardsize");
    reveal_strlit("reg_genmove");
    reveal_strlit("set_free_handicap");
    reveal_strlit("set_position");
    reveal_strlit("showboard");
    reveal_strlit("stop");
    reveal_strlit("time_left");
    reveal_strlit("time_settings");
    reveal_strlit("undo");
    reveal_strlit("unknown");
    reveal_strlit("version");
}

/// Decoding the word of a command name gives the name back, for every
/// name but `Unknown`.
#[verifier::rlimit(30)]
pub proof fn lemma_name_round_trip(n: CommandName)
    requires
        is_named(n),
    ensures
        CommandName::decoded(CommandName::encoded(n)) == Ok::<CommandName, ParseError>(n),
{
    lemma_name_marks();
}

/// The word that is written for `Unknown` reads as no name.
pub proof fn lemma_name_lost(n: CommandName)
    requires
        !is_named(n),
    ensures
        CommandName::decoded(CommandName::encoded(n)).is_err(),
{
    lemma_name_marks();
}


/// Decoding the text of a failure gives the failure back, where its
/// message does not end in whitespace, which decoding takes off.
pub proof fn lemma_failure_round_trip(f: crate::model::FailureView)
    requires
        f.message.len() == 0 || !crate::text::is_unicode_space(f.message.last()),
    ensures
        crate::model::Failure::decoded(crate::model::Failure::encoded(f)) == Ok::<
            crate::model::FailureView,
            ParseError,
        >(f),
{
    let number = match f.id {
        Some(n) => numeral(n as nat),
        None => Seq::empty(),
    };
    let tail = f.message + seq!['\n', '\n'];
    let s = crate::model::Failure::encoded(f);
    let body = s.drop_first();
    assert(body == number + seq![' '] + tail);
    match f.id {
        Some(n) => {
            lemma_numeral_plain(n as nat);
            lemma_plain(number);
            lemma_unsigned_of_numeral(n as nat, u32::MAX as nat);
        },
        None => {},
    }
    crate::text_laws::lemma_position_after(number, ' ', tail);
    assert(body.take(number.len() as int) == number);
    assert(body.skip(number.len() as int + 1) == tail);
    crate::text_laws::lemma_trim_end_append(f.message.push('\n'), '\n');
    crate::text_laws::lemma_trim_end_append(f.message, '\n');
    assert(f.message.push('\n').push('\n') == tail);
    crate::text_laws::lemma_trim_end_fixed(f.message);
}


/// Every vertex that a text decodes to is well formed.
pub proof fn lemma_decoded_vertex_is_wf(s: Seq<char>)
    ensures
        Vertex::decoded(s) matches Ok(v) ==> v.wf(),
{
}

/// Every vertex, colour or move that a text decodes to is well formed,
/// and is no move where the text is one word.
pub proof fn lemma_decoded_entity_is_wf(s: Seq<char>)
    ensures
        SimpleEntity::decoded(s) matches Ok(e) ==> e.wf(),
        is_word(s, Spacing::Ascii) ==> !(SimpleEntity::decoded(s) matches Ok(SimpleEntity::Move(_))),
        is_word(s, Spacing::Ascii) ==> Move::decoded(s).is_err(),
{
    lemma_decoded_vertex_is_wf(s);
    let parts = words(upper(s), Spacing::Ascii);
    if parts.len() >= 2 {
        lemma_decoded_vertex_is_wf(parts[1]);
    }
    if is_word(s, Spacing::Ascii) {
        let u = upper(s);
        assert(is_word(u, Spacing::Ascii));
        lemma_words_of_word(u, Spacing::Ascii);
    }
}


/// Every move that a text decodes to is well formed.
pub proof fn lemma_decoded_move_is_wf(s: Seq<char>)
    ensures
        Move::decoded(s) matches Ok(m) ==> m.wf(),
{
    let parts = words(upper(s), Spacing::Ascii);
    if parts.len() >= 2 {
        lemma_decoded_vertex_is_wf(parts[1]);
    }
}

} // verus!
