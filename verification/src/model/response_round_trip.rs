//! Decoding the text of a response gives the response back: for which
//! responses, and why.

use crate::model::response::{lines, without_ending};
use crate::model::round_trip::{
    all_wf, is_named, lemma_color_round_trip, lemma_decode_all_encoded,
    lemma_list_round_trip, lemma_list_text, lemma_move_round_trip, lemma_move_text,
    lemma_name_decoded, lemma_name_like, lemma_name_marks, lemma_name_round_trip, lemma_name_text,
    lemma_numeral_plain, lemma_plain, lemma_vertex_is_no_color, lemma_vertex_plain,
    lemma_vertices_round_trip,
};
use crate::model::types::{decode_all, encode_all};
use crate::model::{
    Boolean, Color, CommandName, Entity, List, Move, ParseError, Response, ResponseData,
    ResponseDataView, ResponseView, Score, Vertex,
};
use crate::number::{lemma_unsigned_of_numeral, numeral, unsigned};
use crate::text::{
    count, is_upper, is_word, join, position, split, trim_end, upper, upper_char, words, Spacing,
};
use crate::text_laws::{
    all_lack, flat, lacks, lemma_groups_one, lemma_join_lacks, lemma_lacks, lemma_position_after,
    lemma_position_lacks, lemma_split_append, lemma_split_len, lemma_split_push,
    lemma_trim_end_append, lemma_trim_end_fixed, lemma_upper_concat, lemma_upper_fixed,
    lemma_words_of_joined, lemma_words_of_word,
};
use vstd::prelude::*;

verus! {

impl ResponseData {
    /// Whether `s` reads as free text and as nothing else: it is neither
    /// an integer, a truth value, a move, a score nor a list of vertices
    /// in one line, its first line names no command, and its lines are
    /// not all lists of vertices.
    pub open spec fn is_free_text(s: Seq<char>) -> bool {
        &&& unsigned(s, u32::MAX as nat).is_none()
        &&& Boolean::decoded(s).is_err()
        &&& Move::decoded(s).is_err()
        &&& Score::decoded(s).is_err()
        &&& !(count(s, '\n') == 0 && List::<Vertex>::decoded(s).is_ok())
        &&& CommandName::decoded(Self::lines_of(s)[0]).is_err()
        &&& decode_all::<List<Vertex>>(Self::lines_of(s)).is_err()
    }

    /// Whether decoding gives the data back from the text that a response
    /// holds for it.
    ///
    /// This holds of every integer and truth value, and of every move and
    /// list of vertices that is well formed. Left out is what is written
    /// as data of another kind is, or as nothing is: the score of a draw,
    /// which is written as the integer zero; fewer than two lists of
    /// vertices, which are written as one list; no command names at all,
    /// which are written as the empty list; the name `Unknown`, whose word
    /// names nothing; and free text that reads as anything else.
    pub open spec fn round_trips(d: ResponseDataView) -> bool {
        match d {
            ResponseDataView::Integer(_) => true,
            ResponseDataView::Bool(_) => true,
            ResponseDataView::Move(m) => m.wf(),
            ResponseDataView::Score(t) => Score::decoded(t).is_ok() && t != "0"@,
            ResponseDataView::ListVertex(l) => all_wf(l),
            ResponseDataView::CommandNames(names) => names.len() >= 1 && forall|i: int|
                0 <= i < names.len() ==> is_named(#[trigger] names[i]),
            ResponseDataView::VertexLists(lists) => lists.len() >= 2 && forall|i: int|
                0 <= i < lists.len() ==> all_wf(#[trigger] lists[i]),
            ResponseDataView::String(s) => Self::is_free_text(s),
        }
    }

    /// Whether data takes one line, and is no free text.
    pub open spec fn is_single(d: ResponseDataView) -> bool {
        d is Integer || d is Bool || d is Move || d is Score || d is ListVertex
    }

    /// The line breaks that end a response with the data `d`.
    pub open spec fn ending(d: ResponseDataView) -> Seq<char> {
        if Response::is_lines(d) {
            seq!['\n']
        } else {
            seq!['\n', '\n']
        }
    }

    /// The text of data without the line breaks of the end of a response:
    /// the entries of data of several lines with one line break between
    /// each two, and the text of any other data.
    pub open spec fn payload(d: ResponseDataView) -> Seq<char> {
        match d {
            ResponseDataView::CommandNames(names) => join(
                encode_all::<CommandName>(names),
                seq!['\n'],
            ),
            ResponseDataView::VertexLists(lists) => join(
                encode_all::<List<Vertex>>(lists),
                seq!['\n'],
            ),
            _ => Self::encoded(d),
        }
    }
}

impl Response {
    /// Whether decoding gives the response back from its text: it has no
    /// data, or data that decoding gives back.
    pub open spec fn round_trips(r: ResponseView) -> bool {
        match r.data {
            None => true,
            Some(d) => ResponseData::round_trips(d),
        }
    }
}

/// Whether no word of `ws` names a colour.
pub open spec fn no_color(ws: Seq<Seq<char>>) -> bool {
    forall|i: int| 0 <= i < ws.len() ==> Color::decoded(#[trigger] ws[i]).is_err()
}

/// Taking the line breaks of the end off a text that two line breaks end
/// leaves what stands before them, and the text holds a line break.
pub proof fn lemma_ending_off(s: Seq<char>)
    ensures
        without_ending(s + seq!['\n', '\n']) == s,
        count(s + seq!['\n', '\n'], '\n') > 0,
{
    let x = s + seq!['\n', '\n'];
    assert(x[x.len() - 1] == '\n');
    assert(x[x.len() - 2] == '\n');
    assert(x.take(x.len() - 2) == s);
}

/// A text that does not end in a line break has no ending to take off.
pub proof fn lemma_no_ending(s: Seq<char>)
    requires
        s.len() == 0 || s.last() != '\n',
    ensures
        without_ending(s) == s,
{
}

/// Lines are their entries with one line break between each two, and one
/// line break after the last.
pub proof fn lemma_lines_joined(parts: Seq<Seq<char>>)
    requires
        parts.len() > 0,
    ensures
        lines(parts) == join(parts, seq!['\n']) + seq!['\n'],
    decreases parts.len(),
{
    if parts.len() == 1 {
        assert(lines(parts.drop_last()) == Seq::<char>::empty());
    } else {
        lemma_lines_joined(parts.drop_last());
    }
}

/// Parting entries that were joined with line breaks at the line breaks
/// gives the entries.
pub proof fn lemma_split_joined(parts: Seq<Seq<char>>)
    requires
        parts.len() > 0,
        all_lack(parts, '\n'),
    ensures
        split(join(parts, seq!['\n']), '\n') == parts,
        count(join(parts, seq!['\n']), '\n') == parts.len() - 1,
    decreases parts.len(),
{
    let s = join(parts, seq!['\n']);
    lemma_split_len(s, '\n');
    if parts.len() == 1 {
        lemma_split_append(Seq::empty(), parts[0], '\n');
        assert(Seq::<char>::empty() + parts[0] == parts[0]);
        assert(split(Seq::<char>::empty(), '\n') == seq![Seq::<char>::empty()]);
        assert(seq![Seq::<char>::empty()].drop_last().push(Seq::<char>::empty() + parts[0])
            == parts);
    } else {
        let init = parts.drop_last();
        assert forall|i: int| 0 <= i < init.len() implies lacks(#[trigger] init[i], '\n') by {
            assert(init[i] == parts[i]);
        }
        lemma_split_joined(init);
        let before = join(init, seq!['\n']);
        lemma_split_push(before, '\n');
        lemma_split_append(before + seq!['\n'], parts.last(), '\n');
        assert(init.push(Seq::<char>::empty()).drop_last() == init);
        assert(Seq::<char>::empty() + parts.last() == parts.last());
        assert(init.push(parts.last()) == parts);
    }
}

/// A text that holds a line break is neither a number nor a truth value,
/// nor the score of a draw.
pub proof fn lemma_broken_text(s: Seq<char>)
    requires
        count(s, '\n') > 0,
    ensures
        unsigned(s, u32::MAX as nat).is_none(),
        Boolean::decoded(s).is_err(),
        s != "0"@,
{
    reveal_strlit("TRUE");
    reveal_strlit("FALSE");
    reveal_strlit("0");
    if lacks(s, '\n') {
        lemma_lacks(s, '\n');
    }
    let i = choose|i: int| 0 <= i < s.len() && s[i] == '\n';
    let digits = crate::number::without_plus(s);
    if digits.len() == s.len() {
        assert(digits[i] == '\n');
    } else {
        assert(digits[i - 1] == s[i]);
    }
    let u = upper(s);
    assert(u[i] == '\n');
    if u == "TRUE"@ {
        assert("TRUE"@.len() == 4);
        assert("TRUE"@[0] != '\n' && "TRUE"@[1] != '\n' && "TRUE"@[2] != '\n' && "TRUE"@[3]
            != '\n');
        assert(i == 0 || i == 1 || i == 2 || i == 3);
        assert(u[i] == "TRUE"@[i]);
    }
    if u == "FALSE"@ {
        assert("FALSE"@.len() == 5);
        assert("FALSE"@[0] != '\n' && "FALSE"@[1] != '\n' && "FALSE"@[2] != '\n' && "FALSE"@[3]
            != '\n' && "FALSE"@[4] != '\n');
        assert(i == 0 || i == 1 || i == 2 || i == 3 || i == 4);
        assert(u[i] == "FALSE"@[i]);
    }
}

/// Where no word of any text names a colour, no word of all of them does.
pub proof fn lemma_flat_no_color(parts: Seq<Seq<char>>)
    requires
        forall|i: int| 0 <= i < parts.len() ==> no_color(words(#[trigger] parts[i], Spacing::Ascii)),
    ensures
        no_color(flat(parts)),
    decreases parts.len(),
{
    if parts.len() > 0 {
        let init = parts.drop_last();
        assert forall|i: int| 0 <= i < init.len() implies no_color(
            words(#[trigger] init[i], Spacing::Ascii),
        ) by {
            assert(init[i] == parts[i]);
        }
        lemma_flat_no_color(init);
        let ws = flat(parts);
        let last = words(parts.last(), Spacing::Ascii);
        assert forall|k: int| 0 <= k < ws.len() implies Color::decoded(#[trigger] ws[k]).is_err() by {
            let n = flat(init).len();
            if k < n {
                assert(ws[k] == flat(init)[k]);
            } else {
                assert(ws[k] == last[k - n]);
            }
        }
    }
}

/// Folding to upper case goes through joining.
pub proof fn lemma_upper_joined(parts: Seq<Seq<char>>, c: char)
    requires
        !('a' <= c <= 'z'),
    ensures
        upper(join(parts, seq![c])) == join(
            Seq::new(parts.len(), |i: int| upper(parts[i])),
            seq![c],
        ),
    decreases parts.len(),
{
    let folded = Seq::new(parts.len(), |i: int| upper(parts[i]));
    if parts.len() == 0 {
        assert(upper(join(parts, seq![c])) == Seq::<char>::empty());
    } else if parts.len() == 1 {
    } else {
        let init = parts.drop_last();
        lemma_upper_joined(init, c);
        assert(folded.drop_last() == Seq::new(init.len(), |i: int| upper(init[i])));
        lemma_upper_concat(join(init, seq![c]) + seq![c], parts.last());
        lemma_upper_concat(join(init, seq![c]), seq![c]);
        assert(upper(seq![c]) == seq![c]);
    }
}

/// A text none of whose words names a colour is no move.
pub proof fn lemma_no_color_no_move(s: Seq<char>)
    requires
        no_color(words(upper(s), Spacing::Ascii)),
    ensures
        Move::decoded(s).is_err(),
{
    let parts = words(upper(s), Spacing::Ascii);
    if parts.len() > 0 {
        assert(Color::decoded(parts[0]).is_err());
    }
}

/// A text that is not the score of a draw and holds no plus sign is no
/// score.
pub proof fn lemma_no_plus_no_score(s: Seq<char>)
    requires
        lacks(s, '+'),
        s != "0"@,
    ensures
        Score::decoded(s).is_err(),
{
    lemma_lacks(s, '+');
}

/// Whether `s` is none of the kinds of data that take one line: integer,
/// truth value, move, score, list of vertices in one line.
pub open spec fn is_no_single_line(s: Seq<char>) -> bool {
    &&& unsigned(s, u32::MAX as nat).is_none()
    &&& Boolean::decoded(s).is_err()
    &&& Move::decoded(s).is_err()
    &&& Score::decoded(s).is_err()
    &&& !(count(s, '\n') == 0 && List::<Vertex>::decoded(s).is_ok())
}

/// What decoding makes of a text that is none of the kinds of data that
/// take one line, and that held a line break.
#[verifier::rlimit(40)]
pub proof fn lemma_decoded_by_lines(s: Seq<char>)
    requires
        is_no_single_line(s),
    ensures
        ResponseData::decoded_payload(s, true) == (if CommandName::decoded(
            ResponseData::lines_of(s)[0],
        ).is_ok() {
            match decode_all::<CommandName>(ResponseData::lines_of(s)) {
                Ok(names) => Ok::<ResponseDataView, ParseError>(
                    ResponseDataView::CommandNames(names),
                ),
                Err(e) => Err::<ResponseDataView, ParseError>(e),
            }
        } else {
            match decode_all::<List<Vertex>>(ResponseData::lines_of(s)) {
                Ok(lists) => Ok::<ResponseDataView, ParseError>(
                    ResponseDataView::VertexLists(lists),
                ),
                Err(_) => Ok::<ResponseDataView, ParseError>(ResponseDataView::String(s)),
            }
        }),
{
}

/// The word of a command name that has one is neither a truth value nor
/// a vertex, in any case of its letters.
#[verifier::rlimit(40)]
pub proof fn lemma_name_is_nothing_else(n: CommandName)
    requires
        is_named(n),
    ensures
        Boolean::decoded(CommandName::encoded(n)).is_err(),
        Vertex::decoded(CommandName::encoded(n)).is_err(),
{
    let s = CommandName::encoded(n);
    let u = upper(s);
    lemma_name_text(n);
    lemma_name_marks();
    reveal_strlit("TRUE");
    reveal_strlit("FALSE");
    reveal_strlit("PASS");
    reveal_strlit("RESIGN");
    reveal_strlit("play");
    assert(u.len() == s.len());
    assert(u[0] == upper_char(s[0]));
    assert(u[1] == upper_char(s[1]));
    assert(crate::model::round_trip::mark(s).1 == s[0]);
    if u == "TRUE"@ {
        assert(s[0] == 't');
    }
    if u == "PASS"@ {
        assert(s[0] == 'p');
        assert(s == "play"@);
        assert("play"@[1] == 'l');
    }
    let d = u.drop_first();
    assert(d[0] == u[1]);
    assert(crate::number::without_plus(d) == d);
    assert(!crate::text::is_digit(d[0]));
}

/// Decoding gives command names back from their entries with line breaks
/// between them.
#[verifier::rlimit(30)]
pub proof fn lemma_names_payload(names: Seq<CommandName>)
    requires
        ResponseData::round_trips(ResponseDataView::CommandNames(names)),
    ensures
        ResponseData::decoded_payload(
            ResponseData::payload(ResponseDataView::CommandNames(names)),
            true,
        ) == Ok::<ResponseDataView, ParseError>(ResponseDataView::CommandNames(names)),
{
    let parts = encode_all::<CommandName>(names);
    let s = join(parts, seq!['\n']);
    let folded = Seq::new(parts.len(), |i: int| upper(parts[i]));
    assert forall|i: int| 0 <= i < parts.len() implies lacks(#[trigger] parts[i], '\n') && lacks(
        parts[i],
        '+',
    ) by {
        lemma_name_text(names[i]);
        lemma_name_like(parts[i]);
    }
    assert forall|i: int| 0 <= i < folded.len() implies no_color(
        words(#[trigger] folded[i], Spacing::Ascii),
    ) by {
        lemma_name_text(names[i]);
        lemma_name_like(parts[i]);
        assert(is_word(folded[i], Spacing::Ascii));
        lemma_words_of_word(folded[i], Spacing::Ascii);
    }
    assert(all_lack(parts, '\n'));
    assert(all_lack(parts, '+'));
    lemma_split_joined(parts);
    lemma_join_lacks(parts, seq!['\n'], '+');
    lemma_upper_joined(parts, '\n');
    lemma_words_of_joined(folded, '\n');
    lemma_flat_no_color(folded);
    lemma_no_color_no_move(s);
    lemma_name_text(names[0]);
    lemma_name_like(parts[0]);
    assert(parts[0] == CommandName::encoded(names[0]));
    if parts.len() == 1 {
        assert(s == parts[0]);
        lemma_name_is_nothing_else(names[0]);
        lemma_words_of_word(s, Spacing::Ascii);
        lemma_groups_one(seq![s]);
        assert(seq![s].drop_last() == Seq::<Seq<char>>::empty());
        assert(decode_all::<Vertex>(seq![s]).is_err());
        assert(s != "0"@) by {
            reveal_strlit("0");
        }
    } else {
        lemma_broken_text(s);
    }
    lemma_no_plus_no_score(s);
    lemma_decoded_by_lines(s);
    assert forall|i: int| 0 <= i < names.len() implies <CommandName as Entity>::decoded(
        <CommandName as Entity>::encoded(#[trigger] names[i]),
    ) == Ok::<CommandName, ParseError>(names[i]) by {
        lemma_name_round_trip(names[i]);
    }
    lemma_decode_all_encoded::<CommandName>(names);
}

/// The text of a list of well-formed vertices holds neither line break
/// nor plus sign, is in upper case, has no word that names a colour, and
/// decodes to the list.
pub proof fn lemma_list_facts(l: Seq<Vertex>)
    requires
        all_wf(l),
    ensures
        lacks(List::<Vertex>::encoded(l), '\n'),
        lacks(List::<Vertex>::encoded(l), '+'),
        is_upper(List::<Vertex>::encoded(l)),
        no_color(words(List::<Vertex>::encoded(l), Spacing::Ascii)),
        List::<Vertex>::decoded(List::<Vertex>::encoded(l)) == Ok::<Seq<Vertex>, ParseError>(l),
{
    let texts = encode_all::<Vertex>(l);
    lemma_vertices_round_trip(l);
    lemma_list_text::<Vertex>(l);
    lemma_list_round_trip::<Vertex>(l);
    assert forall|i: int| 0 <= i < texts.len() implies lacks(#[trigger] texts[i], '+')
        && is_upper(texts[i]) && Color::decoded(texts[i]).is_err() by {
        lemma_vertex_plain(l[i]);
        lemma_plain(texts[i]);
        lemma_vertex_is_no_color(l[i]);
    }
    assert(all_lack(texts, '+'));
    assert(crate::text_laws::all_upper(texts));
    lemma_join_lacks(texts, seq![' '], '+');
    crate::text_laws::lemma_join_upper(texts);
}

/// The text of a list of well-formed vertices names no command.
pub proof fn lemma_list_is_no_name(l: Seq<Vertex>)
    requires
        all_wf(l),
    ensures
        CommandName::decoded(List::<Vertex>::encoded(l)).is_err(),
{
    let s = List::<Vertex>::encoded(l);
    if CommandName::decoded(s).is_ok() {
        lemma_name_decoded(s);
        lemma_list_facts(l);
    }
}

/// Texts in upper case that line breaks join make a text in upper case.
pub proof fn lemma_joined_is_upper(parts: Seq<Seq<char>>)
    requires
        crate::text_laws::all_upper(parts),
    ensures
        is_upper(join(parts, seq!['\n'])),
    decreases parts.len(),
{
    if parts.len() > 1 {
        let init = parts.drop_last();
        assert forall|i: int| 0 <= i < init.len() implies is_upper(#[trigger] init[i]) by {
            assert(init[i] == parts[i]);
        }
        lemma_joined_is_upper(init);
    }
}

/// Decoding gives two and more lists of well-formed vertices back from
/// their texts with line breaks between them.
#[verifier::rlimit(30)]
pub proof fn lemma_lists_payload(lists: Seq<Seq<Vertex>>)
    requires
        ResponseData::round_trips(ResponseDataView::VertexLists(lists)),
    ensures
        ResponseData::decoded_payload(
            ResponseData::payload(ResponseDataView::VertexLists(lists)),
            true,
        ) == Ok::<ResponseDataView, ParseError>(ResponseDataView::VertexLists(lists)),
{
    let parts = encode_all::<List<Vertex>>(lists);
    let s = join(parts, seq!['\n']);
    assert forall|i: int| 0 <= i < parts.len() implies lacks(#[trigger] parts[i], '\n') && lacks(
        parts[i],
        '+',
    ) && is_upper(parts[i]) && no_color(words(parts[i], Spacing::Ascii)) by {
        lemma_list_facts(lists[i]);
    }
    assert forall|i: int| 0 <= i < lists.len() implies <List<Vertex> as Entity>::decoded(
        <List<Vertex> as Entity>::encoded(#[trigger] lists[i]),
    ) == Ok::<Seq<Vertex>, ParseError>(lists[i]) by {
        lemma_list_facts(lists[i]);
    }
    assert(all_lack(parts, '\n'));
    assert(all_lack(parts, '+'));
    assert(crate::text_laws::all_upper(parts));
    lemma_split_joined(parts);
    lemma_join_lacks(parts, seq!['\n'], '+');
    lemma_joined_is_upper(parts);
    lemma_upper_fixed(s);
    lemma_words_of_joined(parts, '\n');
    lemma_flat_no_color(parts);
    lemma_no_color_no_move(s);
    lemma_broken_text(s);
    lemma_no_plus_no_score(s);
    lemma_decoded_by_lines(s);
    lemma_decode_all_encoded::<List<Vertex>>(lists);
    lemma_list_is_no_name(lists[0]);
    assert(parts[0] == List::<Vertex>::encoded(lists[0]));
}

/// What joins texts starts with the first of them.
pub proof fn lemma_join_starts(parts: Seq<Seq<char>>, sep: Seq<char>)
    requires
        parts.len() > 0,
    ensures
        crate::text::join(parts, sep).len() >= parts[0].len(),
        forall|i: int|
            0 <= i < parts[0].len() ==> #[trigger] crate::text::join(parts, sep)[i] == parts[0][i],
    decreases parts.len(),
{
    if parts.len() > 1 {
        let init = parts.drop_last();
        lemma_join_starts(init, sep);
        assert(init[0] == parts[0]);
    }
}

/// Decoding gives a score other than that of a draw back from its text.
#[verifier::rlimit(40)]
pub proof fn lemma_score_payload(t: Seq<char>, spans: bool)
    requires
        Score::decoded(t).is_ok(),
        t != "0"@,
    ensures
        ResponseData::decoded_payload(t, spans) == Ok::<ResponseDataView, ParseError>(
            ResponseDataView::Score(t),
        ),
{
    reveal_strlit("W");
    reveal_strlit("B");
    reveal_strlit("TRUE");
    reveal_strlit("FALSE");
    reveal_strlit("BLACK");
    reveal_strlit("WHITE");
    let at = position(t, '+');
    let winner = t.take(at);
    crate::text_laws::lemma_position_is(t, '+');
    assert(winner.len() == 1);
    assert(at == 1);
    assert(winner[0] == t[0]);
    assert(t[1] == '+');
    assert(crate::number::without_plus(t) == t);
    assert(upper(t)[0] == upper_char(t[0]));
    let u = upper(t);
    let parts = words(u, Spacing::Ascii);
    assert(u[0] == t[0]);
    assert(u[1] == '+');
    crate::text::lemma_word_len_bound(u, Spacing::Ascii);
    assert(crate::text::word_len(u, Spacing::Ascii) >= 2) by {
        assert(u.drop_first()[0] == u[1]);
        reveal_with_fuel(crate::text::word_len, 3);
    }
    let first = parts[0];
    assert(first == u.take(crate::text::word_len(u, Spacing::Ascii) as int));
    assert(first.len() >= 2);
    assert(first[1] == '+');
    assert(upper(first)[1] == '+');
    assert("BLACK"@[1] == 'L' && "WHITE"@[1] == 'H' && "B"@.len() == 1 && "W"@.len() == 1);
    assert(Color::decoded(first).is_err());
}

/// Decoding gives a list of well-formed vertices back from its text.
#[verifier::rlimit(40)]
pub proof fn lemma_list_payload(l: Seq<Vertex>, spans: bool)
    requires
        all_wf(l),
    ensures
        ResponseData::decoded_payload(List::<Vertex>::encoded(l), spans) == Ok::<
            ResponseDataView,
            ParseError,
        >(ResponseDataView::ListVertex(l)),
{
    let s = List::<Vertex>::encoded(l);
    let texts = encode_all::<Vertex>(l);
    reveal_strlit("TRUE");
    reveal_strlit("FALSE");
    reveal_strlit("0");
    lemma_list_facts(l);
    lemma_upper_fixed(s);
    lemma_no_color_no_move(s);
    lemma_lacks(s, '\n');
    if l.len() > 0 {
        lemma_join_starts(texts, seq![' ']);
        lemma_vertex_plain(l[0]);
        reveal_strlit("PASS");
        reveal_strlit("RESIGN");
        assert(s[0] == texts[0][0]);
        assert(s[1] == texts[0][1]);
        assert(crate::number::without_plus(s) == s);
        assert(!crate::text::is_digit(s[0]));
        lemma_no_plus_no_score(s);
    }
}

/// Decoding gives data of one line back from its text, whether or not the
/// text came with line breaks behind it.
#[verifier::rlimit(40)]
pub proof fn lemma_single_payload(d: ResponseDataView, spans: bool)
    requires
        ResponseData::round_trips(d),
        ResponseData::is_single(d),
    ensures
        ResponseData::decoded_payload(ResponseData::encoded(d), spans) == Ok::<
            ResponseDataView,
            ParseError,
        >(d),
{
    match d {
        ResponseDataView::Integer(i) => {
            lemma_unsigned_of_numeral(i as nat, u32::MAX as nat);
        },
        ResponseDataView::Bool(b) => {
            crate::model::round_trip::lemma_boolean_round_trip(b);
            reveal_strlit("true");
            reveal_strlit("false");
            let s = Boolean::encoded(b);
            assert(crate::number::without_plus(s) == s);
            assert(!crate::text::is_digit(s[0]));
        },
        ResponseDataView::Move(m) => {
            lemma_move_round_trip(m);
            lemma_color_round_trip(m.color);
            lemma_move_text(m);
            reveal_strlit("B");
            reveal_strlit("W");
            reveal_strlit("TRUE");
            reveal_strlit("FALSE");
            let s = Move::encoded(m);
            assert(s[0] == Color::encoded(m.color)[0]);
            assert(crate::number::without_plus(s) == s);
            assert(!crate::text::is_digit(s[0]));
            assert(upper(s)[0] == upper_char(s[0]));
        },
        ResponseDataView::Score(t) => {
            lemma_score_payload(t, spans);
        },
        ResponseDataView::ListVertex(l) => {
            lemma_list_payload(l, spans);
        },
        _ => {},
    }
}

/// The text that a response holds for data is the payload of the data
/// and two line breaks, unless the data is no command names or no lists
/// at all.
pub proof fn lemma_payload_and_ending(d: ResponseDataView)
    requires
        match d {
            ResponseDataView::CommandNames(names) => names.len() > 0,
            ResponseDataView::VertexLists(lists) => lists.len() > 0,
            _ => true,
        },
    ensures
        ResponseData::encoded(d) + ResponseData::ending(d) == ResponseData::payload(d) + seq![
            '\n',
            '\n',
        ],
{
    match d {
        ResponseDataView::CommandNames(names) => {
            let parts = encode_all::<CommandName>(names);
            lemma_lines_joined(parts);
            assert(join(parts, seq!['\n']) + seq!['\n'] + seq!['\n'] == join(parts, seq!['\n'])
                + seq!['\n', '\n']);
        },
        ResponseDataView::VertexLists(lists) => {
            let parts = encode_all::<List<Vertex>>(lists);
            lemma_lines_joined(parts);
            assert(join(parts, seq!['\n']) + seq!['\n'] + seq!['\n'] == join(parts, seq!['\n'])
                + seq!['\n', '\n']);
        },
        _ => {},
    }
}

/// Decoding gives data back from the text that a response holds for it,
/// for all data that `ResponseData::round_trips` admits.
#[verifier::rlimit(40)]
pub proof fn lemma_data_round_trip(d: ResponseDataView)
    requires
        ResponseData::round_trips(d),
    ensures
        ResponseData::in_response(ResponseData::encoded(d) + ResponseData::ending(d)) == Ok::<
            ResponseDataView,
            ParseError,
        >(d),
{
    lemma_payload_and_ending(d);
    lemma_ending_off(ResponseData::payload(d));
    match d {
        ResponseDataView::CommandNames(names) => {
            lemma_names_payload(names);
        },
        ResponseDataView::VertexLists(lists) => {
            lemma_lists_payload(lists);
        },
        ResponseDataView::String(_) => {},
        _ => {
            lemma_single_payload(d, true);
        },
    }
}

/// What decoding makes of a text with the frame of a response that holds
/// data: the number that stands after the equals sign, and what the text
/// after the space decodes to.
pub proof fn lemma_frame_with_data(id: Option<u32>, data: Seq<char>)
    ensures
        Response::decoded(
            seq!['='] + (match id {
                Some(n) => numeral(n as nat),
                None => Seq::empty(),
            }) + (seq![' '] + data),
        ) == (match ResponseData::in_response(data) {
            Ok(d) => Ok::<ResponseView, ParseError>(ResponseView { id, data: Some(d) }),
            Err(e) => Err::<ResponseView, ParseError>(e),
        }),
{
    let number = match id {
        Some(n) => numeral(n as nat),
        None => Seq::empty(),
    };
    let s = seq!['='] + number + (seq![' '] + data);
    let body = s.drop_first();
    assert(body == number + seq![' '] + data);
    lemma_number_frame(id);
    lemma_position_after(number, ' ', data);
    assert(body.take(number.len() as int) == number);
    assert(body.skip(number.len() as int + 1) == data);
}

/// The number of a response holds no space, survives trimming, and reads
/// as itself; without a number nothing is read.
pub proof fn lemma_number_frame(id: Option<u32>)
    ensures
        ({
            let number = match id {
                Some(n) => numeral(n as nat),
                None => Seq::<char>::empty(),
            };
            &&& lacks(number, ' ')
            &&& trim_end(number) == number
            &&& unsigned(number, u32::MAX as nat) == (match id {
                Some(n) => Some(n as nat),
                None => None::<nat>,
            })
        }),
{
    match id {
        Some(n) => {
            lemma_numeral_plain(n as nat);
            lemma_plain(numeral(n as nat));
            lemma_unsigned_of_numeral(n as nat, u32::MAX as nat);
            lemma_trim_end_fixed(numeral(n as nat));
        },
        None => {},
    }
}

/// What decoding makes of a text with the frame of a response without
/// data: the number that stands after the equals sign.
pub proof fn lemma_frame_without_data(id: Option<u32>)
    ensures
        Response::decoded(
            seq!['='] + (match id {
                Some(n) => numeral(n as nat),
                None => Seq::empty(),
            }) + seq!['\n', '\n'],
        ) == Ok::<ResponseView, ParseError>(ResponseView { id, data: None }),
{
    let number = match id {
        Some(n) => numeral(n as nat),
        None => Seq::empty(),
    };
    let s = seq!['='] + number + seq!['\n', '\n'];
    let body = s.drop_first();
    assert(body == number + seq!['\n', '\n']);
    lemma_number_frame(id);
    assert(lacks(body, ' '));
    lemma_position_lacks(body, ' ');
    assert(body.take(body.len() as int) == body);
    lemma_trim_end_append(number.push('\n'), '\n');
    lemma_trim_end_append(number, '\n');
    assert(number.push('\n').push('\n') == body);
}

/// The text of a response with data is the frame of a response around
/// the text of the data and the line breaks that end the response.
pub proof fn lemma_response_text(id: Option<u32>, d: ResponseDataView)
    ensures
        Response::encoded(ResponseView { id, data: Some(d) }) == seq!['='] + (match id {
            Some(n) => numeral(n as nat),
            None => Seq::empty(),
        }) + (seq![' '] + (ResponseData::encoded(d) + ResponseData::ending(d))),
{
    assert(seq![' '] + ResponseData::encoded(d) + ResponseData::ending(d) == seq![' '] + (
    ResponseData::encoded(d) + ResponseData::ending(d)));
}

/// Decoding the text of a response gives the response back, for every
/// response that `Response::round_trips` admits.
#[verifier::rlimit(30)]
pub proof fn lemma_response_round_trip(r: ResponseView)
    requires
        Response::round_trips(r),
    ensures
        Response::decoded(Response::encoded(r)) == Ok::<ResponseView, ParseError>(r),
{
    match r.data {
        Some(d) => {
            lemma_response_text(r.id, d);
            lemma_frame_with_data(r.id, ResponseData::encoded(d) + ResponseData::ending(d));
            lemma_data_round_trip(d);
            assert(r == (ResponseView { id: r.id, data: Some(d) }));
        },
        None => {
            lemma_frame_without_data(r.id);
        },
    }
}

impl Response {
    /// The text of a response without the line breaks that end it.
    pub open spec fn line(r: ResponseView) -> Seq<char> {
        seq!['='] + (match r.id {
            Some(id) => numeral(id as nat),
            None => Seq::empty(),
        }) + (match r.data {
            Some(d) => seq![' '] + ResponseData::encoded(d),
            None => Seq::empty(),
        })
    }
}

/// Decoding the line of a response, as it comes without the line breaks
/// that end the response, gives the response back, where the response has
/// no data or data of one line that decoding gives back.
pub proof fn lemma_response_line_round_trip(r: ResponseView)
    requires
        match r.data {
            None => true,
            Some(d) => ResponseData::round_trips(d) && ResponseData::is_single(d),
        },
    ensures
        Response::decoded(Response::line(r)) == Ok::<ResponseView, ParseError>(r),
{
    let number = match r.id {
        Some(id) => numeral(id as nat),
        None => Seq::empty(),
    };
    match r.data {
        Some(d) => {
            let text = ResponseData::encoded(d);
            lemma_frame_with_data(r.id, text);
            lemma_single_line_text(d);
            lemma_no_ending(text);
            lemma_lacks(text, '\n');
            lemma_single_payload(d, false);
        },
        None => {
            let s = Response::line(r);
            assert(s == seq!['='] + number);
            let body = s.drop_first();
            assert(body == number);
            lemma_number_frame(r.id);
            lemma_position_lacks(body, ' ');
            assert(body.take(body.len() as int) == body);
        },
    }
}

/// The text of data of one line that decoding gives back holds no line
/// break.
pub proof fn lemma_single_line_text(d: ResponseDataView)
    requires
        ResponseData::round_trips(d),
        ResponseData::is_single(d),
    ensures
        lacks(ResponseData::encoded(d), '\n'),
{
    match d {
        ResponseDataView::Integer(i) => {
            lemma_numeral_plain(i as nat);
            lemma_plain(numeral(i as nat));
        },
        ResponseDataView::Bool(_) => {
            reveal_strlit("true");
            reveal_strlit("false");
        },
        ResponseDataView::Move(m) => {
            lemma_move_text(m);
        },
        ResponseDataView::Score(t) => {
            lemma_score_is_word(t);
        },
        ResponseDataView::ListVertex(l) => {
            lemma_list_facts(l);
        },
        _ => {},
    }
}

/// A score holds no line break.
pub proof fn lemma_score_is_word(t: Seq<char>)
    requires
        Score::decoded(t).is_ok(),
    ensures
        lacks(t, '\n'),
{
    reveal_strlit("0");
    reveal_strlit("W");
    reveal_strlit("B");
    if t != "0"@ {
        let at = position(t, '+');
        let margin = t.skip(at + 1);
        crate::text_laws::lemma_position_is(t, '+');
        crate::number::lemma_float_is_word(margin);
        let winner = t.take(at);
        assert(winner.len() == 1);
        assert("W"@[0] == 'W' && "B"@[0] == 'B');
        assert(winner[0] == 'W' || winner[0] == 'B');
        assert forall|i: int| 0 <= i < t.len() implies #[trigger] t[i] != '\n' by {
            if i < at {
                assert(winner[i] == t[i]);
            } else if i > at {
                assert(margin[i - at - 1] == t[i]);
                assert(!crate::text::is_ascii_space(margin[i - at - 1]));
            } else {
                assert(t[at] == '+');
            }
        }
    }
}

/// The text of a list of vertices holds no line break, well formed or
/// not.
pub proof fn lemma_list_lacks_break(l: Seq<Vertex>)
    ensures
        lacks(List::<Vertex>::encoded(l), '\n'),
{
    let texts = encode_all::<Vertex>(l);
    reveal_strlit("PASS");
    reveal_strlit("RESIGN");
    assert forall|i: int| 0 <= i < texts.len() implies lacks(#[trigger] texts[i], '\n') by {
        let t = texts[i];
        match l[i] {
            Vertex::Coord(_, row) => {
                crate::number::lemma_numeral(row as nat);
                assert forall|k: int| 0 <= k < t.len() implies #[trigger] t[k] != '\n' by {
                    if k > 0 {
                        assert(t[k] == numeral(row as nat)[k - 1]);
                    }
                }
            },
            _ => {},
        }
    }
    assert(all_lack(texts, '\n'));
    lemma_join_lacks(texts, seq![' '], '\n');
}

/// Which data a text decodes to, read backwards: what must hold of the
/// text for each kind of data to come out.
#[verifier::rlimit(40)]
pub proof fn lemma_payload_kinds(s: Seq<char>, spans: bool)
    ensures
        match ResponseData::decoded_payload(s, spans) {
            Ok(ResponseDataView::Integer(_)) => true,
            Ok(ResponseDataView::Bool(_)) => true,
            Ok(ResponseDataView::Move(m)) => Move::decoded(s) == Ok::<Move, ParseError>(m),
            Ok(ResponseDataView::Score(t)) => t == s && Score::decoded(s).is_ok() && unsigned(
                s,
                u32::MAX as nat,
            ).is_none(),
            Ok(ResponseDataView::ListVertex(l)) => List::<Vertex>::decoded(s) == Ok::<
                Seq<Vertex>,
                ParseError,
            >(l),
            Ok(ResponseDataView::CommandNames(names)) => !(count(s, '\n') == 0 && List::<
                Vertex,
            >::decoded(s).is_ok()) && decode_all::<CommandName>(ResponseData::lines_of(s)) == Ok::<
                Seq<CommandName>,
                ParseError,
            >(names),
            Ok(ResponseDataView::VertexLists(lists)) => !(count(s, '\n') == 0 && List::<
                Vertex,
            >::decoded(s).is_ok()) && decode_all::<List<Vertex>>(ResponseData::lines_of(s))
                == Ok::<Seq<Seq<Vertex>>, ParseError>(lists),
            Ok(ResponseDataView::String(t)) => t == s && ResponseData::is_free_text(s),
            Err(_) => true,
        },
{
}

/// The empty text is the empty list of vertices.
pub proof fn lemma_empty_is_a_list()
    ensures
        count(Seq::<char>::empty(), '\n') == 0,
        List::<Vertex>::decoded(Seq::<char>::empty()).is_ok(),
        without_ending(seq!['\n']) == Seq::<char>::empty(),
{
    let e = Seq::<char>::empty();
    assert(words(e, Spacing::Ascii) == Seq::<Seq<char>>::empty());
    assert(crate::text::groups(Seq::<Seq<char>>::empty(), 1) == Seq::<Seq<char>>::empty());
    assert(seq!['\n'].take(0) == e);
}

/// Command names that decoding gives back from the text that a response
/// holds for them are one at least, and none of them is `Unknown`.
#[verifier::rlimit(40)]
pub proof fn lemma_names_round_trip_only(names: Seq<CommandName>)
    requires
        ResponseData::in_response(lines(encode_all::<CommandName>(names)) + seq!['\n']) == Ok::<
            ResponseDataView,
            ParseError,
        >(ResponseDataView::CommandNames(names)),
    ensures
        ResponseData::round_trips(ResponseDataView::CommandNames(names)),
{
    let d = ResponseDataView::CommandNames(names);
    let parts = encode_all::<CommandName>(names);
    if names.len() == 0 {
        lemma_empty_is_a_list();
        assert(lines(parts) + seq!['\n'] == seq!['\n']);
        lemma_payload_kinds(Seq::empty(), true);
        assert(count(seq!['\n'], '\n') > 0);
    } else {
        lemma_payload_and_ending(d);
        let p = join(parts, seq!['\n']);
        lemma_ending_off(p);
        lemma_payload_kinds(p, true);
        assert forall|i: int| 0 <= i < parts.len() implies lacks(#[trigger] parts[i], '\n') by {
            lemma_name_text(names[i]);
            lemma_name_like(parts[i]);
        }
        assert(all_lack(parts, '\n'));
        lemma_split_joined(parts);
        crate::model::round_trip::lemma_decode_all_each::<CommandName>(parts);
        assert forall|i: int| 0 <= i < names.len() implies is_named(#[trigger] names[i]) by {
            assert(parts[i] == CommandName::encoded(names[i]));
            if !is_named(names[i]) {
                crate::model::round_trip::lemma_name_lost(names[i]);
            }
        }
    }
}

/// Lists of vertices that decoding gives back from the text that a
/// response holds for them are two at least, and their vertices are well
/// formed.
#[verifier::rlimit(40)]
pub proof fn lemma_lists_round_trip_only(lists: Seq<Seq<Vertex>>)
    requires
        ResponseData::in_response(lines(encode_all::<List<Vertex>>(lists)) + seq!['\n']) == Ok::<
            ResponseDataView,
            ParseError,
        >(ResponseDataView::VertexLists(lists)),
    ensures
        ResponseData::round_trips(ResponseDataView::VertexLists(lists)),
{
    let d = ResponseDataView::VertexLists(lists);
    let parts = encode_all::<List<Vertex>>(lists);
    if lists.len() == 0 {
        lemma_empty_is_a_list();
        assert(lines(parts) + seq!['\n'] == seq!['\n']);
        lemma_payload_kinds(Seq::empty(), true);
        assert(count(seq!['\n'], '\n') > 0);
    } else {
        lemma_payload_and_ending(d);
        let p = join(parts, seq!['\n']);
        lemma_ending_off(p);
        lemma_payload_kinds(p, true);
        assert forall|i: int| 0 <= i < parts.len() implies lacks(#[trigger] parts[i], '\n') by {
            lemma_list_lacks_break(lists[i]);
        }
        assert(all_lack(parts, '\n'));
        lemma_split_joined(parts);
        crate::model::round_trip::lemma_decode_all_each::<List<Vertex>>(parts);
        assert forall|i: int| 0 <= i < lists.len() implies all_wf(#[trigger] lists[i]) by {
            assert(parts[i] == List::<Vertex>::encoded(lists[i]));
            crate::model::command_round_trip::lemma_decoded_vertex_list(parts[i]);
        }
        if lists.len() == 1 {
            assert(p == parts[0]);
        }
    }
}

/// A move that a text decodes to is well formed.
pub proof fn lemma_only_moves(s: Seq<char>)
    ensures
        ResponseData::decoded_payload(s, true) matches Ok(ResponseDataView::Move(m)) ==> m.wf(),
{
    lemma_payload_kinds(s, true);
    crate::model::round_trip::lemma_decoded_move_is_wf(s);
}

/// A score that a text decodes to is the text, a score, and not the
/// score of a draw.
pub proof fn lemma_only_scores(s: Seq<char>)
    ensures
        ResponseData::decoded_payload(s, true) matches Ok(ResponseDataView::Score(t)) ==> t == s
            && Score::decoded(t).is_ok() && t != "0"@,
{
    lemma_payload_kinds(s, true);
    if s == "0"@ {
        reveal_strlit("0");
        assert(s.drop_last() == Seq::<char>::empty());
        assert(crate::number::without_plus(s) == s);
        assert(crate::number::decimal(s) == 0) by {
            reveal_with_fuel(crate::number::decimal, 2);
        }
    }
}

/// A list of vertices that a text decodes to holds well-formed vertices.
pub proof fn lemma_only_lists(s: Seq<char>)
    ensures
        ResponseData::decoded_payload(s, true) matches Ok(ResponseDataView::ListVertex(l))
            ==> all_wf(l),
{
    lemma_payload_kinds(s, true);
    crate::model::command_round_trip::lemma_decoded_vertex_list(s);
}

/// Free text that a text decodes to is the text, and reads as nothing
/// else.
pub proof fn lemma_only_free_text(s: Seq<char>)
    ensures
        ResponseData::decoded_payload(s, true) matches Ok(ResponseDataView::String(t)) ==> t == s
            && ResponseData::is_free_text(t),
{
    lemma_payload_kinds(s, true);
}

/// Data of one line, or free text, that a text decodes to is data that
/// `ResponseData::round_trips` admits.
#[verifier::rlimit(40)]
pub proof fn lemma_only_single(s: Seq<char>, d: ResponseDataView)
    requires
        ResponseData::decoded_payload(s, true) == Ok::<ResponseDataView, ParseError>(d),
        !Response::is_lines(d),
    ensures
        ResponseData::round_trips(d),
{
    lemma_only_moves(s);
    lemma_only_scores(s);
    lemma_only_lists(s);
    lemma_only_free_text(s);
}

/// Decoding gives data back from the text that a response holds for it
/// only where `ResponseData::round_trips` admits the data.
#[verifier::rlimit(50)]
pub proof fn lemma_data_round_trip_only(d: ResponseDataView)
    requires
        ResponseData::in_response(ResponseData::encoded(d) + ResponseData::ending(d)) == Ok::<
            ResponseDataView,
            ParseError,
        >(d),
    ensures
        ResponseData::round_trips(d),
{
    if Response::is_lines(d) {
        match d {
            ResponseDataView::CommandNames(names) => {
                lemma_names_round_trip_only(names);
            },
            ResponseDataView::VertexLists(lists) => {
                lemma_lists_round_trip_only(lists);
            },
            _ => {},
        }
    } else {
        let text = ResponseData::encoded(d);
        lemma_ending_off(text);
        lemma_only_single(text, d);
    }
}

/// Decoding gives a response back from its text only where
/// `Response::round_trips` admits the response.
pub proof fn lemma_response_round_trip_only(r: ResponseView)
    requires
        Response::decoded(Response::encoded(r)) == Ok::<ResponseView, ParseError>(r),
    ensures
        Response::round_trips(r),
{
    match r.data {
        Some(d) => {
            lemma_response_text(r.id, d);
            lemma_frame_with_data(r.id, ResponseData::encoded(d) + ResponseData::ending(d));
            assert(r == (ResponseView { id: r.id, data: Some(d) }));
            lemma_data_round_trip_only(d);
        },
        None => {},
    }
}


/// Free text that a text decodes to is the whole text, with the line
/// breaks at its end; and a text decodes to free text where it holds a
/// line break and, without the line breaks at its end, reads as nothing
/// else.
pub proof fn lemma_free_text_is_whole(s: Seq<char>)
    ensures
        ResponseData::decoded(s) matches Ok(ResponseDataView::String(t)) ==> t == s,
        count(s, '\n') > 0 && ResponseData::is_free_text(without_ending(s))
            ==> ResponseData::decoded(s) == Ok::<ResponseDataView, ParseError>(
            ResponseDataView::String(s),
        ),
        !(ResponseData::in_response(s) matches Ok(ResponseDataView::String(_)))
            ==> ResponseData::decoded(s) == ResponseData::in_response(s),
{
}

} // verus!
