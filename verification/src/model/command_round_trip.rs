//! Decoding the line of a command gives the command back: for which
//! commands, and why.

use crate::model::round_trip::{
    all_moves_wf, all_wf, is_named, all_single, lemma_collection_round_trip,
    lemma_decode_all_each, lemma_decoded_entity_is_wf, lemma_decoded_move_is_wf,
    lemma_decoded_vertex_is_wf, lemma_entity_text, lemma_list_round_trip, lemma_list_text,
    lemma_move_list_round_trip, lemma_name_like, lemma_name_round_trip, lemma_name_text,
    lemma_numeral_plain, lemma_plain, lemma_simple_entity_round_trip,
    lemma_strings_round_trip, lemma_vertices_round_trip,
};
use crate::model::{
    ArgShape, Args, ArgsView, Collection, Command, CommandName, CommandView, Entity, List,
    Move, ParseError, RectSize, SimpleEntity, Vertex,
};
use crate::number::{is_float, lemma_float_is_word, lemma_unsigned_of_numeral, numeral};
use crate::text::{groups, join, words, Spacing};
use crate::text_laws::{
    all_words, is_spaced, lemma_groups_one, lemma_pair_is_spaced, lemma_word_is_spaced,
    lemma_words_are_words, lemma_words_around, lemma_words_concat, lemma_words_of_separator,
    lemma_words_of_word,
};
use vstd::prelude::*;

verus! {

impl Args {
    /// The shape that arguments have.
    pub open spec fn shape_of(a: ArgsView) -> ArgShape {
        match a {
            ArgsView::Collection(_) => ArgShape::Collection,
            ArgsView::ListVertex(_) => ArgShape::ListVertex,
            ArgsView::ListMove(_) => ArgShape::ListMove,
            ArgsView::ListString(_) => ArgShape::ListString,
            ArgsView::String(_) => ArgShape::Text,
            ArgsView::Float(_) => ArgShape::Float,
            ArgsView::Int(_) => ArgShape::Int,
            ArgsView::Entity(_) => ArgShape::Entity,
            ArgsView::KataSize(_) => ArgShape::Size,
        }
    }

    /// Whether decoding gives the arguments back from their text.
    ///
    /// Vertices are well formed and numbers are literals. Free text is made
    /// of words with single spaces between them, and each string of a list
    /// is one word, because arguments are read word by word. A collection
    /// holds no move, because the two words of a move are read as two
    /// items.
    pub open spec fn round_trips(a: ArgsView) -> bool {
        match a {
            ArgsView::Collection(c) => all_single(c),
            ArgsView::ListVertex(l) => all_wf(l),
            ArgsView::ListMove(l) => all_moves_wf(l),
            ArgsView::ListString(l) => all_words(l, Spacing::Ascii),
            ArgsView::String(s) => is_spaced(s),
            ArgsView::Float(f) => is_float(f),
            ArgsView::Int(_) => true,
            ArgsView::Entity(e) => e.wf(),
            ArgsView::KataSize(_) => true,
        }
    }
}

impl Command {
    /// Whether decoding gives the command back from its line: its name is
    /// not `Unknown`, its arguments have the shape that goes with the name,
    /// and decoding gives them back from their text.
    pub open spec fn round_trips(c: CommandView) -> bool {
        &&& is_named(c.name)
        &&& match c.args {
            None => CommandName::shape_of(c.name) == ArgShape::Nothing,
            Some(a) => CommandName::shape_of(c.name) == Args::shape_of(a) && Args::round_trips(a),
        }
    }
}

/// Decoding the text of a board size gives the size back.
pub proof fn lemma_size_round_trip(size: (u32, u32))
    ensures
        RectSize::decoded(RectSize::encoded(size)) == Ok::<(u32, u32), ParseError>(size),
        is_spaced(RectSize::encoded(size)),
{
    let w = numeral(size.0 as nat);
    let h = numeral(size.1 as nat);
    lemma_numeral_plain(size.0 as nat);
    lemma_numeral_plain(size.1 as nat);
    lemma_plain(w);
    lemma_plain(h);
    lemma_pair_is_spaced(w, h);
    lemma_unsigned_of_numeral(size.0 as nat, u32::MAX as nat);
    lemma_unsigned_of_numeral(size.1 as nat, u32::MAX as nat);
}

/// Decoding the text of a list of well-formed vertices gives the list
/// back, and the text is made of words with single spaces between them.
pub proof fn lemma_vertex_list_round_trip(l: Seq<Vertex>)
    requires
        all_wf(l),
    ensures
        is_spaced(List::<Vertex>::encoded(l)),
        List::<Vertex>::decoded(List::<Vertex>::encoded(l)) == Ok::<Seq<Vertex>, ParseError>(l),
{
    lemma_vertices_round_trip(l);
    lemma_list_text::<Vertex>(l);
    lemma_list_round_trip::<Vertex>(l);
}

/// Decoding the text of a list of words gives the list back, and the text
/// is made of words with single spaces between them.
pub proof fn lemma_string_list_round_trip(l: Seq<Seq<char>>)
    requires
        all_words(l, Spacing::Ascii),
    ensures
        is_spaced(List::<String>::encoded(l)),
        List::<String>::decoded(List::<String>::encoded(l)) == Ok::<Seq<Seq<char>>, ParseError>(
            l,
        ),
{
    lemma_strings_round_trip(l);
    lemma_list_text::<String>(l);
    lemma_list_round_trip::<String>(l);
}

/// What `lemma_args_round_trip` says, of a vertex, a colour or a move.
proof fn lemma_entity_args_round_trip(e: SimpleEntity)
    requires
        e.wf(),
    ensures
        is_spaced(SimpleEntity::encoded(e)),
        SimpleEntity::decoded(SimpleEntity::encoded(e)) == Ok::<SimpleEntity, ParseError>(e),
{
    lemma_simple_entity_round_trip(e);
    lemma_entity_text(e);
}

/// The text of arguments that decoding gives back is made of words with
/// single spaces between them, and decodes to the arguments under their
/// shape.
#[verifier::rlimit(30)]
pub proof fn lemma_args_round_trip(a: ArgsView)
    requires
        Args::round_trips(a),
    ensures
        is_spaced(Args::encoded(a)),
        Args::decoded(Args::shape_of(a), Args::encoded(a)) == Ok::<Option<ArgsView>, ParseError>(
            Some(a),
        ),
{
    match a {
        ArgsView::String(_) => {},
        ArgsView::Float(f) => {
            lemma_float_is_word(f);
            lemma_word_is_spaced(f);
        },
        ArgsView::Int(i) => {
            lemma_numeral_plain(i as nat);
            lemma_plain(numeral(i as nat));
            lemma_word_is_spaced(numeral(i as nat));
            lemma_unsigned_of_numeral(i as nat, u32::MAX as nat);
        },
        ArgsView::Entity(e) => {
            lemma_entity_args_round_trip(e);
        },
        ArgsView::KataSize(size) => {
            lemma_size_round_trip(size);
        },
        ArgsView::Collection(c) => {
            lemma_collection_round_trip(c);
        },
        ArgsView::ListVertex(l) => {
            lemma_vertex_list_round_trip(l);
        },
        ArgsView::ListMove(l) => {
            lemma_move_list_round_trip(l);
        },
        ArgsView::ListString(l) => {
            lemma_string_list_round_trip(l);
        },
    }
}

/// The words of what follows the name in the line of a command are the
/// words of the text of its arguments.
pub proof fn lemma_words_after_name(args: Option<ArgsView>)
    ensures
        words(
            (match args {
                Some(a) => seq![' '] + Args::encoded(a),
                None => Seq::empty(),
            }) + seq!['\n'],
            Spacing::Ascii,
        ) == (match args {
            Some(a) => words(Args::encoded(a), Spacing::Ascii),
            None => Seq::empty(),
        }),
{
    let spacing = Spacing::Ascii;
    lemma_words_of_separator('\n', spacing);
    match args {
        Some(a) => {
            let t = Args::encoded(a);
            lemma_words_around(Seq::empty(), ' ', t + seq!['\n'], spacing);
            lemma_words_concat(t, seq!['\n'], spacing);
            assert(Seq::<char>::empty() + seq![' '] + (t + seq!['\n']) == seq![' '] + t + seq![
                '\n',
            ]);
            assert(words(Seq::<char>::empty(), spacing) == Seq::<Seq<char>>::empty());
            assert(words(t, spacing) + Seq::<Seq<char>>::empty() == words(t, spacing));
            assert(Seq::<Seq<char>>::empty() + words(t, spacing) == words(t, spacing));
        },
        None => {
            assert(Seq::<char>::empty() + seq!['\n'] == seq!['\n']);
        },
    }
}

/// The words of the text of the arguments of a command, or none where it
/// has no arguments.
pub open spec fn words_of_args(args: Option<ArgsView>) -> Seq<Seq<char>> {
    match args {
        Some(a) => words(Args::encoded(a), Spacing::Ascii),
        None => Seq::empty(),
    }
}

/// The words of the line of a command are its number, where it has one,
/// the word of its name, and the words of the text of its arguments.
#[verifier::rlimit(30)]
pub proof fn lemma_command_words(c: CommandView)
    ensures
        words(Command::encoded(c), Spacing::Ascii) == (match c.id {
            Some(id) => seq![numeral(id as nat)],
            None => Seq::empty(),
        }) + seq![CommandName::encoded(c.name)] + words_of_args(c.args),
{
    let spacing = Spacing::Ascii;
    let name = CommandName::encoded(c.name);
    let rest = (match c.args {
        Some(a) => seq![' '] + Args::encoded(a),
        None => Seq::empty(),
    }) + seq!['\n'];
    let after = words_of_args(c.args);
    let named = name + rest;
    lemma_name_text(c.name);
    lemma_name_like(name);
    lemma_words_after_name(c.args);
    lemma_words_of_word(name, spacing);
    lemma_words_concat(name, rest, spacing);
    assert(words(named, spacing) == seq![name] + after);
    let line = Command::encoded(c);
    match c.id {
        Some(id) => {
            let number = numeral(id as nat);
            lemma_numeral_plain(id as nat);
            lemma_plain(number);
            lemma_words_of_word(number, spacing);
            lemma_words_around(number, ' ', named, spacing);
            assert(line == number + seq![' '] + named);
            assert(seq![number] + (seq![name] + after) == seq![number] + seq![name] + after);
        },
        None => {
            assert(line == named);
            assert(Seq::<Seq<char>>::empty() + seq![name] + after == seq![name] + after);
        },
    }
}

/// What decoding makes of a line whose words are a number or none, the
/// word of the name `name`, and then the words `after`.
#[verifier::rlimit(30)]
pub proof fn lemma_decoded_from_words(
    s: Seq<char>,
    id: Option<u32>,
    name: CommandName,
    after: Seq<Seq<char>>,
)
    requires
        words(s, Spacing::Ascii) == (match id {
            Some(id) => seq![numeral(id as nat)],
            None => Seq::empty(),
        }) + seq![CommandName::encoded(name)] + after,
    ensures
        Command::decoded(s) == Command::finished(
            id,
            CommandName::decoded(CommandName::encoded(name)),
            join(after, seq![' ']),
        ),
{
    let word = CommandName::encoded(name);
    let parts = words(s, Spacing::Ascii);
    lemma_name_text(name);
    lemma_name_like(word);
    match id {
        Some(n) => {
            lemma_unsigned_of_numeral(n as nat, u32::MAX as nat);
            assert(parts[0] == numeral(n as nat));
            assert(parts.skip(1) == seq![word] + after);
            assert(parts.skip(1)[0] == word);
            assert(parts.skip(1).skip(1) == after);
        },
        None => {
            assert(parts == seq![word] + after);
            assert(parts[0] == word);
            assert(parts.skip(1) == after);
        },
    }
}

/// Decoding the line of a command gives the command back, for every
/// command that `Command::round_trips` admits.
#[verifier::rlimit(30)]
pub proof fn lemma_command_round_trip(c: CommandView)
    requires
        Command::round_trips(c),
    ensures
        Command::decoded(Command::encoded(c)) == Ok::<CommandView, ParseError>(c),
{
    lemma_command_words(c);
    lemma_decoded_from_words(Command::encoded(c), c.id, c.name, words_of_args(c.args));
    lemma_name_round_trip(c.name);
    match c.args {
        Some(a) => {
            lemma_args_round_trip(a);
        },
        None => {
            assert(join(words_of_args(c.args), seq![' ']) == Seq::<char>::empty());
        },
    }
}



/// Arguments that a text decodes to under a shape have that shape, and
/// there are none only under the shape of nothing.
pub proof fn lemma_decoded_args_shape(shape: ArgShape, s: Seq<char>)
    ensures
        match Args::decoded(shape, s) {
            Ok(Some(a)) => Args::shape_of(a) == shape,
            Ok(None) => shape == ArgShape::Nothing,
            Err(_) => true,
        },
{
}

/// A collection that a text decodes to is one that decoding gives back.
pub proof fn lemma_decoded_collection(t: Seq<char>)
    ensures
        Collection::decoded(t) matches Ok(c) ==> all_single(c),
{
    let parts = words(t, Spacing::Ascii);
    lemma_words_are_words(t, Spacing::Ascii);
    lemma_decode_all_each::<SimpleEntity>(parts);
    if let Ok(c) = Collection::decoded(t) {
        assert forall|i: int| 0 <= i < c.len() implies (#[trigger] c[i]).wf() && !(c[i]
            is Move) by {
            lemma_decoded_entity_is_wf(parts[i]);
        }
    }
}

/// A list of vertices that a text decodes to holds well-formed vertices.
pub proof fn lemma_decoded_vertex_list(t: Seq<char>)
    ensures
        List::<Vertex>::decoded(t) matches Ok(l) ==> all_wf(l),
{
    let parts = groups(words(t, Spacing::Ascii), 1);
    lemma_decode_all_each::<Vertex>(parts);
    if let Ok(l) = List::<Vertex>::decoded(t) {
        assert forall|i: int| 0 <= i < l.len() implies (#[trigger] l[i]).wf() by {
            lemma_decoded_vertex_is_wf(parts[i]);
        }
    }
}

/// A list of moves that a text decodes to holds well-formed moves.
pub proof fn lemma_decoded_move_list(t: Seq<char>)
    ensures
        List::<Move>::decoded(t) matches Ok(l) ==> all_moves_wf(l),
{
    let parts = groups(words(t, Spacing::Ascii), 2);
    lemma_decode_all_each::<Move>(parts);
    if let Ok(l) = List::<Move>::decoded(t) {
        assert forall|i: int| 0 <= i < l.len() implies (#[trigger] l[i]).wf() by {
            lemma_decoded_move_is_wf(parts[i]);
        }
    }
}

/// A list of strings that a text decodes to holds words.
pub proof fn lemma_decoded_string_list(t: Seq<char>)
    ensures
        List::<String>::decoded(t) matches Ok(l) ==> all_words(l, Spacing::Ascii),
{
    let parts = words(t, Spacing::Ascii);
    lemma_words_are_words(t, Spacing::Ascii);
    lemma_groups_one(parts);
    lemma_decode_all_each::<String>(parts);
    if let Ok(l) = List::<String>::decoded(t) {
        assert(l =~= parts);
    }
}

/// Arguments that a text of words with single spaces between them decodes
/// to are among those that `Args::round_trips` admits.
#[verifier::rlimit(30)]
pub proof fn lemma_decoded_args_round_trip(shape: ArgShape, t: Seq<char>)
    requires
        is_spaced(t),
    ensures
        Args::decoded(shape, t) matches Ok(Some(a)) ==> Args::round_trips(a),
{
    match shape {
        ArgShape::Collection => {
            lemma_decoded_collection(t);
        },
        ArgShape::ListVertex => {
            lemma_decoded_vertex_list(t);
        },
        ArgShape::ListMove => {
            lemma_decoded_move_list(t);
        },
        ArgShape::ListString => {
            lemma_decoded_string_list(t);
        },
        ArgShape::Entity => {
            lemma_decoded_entity_is_wf(t);
        },
        _ => {},
    }
}

/// Arguments that decoding gives back from the words of their text are
/// among those that `Args::round_trips` admits.
pub proof fn lemma_args_round_trip_only(a: ArgsView)
    requires
        Args::decoded(Args::shape_of(a), join(words(Args::encoded(a), Spacing::Ascii), seq![' ']))
            == Ok::<Option<ArgsView>, ParseError>(Some(a)),
    ensures
        Args::round_trips(a),
{
    let parts = words(Args::encoded(a), Spacing::Ascii);
    lemma_words_are_words(Args::encoded(a), Spacing::Ascii);
    crate::text_laws::lemma_words_of_join(parts);
    lemma_decoded_args_round_trip(Args::shape_of(a), join(parts, seq![' ']));
}

/// Decoding gives a command back from its line only where
/// `Command::round_trips` admits the command: of every other command the
/// line decodes to something else or to nothing.
#[verifier::rlimit(40)]
pub proof fn lemma_command_round_trip_only(c: CommandView)
    requires
        Command::decoded(Command::encoded(c)) == Ok::<CommandView, ParseError>(c),
    ensures
        Command::round_trips(c),
{
    lemma_command_words(c);
    lemma_decoded_from_words(Command::encoded(c), c.id, c.name, words_of_args(c.args));
    if is_named(c.name) {
        lemma_name_round_trip(c.name);
        let t = join(words_of_args(c.args), seq![' ']);
        lemma_decoded_args_shape(CommandName::shape_of(c.name), t);
        match c.args {
            Some(a) => {
                lemma_args_round_trip_only(a);
            },
            None => {},
        }
    } else {
        crate::model::round_trip::lemma_name_lost(c.name);
    }
}

/// A word that names a command names one other than `Unknown`.
pub proof fn lemma_decoded_name_is_named(w: Seq<char>)
    ensures
        CommandName::decoded(w) matches Ok(n) ==> is_named(n),
{
}

/// A command that is made of a name that a word named and of a text of
/// words with single spaces between them is one that decoding gives back.
#[verifier::rlimit(40)]
pub proof fn lemma_finished_round_trips(
    id: Option<u32>,
    name: Result<CommandName, ParseError>,
    text: Seq<char>,
)
    requires
        is_spaced(text),
        name matches Ok(n) ==> is_named(n),
    ensures
        Command::finished(id, name, text) matches Ok(c) ==> Command::round_trips(c),
{
    if let Ok(n) = name {
        lemma_decoded_args_shape(CommandName::shape_of(n), text);
        lemma_decoded_args_round_trip(CommandName::shape_of(n), text);
    }
}

/// The words behind the name in a line, joined with single spaces, are a
/// text of words with single spaces between them.
pub proof fn lemma_words_behind(parts: Seq<Seq<char>>, from: int)
    requires
        crate::text_laws::all_words(parts, Spacing::Ascii),
        0 <= from <= parts.len(),
    ensures
        is_spaced(join(parts.skip(from), seq![' '])),
{
    let after = parts.skip(from);
    assert forall|i: int| 0 <= i < after.len() implies crate::text::is_word(
        #[trigger] after[i],
        Spacing::Ascii,
    ) by {
        assert(after[i] == parts[i + from]);
    }
    crate::text_laws::lemma_words_of_join(after);
}

/// What a line decodes to is a command that decoding gives back from its
/// own line: encoding what was decoded and decoding again changes
/// nothing.
#[verifier::rlimit(40)]
pub proof fn lemma_decoded_command_round_trips(s: Seq<char>)
    ensures
        Command::decoded(s) matches Ok(c) ==> Command::round_trips(c),
{
    let parts = words(s, Spacing::Ascii);
    lemma_words_are_words(s, Spacing::Ascii);
    if parts.len() > 0 {
        let number = crate::number::unsigned(parts[0], u32::MAX as nat);
        let id = match number {
            Some(n) => Some(n as u32),
            None => None,
        };
        let from: int = if number.is_some() {
            1
        } else {
            0
        };
        let rest = parts.skip(from);
        assert(parts.skip(0) == parts);
        if rest.len() > 0 {
            assert(rest.skip(1) == parts.skip(from + 1));
            lemma_words_behind(parts, from + 1);
            lemma_decoded_name_is_named(rest[0]);
            lemma_finished_round_trips(
                id,
                CommandName::decoded(rest[0]),
                join(rest.skip(1), seq![' ']),
            );
        }
    }
}

} // verus!
