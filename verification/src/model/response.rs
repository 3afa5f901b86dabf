//! Responses: what an engine answers where a command succeeds.

use crate::model::types::{decode_all, encode_all, views};
use crate::model::{
    agrees, view_of, Boolean, CommandName, Entity, List, Move, ParseError, Score, Vertex,
};
use crate::number::{numeral, parse_unsigned, push_numeral, unsigned};
use crate::text::{
    chars_of, count, count_of, position, position_of, push_str, split, split_at_each, string_of,
    texts, trim_end, trimmed_len,
};
use vstd::prelude::*;
use vstd::slice::slice_subrange;

verus! {

/// What a response carries.
#[derive(Debug, Clone)]
pub enum ResponseData {
    Integer(u32),
    /// Free text, as for a name, a version or a diagram of the board.
    String(String),
    Bool(Boolean),
    CommandNames(Vec<CommandName>),
    ListVertex(List<Vertex>),
    Move(Move),
    Score(Score),
    VertexLists(Vec<List<Vertex>>),
}

/// What a response carries, as mathematical values.
pub enum ResponseDataView {
    Integer(u32),
    String(Seq<char>),
    Bool(Boolean),
    CommandNames(Seq<CommandName>),
    ListVertex(Seq<Vertex>),
    Move(Move),
    Score(Seq<char>),
    VertexLists(Seq<Seq<Vertex>>),
}

impl View for ResponseData {
    type V = ResponseDataView;

    open spec fn view(&self) -> ResponseDataView {
        match self {
            ResponseData::Integer(i) => ResponseDataView::Integer(*i),
            ResponseData::String(s) => ResponseDataView::String(s@),
            ResponseData::Bool(b) => ResponseDataView::Bool(*b),
            ResponseData::CommandNames(names) => ResponseDataView::CommandNames(names@),
            ResponseData::ListVertex(l) => ResponseDataView::ListVertex(l@),
            ResponseData::Move(m) => ResponseDataView::Move(*m),
            ResponseData::Score(s) => ResponseDataView::Score(s@),
            ResponseData::VertexLists(lists) => ResponseDataView::VertexLists(views(lists@)),
        }
    }
}

/// `s` without the line breaks that end a response: up to two line breaks
/// at its end.
pub open spec fn without_ending(s: Seq<char>) -> Seq<char> {
    if s.len() >= 2 && s[s.len() - 1] == '\n' && s[s.len() - 2] == '\n' {
        s.take(s.len() - 2)
    } else if s.len() >= 1 && s[s.len() - 1] == '\n' {
        s.take(s.len() - 1)
    } else {
        s
    }
}

/// `parts`, each followed by a line break.
pub open spec fn lines(parts: Seq<Seq<char>>) -> Seq<char>
    decreases parts.len(),
{
    if parts.len() == 0 {
        Seq::empty()
    } else {
        lines(parts.drop_last()) + parts.last() + seq!['\n']
    }
}

/// Appends the text of each of `items` and a line break after each.
fn write_lines<T: Entity>(items: &Vec<T>, out: &mut Vec<char>)
    ensures
        final(out)@ == old(out)@ + lines(encode_all::<T>(views(items@))),
{
    let ghost all = encode_all::<T>(views(items@));
    let mut i: usize = 0;
    assert(all.take(0) == Seq::<Seq<char>>::empty());
    while i < items.len()
        invariant
            i <= items.len(),
            all == encode_all::<T>(views(items@)),
            out@ == old(out)@ + lines(all.take(i as int)),
        decreases items.len() - i,
    {
        let ghost before = all.take(i as int);
        let ghost now = all.take(i + 1);
        assert(now.drop_last() == before);
        assert(now.last() == T::encoded(items@[i as int]@));
        items[i].encode(out);
        out.push('\n');
        assert(out@ == old(out)@ + (lines(before) + now.last() + seq!['\n']));
        i += 1;
    }
    assert(all.take(i as int) == all);
}

impl ResponseData {
    /// What is held, where the data is an integer; the data itself otherwise.
    pub fn to_int(self) -> (r: Result<u32, Self>)
        ensures
            r == (match self {
                ResponseData::Integer(v) => Ok::<u32, ResponseData>(v),
                other => Err::<u32, ResponseData>(other),
            }),
    {
        match self {
            ResponseData::Integer(v) => Ok(v),
            _ => Err(self),
        }
    }

    /// What is held, where the data is an integer.
    pub fn as_int(&self) -> (r: Option<&u32>)
        ensures
            r == (match self {
                ResponseData::Integer(v) => Some(v),
                _ => None::<&u32>,
            }),
    {
        match self {
            ResponseData::Integer(v) => Some(v),
            _ => None,
        }
    }

    /// Whether the data is an integer.
    pub fn is_int(&self) -> (r: bool)
        ensures
            r == (self is Integer),
    {
        match self {
            ResponseData::Integer(_) => true,
            _ => false,
        }
    }

    /// What is held, where the data is free text; the data itself otherwise.
    pub fn to_name(self) -> (r: Result<String, Self>)
        ensures
            r == (match self {
                ResponseData::String(v) => Ok::<String, ResponseData>(v),
                other => Err::<String, ResponseData>(other),
            }),
    {
        match self {
            ResponseData::String(v) => Ok(v),
            _ => Err(self),
        }
    }

    /// What is held, where the data is free text.
    pub fn as_name(&self) -> (r: Option<&String>)
        ensures
            r == (match self {
                ResponseData::String(v) => Some(v),
                _ => None::<&String>,
            }),
    {
        match self {
            ResponseData::String(v) => Some(v),
            _ => None,
        }
    }

    /// Whether the data is free text.
    pub fn is_name(&self) -> (r: bool)
        ensures
            r == (self is String),
    {
        match self {
            ResponseData::String(_) => true,
            _ => false,
        }
    }

    /// What is held, where the data is a truth value; the data itself otherwise.
    pub fn to_bool(self) -> (r: Result<Boolean, Self>)
        ensures
            r == (match self {
                ResponseData::Bool(v) => Ok::<Boolean, ResponseData>(v),
                other => Err::<Boolean, ResponseData>(other),
            }),
    {
        match self {
            ResponseData::Bool(v) => Ok(v),
            _ => Err(self),
        }
    }

    /// What is held, where the data is a truth value.
    pub fn as_bool(&self) -> (r: Option<&Boolean>)
        ensures
            r == (match self {
                ResponseData::Bool(v) => Some(v),
                _ => None::<&Boolean>,
            }),
    {
        match self {
            ResponseData::Bool(v) => Some(v),
            _ => None,
        }
    }

    /// Whether the data is a truth value.
    pub fn is_bool(&self) -> (r: bool)
        ensures
            r == (self is Bool),
    {
        match self {
            ResponseData::Bool(_) => true,
            _ => false,
        }
    }

    /// What is held, where the data is a list of command names; the data itself otherwise.
    pub fn to_command_names(self) -> (r: Result<Vec<CommandName>, Self>)
        ensures
            r == (match self {
                ResponseData::CommandNames(v) => Ok::<Vec<CommandName>, ResponseData>(v),
                other => Err::<Vec<CommandName>, ResponseData>(other),
            }),
    {
        match self {
            ResponseData::CommandNames(v) => Ok(v),
            _ => Err(self),
        }
    }

    /// What is held, where the data is a list of command names.
    pub fn as_command_names(&self) -> (r: Option<&Vec<CommandName>>)
        ensures
            r == (match self {
                ResponseData::CommandNames(v) => Some(v),
                _ => None::<&Vec<CommandName>>,
            }),
    {
        match self {
            ResponseData::CommandNames(v) => Some(v),
            _ => None,
        }
    }

    /// Whether the data is a list of command names.
    pub fn is_command_names(&self) -> (r: bool)
        ensures
            r == (self is CommandNames),
    {
        match self {
            ResponseData::CommandNames(_) => true,
            _ => false,
        }
    }

    /// What is held, where the data is a list of vertices; the data itself otherwise.
    pub fn to_list_vertex(self) -> (r: Result<List<Vertex>, Self>)
        ensures
            r == (match self {
                ResponseData::ListVertex(v) => Ok::<List<Vertex>, ResponseData>(v),
                other => Err::<List<Vertex>, ResponseData>(other),
            }),
    {
        match self {
            ResponseData::ListVertex(v) => Ok(v),
            _ => Err(self),
        }
    }

    /// What is held, where the data is a list of vertices.
    pub fn as_list_vertex(&self) -> (r: Option<&List<Vertex>>)
        ensures
            r == (match self {
                ResponseData::ListVertex(v) => Some(v),
                _ => None::<&List<Vertex>>,
            }),
    {
        match self {
            ResponseData::ListVertex(v) => Some(v),
            _ => None,
        }
    }

    /// Whether the data is a list of vertices.
    pub fn is_list_vertex(&self) -> (r: bool)
        ensures
            r == (self is ListVertex),
    {
        match self {
            ResponseData::ListVertex(_) => true,
            _ => false,
        }
    }

    /// What is held, where the data is a move; the data itself otherwise.
    pub fn to_move(self) -> (r: Result<Move, Self>)
        ensures
            r == (match self {
                ResponseData::Move(v) => Ok::<Move, ResponseData>(v),
                other => Err::<Move, ResponseData>(other),
            }),
    {
        match self {
            ResponseData::Move(v) => Ok(v),
            _ => Err(self),
        }
    }

    /// What is held, where the data is a move.
    pub fn as_move(&self) -> (r: Option<&Move>)
        ensures
            r == (match self {
                ResponseData::Move(v) => Some(v),
                _ => None::<&Move>,
            }),
    {
        match self {
            ResponseData::Move(v) => Some(v),
            _ => None,
        }
    }

    /// Whether the data is a move.
    pub fn is_move(&self) -> (r: bool)
        ensures
            r == (self is Move),
    {
        match self {
            ResponseData::Move(_) => true,
            _ => false,
        }
    }

    /// What is held, where the data is a score; the data itself otherwise.
    pub fn to_score(self) -> (r: Result<Score, Self>)
        ensures
            r == (match self {
                ResponseData::Score(v) => Ok::<Score, ResponseData>(v),
                other => Err::<Score, ResponseData>(other),
            }),
    {
        match self {
            ResponseData::Score(v) => Ok(v),
            _ => Err(self),
        }
    }

    /// What is held, where the data is a score.
    pub fn as_score(&self) -> (r: Option<&Score>)
        ensures
            r == (match self {
                ResponseData::Score(v) => Some(v),
                _ => None::<&Score>,
            }),
    {
        match self {
            ResponseData::Score(v) => Some(v),
            _ => None,
        }
    }

    /// Whether the data is a score.
    pub fn is_score(&self) -> (r: bool)
        ensures
            r == (self is Score),
    {
        match self {
            ResponseData::Score(_) => true,
            _ => false,
        }
    }

    /// What is held, where the data is lists of vertices; the data itself otherwise.
    pub fn to_vertex_lists(self) -> (r: Result<Vec<List<Vertex>>, Self>)
        ensures
            r == (match self {
                ResponseData::VertexLists(v) => Ok::<Vec<List<Vertex>>, ResponseData>(v),
                other => Err::<Vec<List<Vertex>>, ResponseData>(other),
            }),
    {
        match self {
            ResponseData::VertexLists(v) => Ok(v),
            _ => Err(self),
        }
    }

    /// What is held, where the data is lists of vertices.
    pub fn as_vertex_lists(&self) -> (r: Option<&Vec<List<Vertex>>>)
        ensures
            r == (match self {
                ResponseData::VertexLists(v) => Some(v),
                _ => None::<&Vec<List<Vertex>>>,
            }),
    {
        match self {
            ResponseData::VertexLists(v) => Some(v),
            _ => None,
        }
    }

    /// Whether the data is lists of vertices.
    pub fn is_vertex_lists(&self) -> (r: bool)
        ensures
            r == (self is VertexLists),
    {
        match self {
            ResponseData::VertexLists(_) => true,
            _ => false,
        }
    }

    /// The text of the data. Command names and lists of vertices stand one
    /// to a line, each line with its line break.
    pub open spec fn encoded(d: ResponseDataView) -> Seq<char> {
        match d {
            ResponseDataView::Integer(i) => numeral(i as nat),
            ResponseDataView::String(s) => s,
            ResponseDataView::Bool(b) => Boolean::encoded(b),
            ResponseDataView::CommandNames(names) => lines(encode_all::<CommandName>(names)),
            ResponseDataView::ListVertex(l) => List::<Vertex>::encoded(l),
            ResponseDataView::Move(m) => Move::encoded(m),
            ResponseDataView::Score(s) => Score::encoded(s),
            ResponseDataView::VertexLists(lists) => lines(encode_all::<List<Vertex>>(lists)),
        }
    }

    /// The lines of a text: its pieces between line breaks.
    pub open spec fn lines_of(s: Seq<char>) -> Seq<Seq<char>> {
        split(s, '\n')
    }

    /// The data that a text stands for, where the text carries no line
    /// breaks of the end of a response; `spans` says whether it did carry
    /// any line break before these were taken off.
    ///
    /// The text is the first that it can be of: an integer, a truth value,
    /// a move, a score, a list of vertices in one line. A text that is none
    /// of these and never held a line break is no data. Where its first
    /// line is a command name, every line must be one. Where every line is
    /// a list of vertices, it is these lists. Any other text is free text
    /// and stands for itself.
    pub open spec fn decoded_payload(s: Seq<char>, spans: bool) -> Result<
        ResponseDataView,
        ParseError,
    > {
        if let Some(n) = unsigned(s, u32::MAX as nat) {
            Ok(ResponseDataView::Integer(n as u32))
        } else if let Ok(b) = Boolean::decoded(s) {
            Ok(ResponseDataView::Bool(b))
        } else if let Ok(m) = Move::decoded(s) {
            Ok(ResponseDataView::Move(m))
        } else if let Ok(t) = Score::decoded(s) {
            Ok(ResponseDataView::Score(t))
        } else if count(s, '\n') == 0 && List::<Vertex>::decoded(s).is_ok() {
            Ok(ResponseDataView::ListVertex(List::<Vertex>::decoded(s).unwrap()))
        } else if !spans {
            Err(ParseError::WrongResponseData)
        } else if CommandName::decoded(Self::lines_of(s)[0]).is_ok() {
            match decode_all::<CommandName>(Self::lines_of(s)) {
                Ok(names) => Ok(ResponseDataView::CommandNames(names)),
                Err(e) => Err(e),
            }
        } else {
            match decode_all::<List<Vertex>>(Self::lines_of(s)) {
                Ok(lists) => Ok(ResponseDataView::VertexLists(lists)),
                Err(_) => Ok(ResponseDataView::String(s)),
            }
        }
    }

    /// The data that the text behind the number of a response stands for.
    /// The line breaks that end the response, up to two at the end of the
    /// text, are the response's own: they are taken off before the data is
    /// decoded, and free text comes out without them.
    pub open spec fn in_response(s: Seq<char>) -> Result<ResponseDataView, ParseError> {
        Self::decoded_payload(without_ending(s), count(s, '\n') > 0)
    }

    /// The data that a text stands for. Up to two line breaks at the end of
    /// the text are not read where the kind of the data is found; free
    /// text is the whole text as it is given, with every line break.
    pub open spec fn decoded(s: Seq<char>) -> Result<ResponseDataView, ParseError> {
        match Self::in_response(s) {
            Ok(ResponseDataView::String(_)) => Ok(ResponseDataView::String(s)),
            other => other,
        }
    }

    /// Appends the text of the data to `out`.
    pub fn write(&self, out: &mut Vec<char>)
        ensures
            final(out)@ == old(out)@ + Self::encoded(self@),
    {
        match self {
            ResponseData::Integer(i) => push_numeral(out, *i as u64),
            ResponseData::String(s) => push_str(out, s.as_str()),
            ResponseData::Bool(b) => b.write(out),
            ResponseData::CommandNames(names) => {
                assert(views(names@) == names@);
                write_lines::<CommandName>(names, out)
            },
            ResponseData::ListVertex(l) => l.write(out),
            ResponseData::Move(m) => m.write(out),
            ResponseData::Score(s) => s.write(out),
            ResponseData::VertexLists(lists) => write_lines::<List<Vertex>>(lists, out),
        }
    }

    /// The text of the data.
    pub fn to_string(&self) -> (r: String)
        ensures
            r@ == Self::encoded(self@),
    {
        let mut out: Vec<char> = Vec::new();
        self.write(&mut out);
        string_of(out.as_slice())
    }

    /// Decodes a text, and keeps free text whole.
    pub fn from_chars(s: &[char]) -> (r: Result<ResponseData, ParseError>)
        ensures
            agrees(r, Self::decoded(s@)),
    {
        match Self::from_response_chars(s) {
            Ok(ResponseData::String(_)) => Ok(ResponseData::String(string_of(s))),
            other => other,
        }
    }

    /// Decodes the text behind the number of a response.
    pub fn from_response_chars(s: &[char]) -> (r: Result<ResponseData, ParseError>)
        ensures
            agrees(r, Self::in_response(s@)),
    {
        let spans = count_of(s, '\n') > 0;
        let n = s.len();
        let end: usize = if n >= 2 && s[n - 1] == '\n' && s[n - 2] == '\n' {
            n - 2
        } else if n >= 1 && s[n - 1] == '\n' {
            n - 1
        } else {
            n
        };
        let p = slice_subrange(s, 0, end);
        assert(p@ == without_ending(s@));
        if let Some(n) = parse_unsigned(p, u32::MAX as u64) {
            return Ok(ResponseData::Integer(n as u32));
        }
        if let Ok(b) = Boolean::from_chars(p) {
            return Ok(ResponseData::Bool(b));
        }
        if let Ok(m) = Move::from_chars(p) {
            return Ok(ResponseData::Move(m));
        }
        if let Ok(score) = Score::from_chars(p) {
            return Ok(ResponseData::Score(score));
        }
        if count_of(p, '\n') == 0 {
            if let Ok(l) = List::<Vertex>::from_chars(p) {
                return Ok(ResponseData::ListVertex(l));
            }
        }
        if !spans {
            return Err(ParseError::WrongResponseData);
        }
        let pieces = split_at_each(p, '\n');
        assert(texts(pieces@)[0] == pieces@[0]@);
        if CommandName::from_chars(pieces[0].as_slice()).is_ok() {
            match crate::model::types::decode_each::<CommandName>(&pieces) {
                Ok(names) => {
                    assert(views(names@) == names@);
                    Ok(ResponseData::CommandNames(names))
                },
                Err(e) => Err(e),
            }
        } else {
            match crate::model::types::decode_each::<List<Vertex>>(&pieces) {
                Ok(lists) => Ok(ResponseData::VertexLists(lists)),
                Err(_) => Ok(ResponseData::String(string_of(p))),
            }
        }
    }

    /// Decodes a text.
    pub fn from_str(s: &str) -> (r: Result<ResponseData, ParseError>)
        ensures
            agrees(r, Self::decoded(s@)),
    {
        let chars = chars_of(s);
        Self::from_chars(chars.as_slice())
    }
}

/// A response: an optional number, that of the command it answers, and
/// optional data.
#[derive(Debug, Clone)]
pub struct Response {
    id: Option<u32>,
    data: Option<ResponseData>,
}

/// What a response holds, as mathematical values.
pub struct ResponseView {
    pub id: Option<u32>,
    pub data: Option<ResponseDataView>,
}

impl View for Response {
    type V = ResponseView;

    closed spec fn view(&self) -> ResponseView {
        ResponseView { id: self.id, data: view_of(self.data) }
    }
}

impl Response {
    /// The response without a number that holds a move.
    pub fn mov(mov: Move) -> (r: Self)
        ensures
            r@ == (ResponseView { id: None, data: Some(ResponseData::Move(mov)@) }),
    {
        Response { id: None, data: Some(ResponseData::Move(mov)) }
    }

    /// The response with the number `id` that holds a move.
    pub fn move_with_id(id: u32, mov: Move) -> (r: Self)
        ensures
            r@ == (ResponseView { id: Some(id), data: Some(ResponseData::Move(mov)@) }),
    {
        Response { id: Some(id), data: Some(ResponseData::Move(mov)) }
    }

    /// The response without a number that holds an integer.
    pub fn integer(int_value: u32) -> (r: Self)
        ensures
            r@ == (ResponseView { id: None, data: Some(ResponseData::Integer(int_value)@) }),
    {
        Response { id: None, data: Some(ResponseData::Integer(int_value)) }
    }

    /// The response with the number `id` that holds an integer.
    pub fn integer_with_id(id: u32, int_value: u32) -> (r: Self)
        ensures
            r@ == (ResponseView { id: Some(id), data: Some(ResponseData::Integer(int_value)@) }),
    {
        Response { id: Some(id), data: Some(ResponseData::Integer(int_value)) }
    }

    /// The response without a number that holds a name.
    pub fn name(name: String) -> (r: Self)
        ensures
            r@ == (ResponseView { id: None, data: Some(ResponseData::String(name)@) }),
    {
        Response { id: None, data: Some(ResponseData::String(name)) }
    }

    /// The response with the number `id` that holds a name.
    pub fn name_with_id(id: u32, name: String) -> (r: Self)
        ensures
            r@ == (ResponseView { id: Some(id), data: Some(ResponseData::String(name)@) }),
    {
        Response { id: Some(id), data: Some(ResponseData::String(name)) }
    }

    /// The response without a number that holds a version.
    pub fn version(version: String) -> (r: Self)
        ensures
            r@ == (ResponseView { id: None, data: Some(ResponseData::String(version)@) }),
    {
        Response { id: None, data: Some(ResponseData::String(version)) }
    }

    /// The response with the number `id` that holds a version.
    pub fn version_with_id(id: u32, version: String) -> (r: Self)
        ensures
            r@ == (ResponseView { id: Some(id), data: Some(ResponseData::String(version)@) }),
    {
        Response { id: Some(id), data: Some(ResponseData::String(version)) }
    }

    /// The response without a number that holds a truth value.
    pub fn bool(boolean: Boolean) -> (r: Self)
        ensures
            r@ == (ResponseView { id: None, data: Some(ResponseData::Bool(boolean)@) }),
    {
        Response { id: None, data: Some(ResponseData::Bool(boolean)) }
    }

    /// The response with the number `id` that holds a truth value.
    pub fn bool_with_id(id: u32, boolean: Boolean) -> (r: Self)
        ensures
            r@ == (ResponseView { id: Some(id), data: Some(ResponseData::Bool(boolean)@) }),
    {
        Response { id: Some(id), data: Some(ResponseData::Bool(boolean)) }
    }

    /// The response without a number that holds a list of command names.
    pub fn command_names(commands: Vec<CommandName>) -> (r: Self)
        ensures
            r@ == (ResponseView { id: None, data: Some(ResponseData::CommandNames(commands)@) }),
    {
        Response { id: None, data: Some(ResponseData::CommandNames(commands)) }
    }

    /// The response with the number `id` that holds a list of command names.
    pub fn command_names_with_id(id: u32, commands: Vec<CommandName>) -> (r: Self)
        ensures
            r@ == (ResponseView { id: Some(id), data: Some(ResponseData::CommandNames(commands)@) }),
    {
        Response { id: Some(id), data: Some(ResponseData::CommandNames(commands)) }
    }

    /// The response without a number that holds a list of vertices.
    pub fn list_vertex(vertices: List<Vertex>) -> (r: Self)
        ensures
            r@ == (ResponseView { id: None, data: Some(ResponseData::ListVertex(vertices)@) }),
    {
        Response { id: None, data: Some(ResponseData::ListVertex(vertices)) }
    }

    /// The response with the number `id` that holds a list of vertices.
    pub fn list_vertex_with_id(id: u32, vertices: List<Vertex>) -> (r: Self)
        ensures
            r@ == (ResponseView { id: Some(id), data: Some(ResponseData::ListVertex(vertices)@) }),
    {
        Response { id: Some(id), data: Some(ResponseData::ListVertex(vertices)) }
    }

    /// The response without a number that holds a score.
    pub fn score(score: Score) -> (r: Self)
        ensures
            r@ == (ResponseView { id: None, data: Some(ResponseData::Score(score)@) }),
    {
        Response { id: None, data: Some(ResponseData::Score(score)) }
    }

    /// The response with the number `id` that holds a score.
    pub fn score_with_id(id: u32, score: Score) -> (r: Self)
        ensures
            r@ == (ResponseView { id: Some(id), data: Some(ResponseData::Score(score)@) }),
    {
        Response { id: Some(id), data: Some(ResponseData::Score(score)) }
    }

    /// The response without a number that holds lists of vertices.
    pub fn vertex_lists(list: Vec<List<Vertex>>) -> (r: Self)
        ensures
            r@ == (ResponseView { id: None, data: Some(ResponseData::VertexLists(list)@) }),
    {
        Response { id: None, data: Some(ResponseData::VertexLists(list)) }
    }

    /// The response with the number `id` that holds lists of vertices.
    pub fn vertex_lists_with_id(id: u32, list: Vec<List<Vertex>>) -> (r: Self)
        ensures
            r@ == (ResponseView { id: Some(id), data: Some(ResponseData::VertexLists(list)@) }),
    {
        Response { id: Some(id), data: Some(ResponseData::VertexLists(list)) }
    }

    /// The response without number or data.
    pub fn empty() -> (r: Self)
        ensures
            r@ == (ResponseView { id: None, data: None }),
    {
        Response { id: None, data: None }
    }

    /// The response with the number `id` and without data.
    pub fn empty_with_id(id: u32) -> (r: Self)
        ensures
            r@ == (ResponseView { id: Some(id), data: None }),
    {
        Response { id: Some(id), data: None }
    }

    /// The response without a number that holds the diagram which `f`
    /// draws.
    pub fn showboard<P>(f: P) -> (r: Self) where P: Fn() -> String
        requires
            f.requires(()),
        ensures
            r@.id.is_none(),
            exists|board: String|
                f.ensures((), board) && r@.data == Some(ResponseDataView::String(board@)),
    {
        Response { id: None, data: Some(ResponseData::String(f())) }
    }

    /// The number of the response.
    pub fn id(&self) -> (r: &Option<u32>)
        ensures
            *r == self@.id,
    {
        &self.id
    }

    /// The number of the response, to be changed in place.
    pub fn id_mut(&mut self) -> (r: &mut Option<u32>)
        ensures
            *r == old(self)@.id,
            final(self)@ == (ResponseView { id: *final(r), ..old(self)@ }),
    {
        &mut self.id
    }

    /// The data of the response.
    pub fn data(&self) -> (r: &Option<ResponseData>)
        ensures
            view_of(*r) == self@.data,
    {
        &self.data
    }

    /// The data of the response, to be changed in place.
    pub fn data_mut(&mut self) -> (r: &mut Option<ResponseData>)
        ensures
            view_of(*r) == old(self)@.data,
            final(self)@ == (ResponseView { data: view_of(*final(r)), ..old(self)@ }),
    {
        &mut self.data
    }

    /// Whether data is of a kind that ends each of its lines itself.
    pub open spec fn is_lines(d: ResponseDataView) -> bool {
        d is CommandNames || d is VertexLists
    }

    /// The text of a response: an equals sign; the number, where there is
    /// one; a space and the data, where there is data; and an empty line,
    /// which takes two line breaks, or one after data that ends its own
    /// lines.
    pub open spec fn encoded(r: ResponseView) -> Seq<char> {
        seq!['='] + (match r.id {
            Some(id) => numeral(id as nat),
            None => Seq::empty(),
        }) + (match r.data {
            Some(d) => seq![' '] + ResponseData::encoded(d) + (if Self::is_lines(d) {
                seq!['\n']
            } else {
                seq!['\n', '\n']
            }),
            None => seq!['\n', '\n'],
        })
    }

    /// The response that a text stands for.
    ///
    /// The text starts with an equals sign, or it has a wrong format. What
    /// follows up to the first space is the number, where it is an
    /// unsigned integer once the whitespace at its end is taken off. What
    /// follows the first space is the data, without the line breaks that
    /// end the response; it fails with its own error. Without a space
    /// there is no data.
    pub open spec fn decoded(s: Seq<char>) -> Result<ResponseView, ParseError> {
        let body = s.drop_first();
        let at = position(body, ' ');
        let id = match unsigned(trim_end(body.take(at)), u32::MAX as nat) {
            Some(n) => Some(n as u32),
            None => None,
        };
        if s.len() == 0 || s[0] != '=' {
            Err(ParseError::WrongResponseFormat)
        } else if body.len() == 0 {
            Ok(ResponseView { id: None, data: None })
        } else if at == body.len() {
            Ok(ResponseView { id, data: None })
        } else {
            match ResponseData::in_response(body.skip(at + 1)) {
                Ok(d) => Ok(ResponseView { id, data: Some(d) }),
                Err(e) => Err(e),
            }
        }
    }

    /// Appends the text of the response to `out`.
    pub fn write(&self, out: &mut Vec<char>)
        ensures
            final(out)@ == old(out)@ + Self::encoded(self@),
    {
        let ghost head = match self@.id {
            Some(id) => numeral(id as nat),
            None => Seq::empty(),
        };
        out.push('=');
        if let Some(id) = self.id {
            push_numeral(out, id as u64);
        }
        assert(out@ == old(out)@ + (seq!['='] + head));
        let ghost mid = out@;
        match &self.data {
            Some(d) => {
                out.push(' ');
                d.write(out);
                out.push('\n');
                match d {
                    ResponseData::CommandNames(_) | ResponseData::VertexLists(_) => {
                        assert(out@ == mid + (seq![' '] + ResponseData::encoded(d@) + seq!['\n']));
                    },
                    _ => {
                        out.push('\n');
                        assert(out@ == mid + (seq![' '] + ResponseData::encoded(d@) + seq![
                            '\n',
                            '\n',
                        ]));
                    },
                }
            },
            None => {
                out.push('\n');
                out.push('\n');
                assert(out@ == mid + seq!['\n', '\n']);
            },
        }
    }

    /// The text of the response.
    pub fn to_string(&self) -> (r: String)
        ensures
            r@ == Self::encoded(self@),
    {
        let mut out: Vec<char> = Vec::new();
        self.write(&mut out);
        string_of(out.as_slice())
    }

    /// Decodes a text.
    pub fn from_chars(s: &[char]) -> (r: Result<Response, ParseError>)
        ensures
            agrees(r, Self::decoded(s@)),
    {
        if s.len() == 0 || s[0] != '=' {
            return Err(ParseError::WrongResponseFormat);
        }
        let body = slice_subrange(s, 1, s.len());
        assert(body@ == s@.drop_first());
        if body.len() == 0 {
            return Ok(Response { id: None, data: None });
        }
        let at = position_of(body, ' ');
        let head = slice_subrange(body, 0, at);
        let trimmed = slice_subrange(head, 0, trimmed_len(head));
        let id = match parse_unsigned(trimmed, u32::MAX as u64) {
            Some(n) => Some(n as u32),
            None => None,
        };
        if at == body.len() {
            return Ok(Response { id, data: None });
        }
        let rest = slice_subrange(body, at + 1, body.len());
        assert(rest@ == body@.skip(at + 1));
        match ResponseData::from_response_chars(rest) {
            Ok(d) => Ok(Response { id, data: Some(d) }),
            Err(e) => Err(e),
        }
    }

    /// Decodes a text.
    pub fn from_str(s: &str) -> (r: Result<Response, ParseError>)
        ensures
            agrees(r, Self::decoded(s@)),
    {
        let chars = chars_of(s);
        Self::from_chars(chars.as_slice())
    }
}


impl core::str::FromStr for ResponseData {
    type Err = ParseError;

    /// Decodes a text.
    fn from_str(s: &str) -> (r: Result<Self, ParseError>)
        ensures
            agrees(r, ResponseData::decoded(s@)),
    {
        ResponseData::from_str(s)
    }
}

impl core::str::FromStr for Response {
    type Err = ParseError;

    /// Decodes a text.
    fn from_str(s: &str) -> (r: Result<Self, ParseError>)
        ensures
            agrees(r, Response::decoded(s@)),
    {
        Response::from_str(s)
    }
}

} // verus!
