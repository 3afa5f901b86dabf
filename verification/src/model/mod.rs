//! The values of the protocol and their text on the wire.

pub mod command;
pub mod command_round_trip;
pub mod failure;
pub mod info;
pub mod info_writing;
pub mod response;
pub mod response_round_trip;
pub mod round_trip;
pub mod types;

pub use command::{ArgShape, Args, ArgsView, Command, CommandName, CommandView, RectSize};
pub use failure::{Failure, FailureView};
pub use info::{Info, InfoMove, InfoMoveView, InfoView};
pub use response::{Response, ResponseData, ResponseDataView, ResponseView};
pub use types::{Boolean, Collection, Color, List, Move, Score, SimpleEntity, Vertex};
use vstd::prelude::*;

verus! {

/// Why a text was not decoded.
#[derive(Debug, Clone, Copy, PartialEq, Eq, Structural)]
pub enum ParseError {
    /// The text is none of the alternatives of a grammar.
    WrongAlternative,
    /// The text names no colour.
    WrongColor,
    /// The text names no command.
    WrongCommandName,
    /// The text is no board coordinate.
    WrongCoordinates,
    /// The text is neither vertex, colour nor move.
    WrongSimpleEntity,
    /// The arguments do not have the shape that the command asks for.
    WrongArgs,
    /// The text is neither `true` nor `false`.
    WrongBool,
    /// The payload of a response is of no known kind.
    WrongResponseData,
    /// The text does not have the frame of a response.
    WrongResponseFormat,
    /// The text does not have the frame of a failure.
    WrongFailureFormat,
    /// The text is neither response, analysis nor failure.
    WrongAnswerFormat,
    /// The text is no score.
    WrongScore,
    /// The text is empty where content was required.
    EmptyString,
}

/// Whether the outcome `r` of a decoder is the outcome `m` that the grammar
/// gives: the same error, or a value whose view the grammar names.
pub open spec fn agrees<T: View>(r: Result<T, ParseError>, m: Result<T::V, ParseError>) -> bool {
    match r {
        Ok(v) => m == Ok::<T::V, ParseError>(v@),
        Err(e) => m == Err::<T::V, ParseError>(e),
    }
}

/// The view of what an option holds.
pub open spec fn view_of<T: View>(o: Option<T>) -> Option<T::V> {
    match o {
        Some(v) => Some(v@),
        None => None,
    }
}

/// A value with a text of its own on the wire, which lists can hold.
pub trait Entity: View + Sized {
    /// The text that stands for a value.
    spec fn encoded(v: Self::V) -> Seq<char>;

    /// The value that a text stands for, or why it stands for none.
    spec fn decoded(s: Seq<char>) -> Result<Self::V, ParseError>;

    /// How many words the text of a value takes in a list.
    spec fn width() -> nat;

    /// How many words the text of a value takes in a list: at least one.
    fn word_count() -> (n: usize)
        ensures
            n == Self::width(),
            n >= 1,
    ;

    /// Appends the text of the value to `out`.
    fn encode(&self, out: &mut Vec<char>)
        ensures
            final(out)@ == old(out)@ + Self::encoded(self@),
    ;

    /// Decodes a text.
    fn decode(s: &[char]) -> (r: Result<Self, ParseError>)
        ensures
            agrees(r, Self::decoded(s@)),
    ;
}


/// What an engine says: a response, a failure, or a line of analysis.
#[derive(Debug, Clone)]
pub enum Answer {
    Failure(Failure),
    Info(Info),
    Response(Response),
}

/// What an answer holds, as mathematical values.
pub enum AnswerView {
    Failure(FailureView),
    Info(InfoView),
    Response(ResponseView),
}

impl View for Answer {
    type V = AnswerView;

    open spec fn view(&self) -> AnswerView {
        match self {
            Answer::Failure(f) => AnswerView::Failure(f@),
            Answer::Info(i) => AnswerView::Info(i@),
            Answer::Response(r) => AnswerView::Response(r@),
        }
    }
}

impl Answer {
    /// The answer that a text stands for: the first of response, analysis
    /// and failure, in this order, that the text decodes to.
    pub open spec fn decoded(s: Seq<char>) -> Result<AnswerView, ParseError> {
        if let Ok(r) = Response::decoded(s) {
            Ok(AnswerView::Response(r))
        } else if let Ok(i) = Info::decoded(s) {
            Ok(AnswerView::Info(i))
        } else if let Ok(f) = Failure::decoded(s) {
            Ok(AnswerView::Failure(f))
        } else {
            Err(ParseError::WrongAnswerFormat)
        }
    }

    /// Decodes what an engine said.
    pub fn parse_answer(answer: &str) -> (r: Result<Answer, ParseError>)
        ensures
            agrees(r, Self::decoded(answer@)),
    {
        let chars = crate::text::chars_of(answer);
        if let Ok(response) = Response::from_chars(chars.as_slice()) {
            Ok(Answer::Response(response))
        } else if let Ok(info) = Info::from_chars(chars.as_slice()) {
            Ok(Answer::Info(info))
        } else if let Ok(failure) = Failure::from_chars(chars.as_slice()) {
            Ok(Answer::Failure(failure))
        } else {
            Err(ParseError::WrongAnswerFormat)
        }
    }

    /// Whether the answer is a response.
    pub fn is_response(&self) -> (r: bool)
        ensures
            r == (self is Response),
    {
        match self {
            Answer::Response(_) => true,
            _ => false,
        }
    }

    /// What is held, where the answer is a response; the answer itself otherwise.
    pub fn to_response(self) -> (r: Result<Response, Self>)
        ensures
            r == (match self {
                Answer::Response(v) => Ok::<Response, Answer>(v),
                other => Err::<Response, Answer>(other),
            }),
    {
        match self {
            Answer::Response(v) => Ok(v),
            _ => Err(self),
        }
    }

    /// Whether the answer is a failure.
    pub fn is_failure(&self) -> (r: bool)
        ensures
            r == (self is Failure),
    {
        match self {
            Answer::Failure(_) => true,
            _ => false,
        }
    }

    /// What is held, where the answer is a failure; the answer itself otherwise.
    pub fn to_failure(self) -> (r: Result<Failure, Self>)
        ensures
            r == (match self {
                Answer::Failure(v) => Ok::<Failure, Answer>(v),
                other => Err::<Failure, Answer>(other),
            }),
    {
        match self {
            Answer::Failure(v) => Ok(v),
            _ => Err(self),
        }
    }

    /// Whether the answer is an analysis.
    pub fn is_info(&self) -> (r: bool)
        ensures
            r == (self is Info),
    {
        match self {
            Answer::Info(_) => true,
            _ => false,
        }
    }

    /// What is held, where the answer is an analysis; the answer itself otherwise.
    pub fn to_info(self) -> (r: Result<Info, Self>)
        ensures
            r == (match self {
                Answer::Info(v) => Ok::<Info, Answer>(v),
                other => Err::<Info, Answer>(other),
            }),
    {
        match self {
            Answer::Info(v) => Ok(v),
            _ => Err(self),
        }
    }
}

} // verus!
