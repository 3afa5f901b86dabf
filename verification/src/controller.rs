//! What a controller decides between the engine and its caller.

use crate::model::{Answer, AnswerView, Info, InfoView, ParseError};
use vstd::prelude::*;

verus! {

/// What the line of analysis that is kept says.
///
/// An empty line says that there is no analysis yet. Any other line is
/// decoded as an answer, and must be an analysis.
pub open spec fn info_of(line: Seq<char>) -> Result<Option<InfoView>, ParseError> {
    if line.len() == 0 {
        Ok(None)
    } else {
        match Answer::decoded(line) {
            Ok(AnswerView::Info(info)) => Ok(Some(info)),
            Ok(_) => Err(ParseError::WrongAnswerFormat),
            Err(e) => Err(e),
        }
    }
}

/// Decodes the line of analysis that is kept.
pub fn decode_info(line: &str) -> (r: Result<Option<Info>, ParseError>)
    ensures
        match r {
            Ok(Some(info)) => info_of(line@) == Ok::<Option<InfoView>, ParseError>(Some(info@)),
            Ok(None) => info_of(line@) == Ok::<Option<InfoView>, ParseError>(None),
            Err(e) => info_of(line@) == Err::<Option<InfoView>, ParseError>(e),
        },
{
    if line.is_empty() {
        return Ok(None);
    }
    match Answer::parse_answer(line) {
        Ok(Answer::Info(info)) => Ok(Some(info)),
        Ok(_) => Err(ParseError::WrongAnswerFormat),
        Err(e) => Err(e),
    }
}

} // verus!
