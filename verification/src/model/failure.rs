//! Failures: what an engine answers where a command does not succeed.

use crate::model::{agrees, ParseError};
use crate::number::{numeral, parse_unsigned, push_numeral, unsigned};
use crate::text::{
    chars_of, position, position_of, push_str, string_of, trim_end, trimmed_len,
};
use vstd::prelude::*;
use vstd::slice::slice_subrange;

verus! {

/// A failure: an optional number, that of the command it answers, and a
/// message.
#[derive(Debug, Clone)]
pub struct Failure {
    id: Option<u32>,
    message: String,
}

/// What a failure holds, as mathematical values.
pub struct FailureView {
    pub id: Option<u32>,
    pub message: Seq<char>,
}

impl View for Failure {
    type V = FailureView;

    closed spec fn view(&self) -> FailureView {
        FailureView { id: self.id, message: self.message@ }
    }
}

impl Failure {
    /// The failure without a number that says `message`.
    pub fn new(message: String) -> (r: Self)
        ensures
            r@ == (FailureView { id: None, message: message@ }),
    {
        Failure { id: None, message }
    }

    /// The failure with the number `id` that says `message`.
    pub fn new_with_id(id: u32, message: String) -> (r: Self)
        ensures
            r@ == (FailureView { id: Some(id), message: message@ }),
    {
        Failure { id: Some(id), message }
    }

    /// The number of the failure.
    pub fn id(&self) -> (r: &Option<u32>)
        ensures
            *r == self@.id,
    {
        &self.id
    }

    /// The number of the failure, to be changed in place.
    pub fn id_mut(&mut self) -> (r: &mut Option<u32>)
        ensures
            *r == old(self)@.id,
            final(self)@ == (FailureView { id: *final(r), ..old(self)@ }),
    {
        &mut self.id
    }

    /// The message of the failure.
    pub fn message(&self) -> (r: &String)
        ensures
            r@ == self@.message,
    {
        &self.message
    }

    /// The message of the failure, to be changed in place.
    pub fn message_mut(&mut self) -> (r: &mut String)
        ensures
            r@ == old(self)@.message,
            final(self)@ == (FailureView { message: final(r)@, ..old(self)@ }),
    {
        &mut self.message
    }

    /// The text of a failure: a question mark; the number, where there is
    /// one; a space; the message; an empty line.
    pub open spec fn encoded(f: FailureView) -> Seq<char> {
        seq!['?'] + (match f.id {
            Some(id) => numeral(id as nat),
            None => Seq::empty(),
        }) + seq![' '] + f.message + seq!['\n', '\n']
    }

    /// The failure that a text stands for.
    ///
    /// The text starts with a question mark. What follows up to the first
    /// space is the number, where it is an unsigned integer. What follows
    /// the first space, without the whitespace at its end, is the message;
    /// a text without a space is no failure.
    pub open spec fn decoded(s: Seq<char>) -> Result<FailureView, ParseError> {
        let body = s.drop_first();
        let at = position(body, ' ');
        let id = match unsigned(body.take(at), u32::MAX as nat) {
            Some(n) => Some(n as u32),
            None => None,
        };
        if s.len() == 0 || s[0] != '?' || at == body.len() {
            Err(ParseError::WrongFailureFormat)
        } else {
            Ok(FailureView { id, message: trim_end(body.skip(at + 1)) })
        }
    }

    /// Appends the text of the failure to `out`.
    pub fn write(&self, out: &mut Vec<char>)
        ensures
            final(out)@ == old(out)@ + Self::encoded(self@),
    {
        let ghost head = match self@.id {
            Some(id) => numeral(id as nat),
            None => Seq::empty(),
        };
        out.push('?');
        if let Some(id) = self.id {
            push_numeral(out, id as u64);
        }
        assert(out@ == old(out)@ + (seq!['?'] + head));
        out.push(' ');
        push_str(out, self.message.as_str());
        out.push('\n');
        out.push('\n');
        assert(out@ == old(out)@ + (seq!['?'] + head + seq![' '] + self@.message + seq![
            '\n',
            '\n',
        ]));
    }

    /// The text of the failure.
    pub fn to_string(&self) -> (r: String)
        ensures
            r@ == Self::encoded(self@),
    {
        let mut out: Vec<char> = Vec::new();
        self.write(&mut out);
        string_of(out.as_slice())
    }

    /// Decodes a text.
    pub fn from_chars(s: &[char]) -> (r: Result<Failure, ParseError>)
        ensures
            agrees(r, Self::decoded(s@)),
    {
        if s.len() == 0 || s[0] != '?' {
            return Err(ParseError::WrongFailureFormat);
        }
        let body = slice_subrange(s, 1, s.len());
        assert(body@ == s@.drop_first());
        let at = position_of(body, ' ');
        if at == body.len() {
            return Err(ParseError::WrongFailureFormat);
        }
        let id = match parse_unsigned(slice_subrange(body, 0, at), u32::MAX as u64) {
            Some(n) => Some(n as u32),
            None => None,
        };
        let rest = slice_subrange(body, at + 1, body.len());
        assert(rest@ == body@.skip(at + 1));
        let message = slice_subrange(rest, 0, trimmed_len(rest));
        Ok(Failure { id, message: string_of(message) })
    }

    /// Decodes a text.
    pub fn from_str(s: &str) -> (r: Result<Failure, ParseError>)
        ensures
            agrees(r, Self::decoded(s@)),
    {
        let chars = chars_of(s);
        Self::from_chars(chars.as_slice())
    }
}


impl core::str::FromStr for Failure {
    type Err = ParseError;

    /// Decodes a text.
    fn from_str(s: &str) -> (r: Result<Self, ParseError>)
        ensures
            agrees(r, Failure::decoded(s@)),
    {
        Failure::from_str(s)
    }
}

} // verus!
