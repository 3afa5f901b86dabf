//! The simple values: booleans, colours, vertices, moves, scores, and the
//! sequences made of them.

use crate::model::{agrees, Entity, ParseError};
use crate::number::{
    is_float, is_float_text, is_nonnegative_float, is_nonnegative_float_text, numeral,
    parse_unsigned, push_numeral, unsigned, Float,
};
use crate::text::{
    chars_of, count, count_of, group_words, groups, join, position, position_of, push_str,
    same_text, split_words, string_of, texts, to_upper, upper, words, Spacing,
};
use vstd::prelude::*;
use vstd::slice::slice_subrange;
use vstd::std_specs::convert::FromSpecImpl;
use vstd::std_specs::iter::IteratorSpec;

verus! {

/// `char::from_u32` gives the character with the code `i`, where `i` is a
/// Unicode scalar value, and nothing else.
pub assume_specification[ char::from_u32 ](i: u32) -> (r: Option<char>)
    ensures
        r == (if i <= 0xD7FF || 0xE000 <= i <= 0x10FFFF {
            Some(i as char)
        } else {
            None::<char>
        }),
;

/// A truth value.
#[derive(Debug, Clone, Copy, PartialEq, Eq, Structural)]
pub enum Boolean {
    True,
    False,
}

impl View for Boolean {
    type V = Boolean;

    open spec fn view(&self) -> Boolean {
        *self
    }
}

impl Boolean {
    /// The text of a truth value.
    pub open spec fn encoded(b: Boolean) -> Seq<char> {
        match b {
            Boolean::True => "true"@,
            Boolean::False => "false"@,
        }
    }

    /// The truth value that a text names, in any mix of upper and lower
    /// case.
    pub open spec fn decoded(s: Seq<char>) -> Result<Boolean, ParseError> {
        if upper(s) == "TRUE"@ {
            Ok(Boolean::True)
        } else if upper(s) == "FALSE"@ {
            Ok(Boolean::False)
        } else {
            Err(ParseError::WrongBool)
        }
    }

    /// Appends the text of the value to `out`.
    pub fn write(&self, out: &mut Vec<char>)
        ensures
            final(out)@ == old(out)@ + Self::encoded(*self),
    {
        match self {
            Boolean::True => push_str(out, "true"),
            Boolean::False => push_str(out, "false"),
        }
    }

    /// The text of the value.
    pub fn to_string(&self) -> (r: String)
        ensures
            r@ == Self::encoded(*self),
    {
        let mut out: Vec<char> = Vec::new();
        self.write(&mut out);
        string_of(out.as_slice())
    }

    /// Decodes a text.
    pub fn from_chars(s: &[char]) -> (r: Result<Boolean, ParseError>)
        ensures
            r == Self::decoded(s@),
    {
        let u = to_upper(s);
        if same_text(u.as_slice(), "TRUE") {
            Ok(Boolean::True)
        } else if same_text(u.as_slice(), "FALSE") {
            Ok(Boolean::False)
        } else {
            Err(ParseError::WrongBool)
        }
    }

    /// Decodes a text.
    pub fn from_str(s: &str) -> (r: Result<Boolean, ParseError>)
        ensures
            r == Self::decoded(s@),
    {
        let chars = chars_of(s);
        Self::from_chars(chars.as_slice())
    }
}

/// A point of the board, or one of the two moves that name no point.
///
/// `Coord` holds the column and then the row, both counted from one.
#[derive(Debug, Clone, Copy, PartialEq, Eq, Hash, Structural)]
pub enum Vertex {
    Coord(u8, u8),
    Pass,
    Resign,
}

impl View for Vertex {
    type V = Vertex;

    open spec fn view(&self) -> Vertex {
        *self
    }
}

/// The letter of a column. The letters run from `A` on and leave out `I`,
/// which is too easily taken for a one.
pub open spec fn column_letter(column: u8) -> char {
    if column > 8 {
        (65 + column) as char
    } else {
        (64 + column) as char
    }
}

/// The column of a letter from `A` to `T` other than `I`, which no column
/// has.
pub open spec fn letter_column(letter: char) -> u8 {
    let n = (letter as u32 - 64) as u8;
    if n > 9 {
        (n - 1) as u8
    } else {
        n
    }
}

impl Vertex {
    /// Whether the vertex is a move without a point, or a point in one of
    /// the nineteen columns that have a letter.
    pub open spec fn wf(&self) -> bool {
        match *self {
            Vertex::Coord(column, _) => 1 <= column <= 19,
            _ => true,
        }
    }

    /// Whether the vertex is a move without a point, or a point in one of
    /// the nineteen columns that have a letter.
    pub fn is_valid(&self) -> (b: bool)
        ensures
            b == self.wf(),
    {
        match *self {
            Vertex::Coord(column, _) => 1 <= column && column <= 19,
            _ => true,
        }
    }

    /// The column and row of a point.
    pub fn to_tupple(&self) -> (r: Option<(u8, u8)>)
        ensures
            r == match *self {
                Vertex::Coord(x, y) => Some((x, y)),
                _ => None::<(u8, u8)>,
            },
    {
        match self {
            Vertex::Coord(x, y) => Some((*x, *y)),
            Vertex::Pass => None,
            Vertex::Resign => None,
        }
    }

    /// Appends the text of the vertex to `out`.
    pub fn write(&self, out: &mut Vec<char>)
        ensures
            final(out)@ == old(out)@ + Self::encoded(*self),
    {
        match *self {
            Vertex::Coord(column, row) => {
                let code: u32 = if column > 8 {
                    65 + column as u32
                } else {
                    64 + column as u32
                };
                let letter = match char::from_u32(code) {
                    Some(c) => c,
                    None => '@',
                };
                out.push(letter);
                assert(out@ == old(out)@ + seq![column_letter(column)]);
                push_numeral(out, row as u64);
                assert(out@ == old(out)@ + (seq![column_letter(column)] + numeral(row as nat)));
            },
            Vertex::Pass => push_str(out, "PASS"),
            Vertex::Resign => push_str(out, "RESIGN"),
        }
    }

    /// The text of the vertex.
    pub fn to_string(&self) -> (r: String)
        ensures
            r@ == Self::encoded(*self),
    {
        let mut out: Vec<char> = Vec::new();
        self.write(&mut out);
        string_of(out.as_slice())
    }

    /// Whether `other`, in upper case, is the text of the value.
    pub fn eq_str(&self, other: &str) -> (b: bool)
        ensures
            b == (Self::encoded(*self) == upper(other@)),
    {
        let mut out: Vec<char> = Vec::new();
        self.write(&mut out);
        let chars = chars_of(other);
        let folded = to_upper(chars.as_slice());
        crate::text::same_chars(out.as_slice(), folded.as_slice())
    }

    /// Decodes a text.
    pub fn from_chars(s: &[char]) -> (r: Result<Vertex, ParseError>)
        ensures
            r == Self::decoded(s@),
    {
        if s.len() == 0 {
            return Err(ParseError::EmptyString);
        }
        let u = to_upper(s);
        if same_text(u.as_slice(), "PASS") {
            return Ok(Vertex::Pass);
        }
        if same_text(u.as_slice(), "RESIGN") {
            return Ok(Vertex::Resign);
        }
        let first = u[0];
        if !('A' <= first && first <= 'T') || first == 'I' {
            return Err(ParseError::WrongCoordinates);
        }
        let n: u8 = (first as u32 - 64) as u8;
        let column: u8 = if n > 9 {
            n - 1
        } else {
            n
        };
        assert(u@.subrange(1, u.len() as int) == u@.drop_first());
        match parse_unsigned(slice_subrange(u.as_slice(), 1, u.len()), 255) {
            Some(row) => Ok(Vertex::Coord(column, row as u8)),
            None => Err(ParseError::WrongCoordinates),
        }
    }

    /// Decodes a text.
    pub fn from_str(s: &str) -> (r: Result<Vertex, ParseError>)
        ensures
            r == Self::decoded(s@),
    {
        let chars = chars_of(s);
        Self::from_chars(chars.as_slice())
    }
}

impl Entity for Vertex {
    /// The letter of the column and then the row of a point; the name of
    /// the move otherwise.
    open spec fn encoded(v: Vertex) -> Seq<char> {
        match v {
            Vertex::Coord(column, row) => seq![column_letter(column)] + numeral(row as nat),
            Vertex::Pass => "PASS"@,
            Vertex::Resign => "RESIGN"@,
        }
    }

    /// `pass` and `resign` in any mix of case name the two moves; a letter
    /// from `A` to `T` other than `I`, in either case, and a row of at most
    /// 255 name a point.
    open spec fn decoded(s: Seq<char>) -> Result<Vertex, ParseError> {
        let u = upper(s);
        if s.len() == 0 {
            Err(ParseError::EmptyString)
        } else if u == "PASS"@ {
            Ok(Vertex::Pass)
        } else if u == "RESIGN"@ {
            Ok(Vertex::Resign)
        } else if 'A' <= u[0] <= 'T' && u[0] != 'I' {
            match unsigned(u.drop_first(), 255) {
                Some(row) => Ok(Vertex::Coord(letter_column(u[0]), row as u8)),
                None => Err(ParseError::WrongCoordinates),
            }
        } else {
            Err(ParseError::WrongCoordinates)
        }
    }

    /// One word.
    open spec fn width() -> nat {
        1
    }

    fn word_count() -> (n: usize) {
        1
    }

    fn encode(&self, out: &mut Vec<char>) {
        self.write(out)
    }

    fn decode(s: &[char]) -> (r: Result<Self, ParseError>) {
        Self::from_chars(s)
    }
}


/// One of the two players.
#[derive(Debug, Clone, Copy, PartialEq, Eq, Hash, Structural)]
pub enum Color {
    Black,
    White,
}

impl View for Color {
    type V = Color;

    open spec fn view(&self) -> Color {
        *self
    }
}

impl Color {
    /// Appends the letter of the colour to `out`.
    pub fn write(&self, out: &mut Vec<char>)
        ensures
            final(out)@ == old(out)@ + Self::encoded(*self),
    {
        match self {
            Color::Black => push_str(out, "B"),
            Color::White => push_str(out, "W"),
        }
    }

    /// The letter of the colour.
    pub fn to_string(&self) -> (r: String)
        ensures
            r@ == Self::encoded(*self),
    {
        let mut out: Vec<char> = Vec::new();
        self.write(&mut out);
        string_of(out.as_slice())
    }

    /// Whether `other`, in upper case, is the text of the value.
    pub fn eq_str(&self, other: &str) -> (b: bool)
        ensures
            b == (Self::encoded(*self) == upper(other@)),
    {
        let mut out: Vec<char> = Vec::new();
        self.write(&mut out);
        let chars = chars_of(other);
        let folded = to_upper(chars.as_slice());
        crate::text::same_chars(out.as_slice(), folded.as_slice())
    }

    /// Decodes a text.
    pub fn from_chars(s: &[char]) -> (r: Result<Color, ParseError>)
        ensures
            r == Self::decoded(s@),
    {
        if s.len() == 0 {
            return Err(ParseError::EmptyString);
        }
        let u = to_upper(s);
        if same_text(u.as_slice(), "B") || same_text(u.as_slice(), "BLACK") {
            Ok(Color::Black)
        } else if same_text(u.as_slice(), "W") || same_text(u.as_slice(), "WHITE") {
            Ok(Color::White)
        } else {
            Err(ParseError::WrongColor)
        }
    }

    /// Decodes a text.
    pub fn from_str(s: &str) -> (r: Result<Color, ParseError>)
        ensures
            r == Self::decoded(s@),
    {
        let chars = chars_of(s);
        Self::from_chars(chars.as_slice())
    }
}

impl Entity for Color {
    /// One letter: `B` or `W`.
    open spec fn encoded(c: Color) -> Seq<char> {
        match c {
            Color::Black => "B"@,
            Color::White => "W"@,
        }
    }

    /// The letter or the full name of a colour, in any mix of case.
    open spec fn decoded(s: Seq<char>) -> Result<Color, ParseError> {
        let u = upper(s);
        if s.len() == 0 {
            Err(ParseError::EmptyString)
        } else if u == "B"@ || u == "BLACK"@ {
            Ok(Color::Black)
        } else if u == "W"@ || u == "WHITE"@ {
            Ok(Color::White)
        } else {
            Err(ParseError::WrongColor)
        }
    }

    /// One word.
    open spec fn width() -> nat {
        1
    }

    fn word_count() -> (n: usize) {
        1
    }

    fn encode(&self, out: &mut Vec<char>) {
        self.write(out)
    }

    fn decode(s: &[char]) -> (r: Result<Self, ParseError>) {
        Self::from_chars(s)
    }
}

/// A stone of one colour played at a vertex.
#[derive(Debug, Clone, Copy, PartialEq, Eq, Hash, Structural)]
pub struct Move {
    pub color: Color,
    pub vertex: Vertex,
}

impl View for Move {
    type V = Move;

    open spec fn view(&self) -> Move {
        *self
    }
}

impl Move {
    /// Whether the vertex of the move is well formed.
    pub open spec fn wf(&self) -> bool {
        self.vertex.wf()
    }

    /// Whether the vertex of the move is well formed.
    pub fn is_valid(&self) -> (b: bool)
        ensures
            b == self.wf(),
    {
        self.vertex.is_valid()
    }

    /// Appends the text of the move to `out`.
    pub fn write(&self, out: &mut Vec<char>)
        ensures
            final(out)@ == old(out)@ + Self::encoded(*self),
    {
        self.color.write(out);
        out.push(' ');
        self.vertex.write(out);
        assert(out@ == old(out)@ + (Color::encoded(self.color) + seq![' '] + Vertex::encoded(
            self.vertex,
        )));
    }

    /// The text of the move.
    pub fn to_string(&self) -> (r: String)
        ensures
            r@ == Self::encoded(*self),
    {
        let mut out: Vec<char> = Vec::new();
        self.write(&mut out);
        string_of(out.as_slice())
    }

    /// Whether `other`, in upper case, is the text of the value.
    pub fn eq_str(&self, other: &str) -> (b: bool)
        ensures
            b == (Self::encoded(*self) == upper(other@)),
    {
        let mut out: Vec<char> = Vec::new();
        self.write(&mut out);
        let chars = chars_of(other);
        let folded = to_upper(chars.as_slice());
        crate::text::same_chars(out.as_slice(), folded.as_slice())
    }

    /// Decodes a text.
    pub fn from_chars(s: &[char]) -> (r: Result<Move, ParseError>)
        ensures
            r == Self::decoded(s@),
    {
        if s.len() == 0 {
            return Err(ParseError::EmptyString);
        }
        let u = to_upper(s);
        let parts = split_words(u.as_slice(), Spacing::Ascii);
        if parts.len() == 0 {
            return Err(ParseError::EmptyString);
        }
        assert(texts(parts@)[0] == parts@[0]@);
        let color = match Color::from_chars(parts[0].as_slice()) {
            Ok(c) => c,
            Err(e) => { return Err(e); },
        };
        if parts.len() < 2 {
            return Err(ParseError::EmptyString);
        }
        assert(texts(parts@)[1] == parts@[1]@);
        match Vertex::from_chars(parts[1].as_slice()) {
            Ok(vertex) => Ok(Move { color, vertex }),
            Err(e) => Err(e),
        }
    }

    /// Decodes a text.
    pub fn from_str(s: &str) -> (r: Result<Move, ParseError>)
        ensures
            r == Self::decoded(s@),
    {
        let chars = chars_of(s);
        Self::from_chars(chars.as_slice())
    }
}

impl Entity for Move {
    /// The colour, one space, the vertex.
    open spec fn encoded(m: Move) -> Seq<char> {
        Color::encoded(m.color) + seq![' '] + Vertex::encoded(m.vertex)
    }

    /// The first word names the colour and the second the vertex; further
    /// words are not read. A word that is missing counts as empty.
    open spec fn decoded(s: Seq<char>) -> Result<Move, ParseError> {
        let parts = words(upper(s), Spacing::Ascii);
        if s.len() == 0 || parts.len() == 0 {
            Err(ParseError::EmptyString)
        } else {
            match Color::decoded(parts[0]) {
                Err(e) => Err(e),
                Ok(color) => if parts.len() < 2 {
                    Err(ParseError::EmptyString)
                } else {
                    match Vertex::decoded(parts[1]) {
                        Err(e) => Err(e),
                        Ok(vertex) => Ok(Move { color, vertex }),
                    }
                },
            }
        }
    }

    /// A move takes two words: its colour and its vertex.
    open spec fn width() -> nat {
        2
    }

    fn word_count() -> (n: usize) {
        2
    }

    fn encode(&self, out: &mut Vec<char>) {
        self.write(out)
    }

    fn decode(s: &[char]) -> (r: Result<Self, ParseError>) {
        Self::from_chars(s)
    }
}

/// A vertex, a colour or a move.
#[derive(Debug, Clone, Copy, PartialEq, Eq, Hash, Structural)]
pub enum SimpleEntity {
    Vertex(Vertex),
    Color(Color),
    Move(Move),
}

impl View for SimpleEntity {
    type V = SimpleEntity;

    open spec fn view(&self) -> SimpleEntity {
        *self
    }
}

impl SimpleEntity {
    /// Whether the vertex held, if any, is well formed.
    pub open spec fn wf(&self) -> bool {
        match *self {
            SimpleEntity::Vertex(v) => v.wf(),
            SimpleEntity::Color(_) => true,
            SimpleEntity::Move(m) => m.wf(),
        }
    }

    /// Whether the vertex held, if any, is well formed.
    pub fn is_valid(&self) -> (b: bool)
        ensures
            b == self.wf(),
    {
        match self {
            SimpleEntity::Vertex(v) => v.is_valid(),
            SimpleEntity::Color(_) => true,
            SimpleEntity::Move(m) => m.is_valid(),
        }
    }

    /// The text of the value held.
    pub open spec fn encoded(e: SimpleEntity) -> Seq<char> {
        match e {
            SimpleEntity::Vertex(v) => Vertex::encoded(v),
            SimpleEntity::Color(c) => Color::encoded(c),
            SimpleEntity::Move(m) => Move::encoded(m),
        }
    }

    /// The first of vertex, colour and move, in this order, that the text
    /// decodes to.
    pub open spec fn decoded(s: Seq<char>) -> Result<SimpleEntity, ParseError> {
        if let Ok(v) = Vertex::decoded(s) {
            Ok(SimpleEntity::Vertex(v))
        } else if let Ok(c) = Color::decoded(s) {
            Ok(SimpleEntity::Color(c))
        } else if let Ok(m) = Move::decoded(s) {
            Ok(SimpleEntity::Move(m))
        } else {
            Err(ParseError::WrongSimpleEntity)
        }
    }

    /// The vertex, where the value is one.
    pub fn as_vertex(self) -> (r: Option<Vertex>)
        ensures
            r == match self {
                SimpleEntity::Vertex(v) => Some(v),
                _ => None::<Vertex>,
            },
    {
        match self {
            SimpleEntity::Vertex(v) => Some(v),
            _ => None,
        }
    }

    /// The colour, where the value is one.
    pub fn as_color(self) -> (r: Option<Color>)
        ensures
            r == match self {
                SimpleEntity::Color(c) => Some(c),
                _ => None::<Color>,
            },
    {
        match self {
            SimpleEntity::Color(c) => Some(c),
            _ => None,
        }
    }

    /// The move, where the value is one.
    pub fn as_move(self) -> (r: Option<Move>)
        ensures
            r == match self {
                SimpleEntity::Move(m) => Some(m),
                _ => None::<Move>,
            },
    {
        match self {
            SimpleEntity::Move(m) => Some(m),
            _ => None,
        }
    }

    /// Appends the text of the value to `out`.
    pub fn write(&self, out: &mut Vec<char>)
        ensures
            final(out)@ == old(out)@ + Self::encoded(*self),
    {
        match self {
            SimpleEntity::Vertex(v) => v.write(out),
            SimpleEntity::Color(c) => c.write(out),
            SimpleEntity::Move(m) => m.write(out),
        }
    }

    /// The text of the value.
    pub fn to_string(&self) -> (r: String)
        ensures
            r@ == Self::encoded(*self),
    {
        let mut out: Vec<char> = Vec::new();
        self.write(&mut out);
        string_of(out.as_slice())
    }

    /// Decodes a text.
    pub fn from_chars(s: &[char]) -> (r: Result<SimpleEntity, ParseError>)
        ensures
            r == Self::decoded(s@),
    {
        if let Ok(v) = Vertex::from_chars(s) {
            Ok(SimpleEntity::Vertex(v))
        } else if let Ok(c) = Color::from_chars(s) {
            Ok(SimpleEntity::Color(c))
        } else if let Ok(m) = Move::from_chars(s) {
            Ok(SimpleEntity::Move(m))
        } else {
            Err(ParseError::WrongSimpleEntity)
        }
    }

    /// Decodes a text.
    pub fn from_str(s: &str) -> (r: Result<SimpleEntity, ParseError>)
        ensures
            r == Self::decoded(s@),
    {
        let chars = chars_of(s);
        Self::from_chars(chars.as_slice())
    }
}


impl Entity for SimpleEntity {
    open spec fn encoded(e: SimpleEntity) -> Seq<char> {
        SimpleEntity::encoded(e)
    }

    open spec fn decoded(s: Seq<char>) -> Result<SimpleEntity, ParseError> {
        SimpleEntity::decoded(s)
    }

    /// One word.
    open spec fn width() -> nat {
        1
    }

    fn word_count() -> (n: usize) {
        1
    }

    fn encode(&self, out: &mut Vec<char>) {
        self.write(out)
    }

    fn decode(s: &[char]) -> (r: Result<Self, ParseError>) {
        Self::from_chars(s)
    }
}

impl Entity for String {
    /// A string is its own text.
    open spec fn encoded(v: Seq<char>) -> Seq<char> {
        v
    }

    /// Every text is a string.
    open spec fn decoded(s: Seq<char>) -> Result<Seq<char>, ParseError> {
        Ok(s)
    }

    /// One word.
    open spec fn width() -> nat {
        1
    }

    fn word_count() -> (n: usize) {
        1
    }

    fn encode(&self, out: &mut Vec<char>) {
        push_str(out, self.as_str())
    }

    fn decode(s: &[char]) -> (r: Result<Self, ParseError>) {
        Ok(string_of(s))
    }
}

impl Entity for Float {
    /// A number is written by its literal.
    open spec fn encoded(v: Seq<char>) -> Seq<char> {
        v
    }

    /// A floating-point literal stands for itself; any other text is a
    /// wrong argument.
    open spec fn decoded(s: Seq<char>) -> Result<Seq<char>, ParseError> {
        if is_float(s) {
            Ok(s)
        } else {
            Err(ParseError::WrongArgs)
        }
    }

    /// One word.
    open spec fn width() -> nat {
        1
    }

    fn word_count() -> (n: usize) {
        1
    }

    fn encode(&self, out: &mut Vec<char>) {
        self.write(out)
    }

    fn decode(s: &[char]) -> (r: Result<Self, ParseError>) {
        match Float::from_chars(s) {
            Some(f) => Ok(f),
            None => Err(ParseError::WrongArgs),
        }
    }
}

impl Entity for u64 {
    /// The decimal text of the number.
    open spec fn encoded(v: u64) -> Seq<char> {
        numeral(v as nat)
    }

    /// An unsigned integer of at most 64 bits; any other text is a wrong
    /// argument.
    open spec fn decoded(s: Seq<char>) -> Result<u64, ParseError> {
        match unsigned(s, u64::MAX as nat) {
            Some(n) => Ok(n as u64),
            None => Err(ParseError::WrongArgs),
        }
    }

    /// One word.
    open spec fn width() -> nat {
        1
    }

    fn word_count() -> (n: usize) {
        1
    }

    fn encode(&self, out: &mut Vec<char>) {
        push_numeral(out, *self)
    }

    fn decode(s: &[char]) -> (r: Result<Self, ParseError>) {
        match parse_unsigned(s, u64::MAX) {
            Some(n) => Ok(n),
            None => Err(ParseError::WrongArgs),
        }
    }
}

/// The result of a match, as text.
///
/// A score is the single digit `0` for a draw, or the letter of the winner,
/// a plus sign and the margin, a number that is not negative.
#[derive(Debug, Clone)]
pub struct Score(String);

impl View for Score {
    type V = Seq<char>;

    closed spec fn view(&self) -> Seq<char> {
        self.0@
    }
}

impl Score {
    /// Whether the text held is a score.
    pub open spec fn wf(&self) -> bool {
        Self::decoded(self@).is_ok()
    }

    /// A text decodes to itself, where it is a score.
    ///
    /// The text is read as the part before the first plus sign and the part
    /// after it. The first must be `W` or `B`, in upper case; the second
    /// must be there, be a number, and not be negative; there is no second
    /// plus sign.
    pub open spec fn decoded(s: Seq<char>) -> Result<Seq<char>, ParseError> {
        let at = position(s, '+');
        let winner = s.take(at);
        let margin = s.skip(at + 1);
        if s.len() == 0 {
            Err(ParseError::EmptyString)
        } else if s == "0"@ {
            Ok(s)
        } else if count(s, '+') > 1 {
            Err(ParseError::WrongScore)
        } else if winner != "W"@ && winner != "B"@ {
            Err(ParseError::WrongColor)
        } else if at == s.len() {
            Err(ParseError::WrongScore)
        } else if !is_float(margin) {
            Err(ParseError::WrongArgs)
        } else if !is_nonnegative_float(margin) {
            Err(ParseError::WrongScore)
        } else {
            Ok(s)
        }
    }

    /// The text of a score: itself.
    pub open spec fn encoded(v: Seq<char>) -> Seq<char> {
        v
    }

    /// Appends the text of the score to `out`.
    pub fn write(&self, out: &mut Vec<char>)
        ensures
            final(out)@ == old(out)@ + Self::encoded(self@),
    {
        push_str(out, self.0.as_str());
    }

    /// The text of the score.
    pub fn to_string(&self) -> (r: String)
        ensures
            r@ == Self::encoded(self@),
    {
        self.0.clone()
    }

    /// Decodes a text.
    pub fn from_chars(s: &[char]) -> (r: Result<Score, ParseError>)
        ensures
            agrees(r, Self::decoded(s@)),
            r matches Ok(score) ==> score.wf(),
    {
        if s.len() == 0 {
            return Err(ParseError::EmptyString);
        }
        if same_text(s, "0") {
            return Ok(Score(string_of(s)));
        }
        if count_of(s, '+') > 1 {
            return Err(ParseError::WrongScore);
        }
        let at = position_of(s, '+');
        let winner = slice_subrange(s, 0, at);
        if !same_text(winner, "W") && !same_text(winner, "B") {
            return Err(ParseError::WrongColor);
        }
        if at == s.len() {
            return Err(ParseError::WrongScore);
        }
        let margin = slice_subrange(s, at + 1, s.len());
        assert(margin@ == s@.skip(at + 1));
        if !is_float_text(margin) {
            return Err(ParseError::WrongArgs);
        }
        if !is_nonnegative_float_text(margin) {
            return Err(ParseError::WrongScore);
        }
        Ok(Score(string_of(s)))
    }

    /// Decodes a text.
    pub fn from_str(s: &str) -> (r: Result<Score, ParseError>)
        ensures
            agrees(r, Self::decoded(s@)),
            r matches Ok(score) ==> score.wf(),
    {
        let chars = chars_of(s);
        Self::from_chars(chars.as_slice())
    }

    /// Whether the text held is a score.
    pub fn is_valid(&self) -> (b: bool)
        ensures
            b == self.wf(),
    {
        let chars = chars_of(self.0.as_str());
        Self::from_chars(chars.as_slice()).is_ok()
    }
}

/// The views of a sequence of values.
pub open spec fn views<T: View>(items: Seq<T>) -> Seq<T::V> {
    Seq::new(items.len(), |i: int| items[i]@)
}

/// The texts of a sequence of values.
pub open spec fn encode_all<T: Entity>(items: Seq<T::V>) -> Seq<Seq<char>> {
    Seq::new(items.len(), |i: int| T::encoded(items[i]))
}

/// The values that a sequence of texts stands for, or the error of the
/// first text that stands for none.
pub open spec fn decode_all<T: Entity>(parts: Seq<Seq<char>>) -> Result<Seq<T::V>, ParseError>
    decreases parts.len(),
{
    if parts.len() == 0 {
        Ok(Seq::empty())
    } else {
        match decode_all::<T>(parts.drop_last()) {
            Err(e) => Err(e),
            Ok(items) => match T::decoded(parts.last()) {
                Err(e) => Err(e),
                Ok(v) => Ok(items.push(v)),
            },
        }
    }
}

/// Decodes every one of `parts`, and stops at the first that fails.
pub fn decode_each<T: Entity>(parts: &Vec<Vec<char>>) -> (r: Result<Vec<T>, ParseError>)
    ensures
        match r {
            Ok(items) => decode_all::<T>(texts(parts@)) == Ok::<Seq<T::V>, ParseError>(
                views(items@),
            ),
            Err(e) => decode_all::<T>(texts(parts@)) == Err::<Seq<T::V>, ParseError>(e),
        },
{
    assert(texts(parts@).subrange(0, parts.len() as int) == texts(parts@));
    decode_range::<T>(parts, 0, parts.len())
}

/// Decodes every one of `parts` from `from` up to `to`, and stops at the
/// first that fails.
pub fn decode_range<T: Entity>(parts: &Vec<Vec<char>>, from: usize, to: usize) -> (r: Result<
    Vec<T>,
    ParseError,
>)
    requires
        from <= to <= parts.len(),
    ensures
        match r {
            Ok(items) => decode_all::<T>(texts(parts@).subrange(from as int, to as int)) == Ok::<
                Seq<T::V>,
                ParseError,
            >(views(items@)),
            Err(e) => decode_all::<T>(texts(parts@).subrange(from as int, to as int)) == Err::<
                Seq<T::V>,
                ParseError,
            >(e),
        },
{
    let ghost all = texts(parts@).subrange(from as int, to as int);
    let mut items: Vec<T> = Vec::new();
    let mut i: usize = from;
    assert(all.take(0) == Seq::<Seq<char>>::empty());
    assert(views(items@) == Seq::<T::V>::empty());
    while i < to
        invariant
            from <= i <= to <= parts.len(),
            all == texts(parts@).subrange(from as int, to as int),
            decode_all::<T>(all.take(i - from)) == Ok::<Seq<T::V>, ParseError>(views(items@)),
        decreases to - i,
    {
        assert(all.take(i - from + 1).drop_last() == all.take(i - from));
        assert(all.take(i - from + 1).last() == parts@[i as int]@);
        match T::decode(parts[i].as_slice()) {
            Ok(item) => {
                assert(views(items@.push(item)) == views(items@).push(item@));
                items.push(item);
            },
            Err(e) => {
                proof {
                    lemma_decode_all_fails::<T>(all, i - from + 1);
                }
                return Err(e);
            },
        }
        i += 1;
    }
    assert(all.take(i - from) == all);
    Ok(items)
}

/// Where the first `k` texts do not all decode, neither do all of them,
/// and the error is the same.
pub proof fn lemma_decode_all_fails<T: Entity>(parts: Seq<Seq<char>>, k: int)
    requires
        0 <= k <= parts.len(),
        decode_all::<T>(parts.take(k)).is_err(),
    ensures
        decode_all::<T>(parts) == decode_all::<T>(parts.take(k)),
    decreases parts.len() - k,
{
    if k == parts.len() {
        assert(parts.take(k) == parts);
    } else {
        assert(parts.drop_last().take(k) == parts.take(k));
        lemma_decode_all_fails::<T>(parts.drop_last(), k);
    }
}

/// Appends the texts of `items` to `out`, with one space between each two
/// neighbours.
pub fn encode_each<T: Entity>(items: &Vec<T>, out: &mut Vec<char>)
    ensures
        final(out)@ == old(out)@ + join(encode_all::<T>(views(items@)), seq![' ']),
{
    let ghost all = encode_all::<T>(views(items@));
    let mut i: usize = 0;
    assert(all.take(0) == Seq::<Seq<char>>::empty());
    while i < items.len()
        invariant
            i <= items.len(),
            all == encode_all::<T>(views(items@)),
            out@ == old(out)@ + join(all.take(i as int), seq![' ']),
        decreases items.len() - i,
    {
        let ghost before = all.take(i as int);
        let ghost now = all.take(i + 1);
        assert(now.drop_last() == before);
        assert(now.last() == T::encoded(items@[i as int]@));
        if i > 0 {
            out.push(' ');
        }
        items[i].encode(out);
        proof {
            if i > 0 {
                assert(out@ == old(out)@ + (join(before, seq![' ']) + seq![' '] + now.last()));
            } else {
                assert(now.len() == 1);
                assert(join(before, seq![' ']) == Seq::<char>::empty());
                assert(out@ == old(out)@ + now.last());
            }
        }
        i += 1;
    }
    assert(all.take(i as int) == all);
}

/// A sequence of vertices, colours and moves, in the order of the
/// arguments that they are.
#[derive(Debug, Clone, Hash)]
pub struct Collection(Vec<SimpleEntity>);

impl View for Collection {
    type V = Seq<SimpleEntity>;

    closed spec fn view(&self) -> Seq<SimpleEntity> {
        self.0@
    }
}

impl Collection {
    /// Whether every vertex held is well formed.
    pub open spec fn wf(&self) -> bool {
        forall|i: int| 0 <= i < self@.len() ==> (#[trigger] self@[i]).wf()
    }

    /// An empty collection.
    pub fn new() -> (r: Self)
        ensures
            r@ == Seq::<SimpleEntity>::empty(),
    {
        Collection(Vec::new())
    }

    /// The collection of the items of `vec`, in their order.
    pub fn from_vec(vec: Vec<SimpleEntity>) -> (r: Self)
        ensures
            r@ == vec@,
    {
        Collection(vec)
    }

    /// Adds `elem` at the end.
    pub fn push(&mut self, elem: SimpleEntity)
        ensures
            final(self)@ == old(self)@.push(elem),
    {
        self.0.push(elem);
    }

    /// Takes out and returns the item at `index`; those behind it move up.
    pub fn remove(&mut self, index: usize) -> (r: SimpleEntity)
        requires
            index < old(self)@.len(),
        ensures
            r == old(self)@[index as int],
            final(self)@ == old(self)@.remove(index as int),
    {
        self.0.remove(index)
    }

    /// The items, as a vector.
    pub fn into_vec(self) -> (r: Vec<SimpleEntity>)
        ensures
            r@ == self@,
    {
        self.0
    }

    /// The items.
    pub fn inner(&self) -> (r: &Vec<SimpleEntity>)
        ensures
            r@ == self@,
    {
        &self.0
    }

    /// The items, to be changed in place.
    pub fn mut_inner(&mut self) -> (r: &mut Vec<SimpleEntity>)
        ensures
            r@ == old(self)@,
            final(self)@ == final(r)@,
    {
        &mut self.0
    }

    /// An iterator over the items, in their order.
    pub fn iter(&self) -> (r: core::slice::Iter<'_, SimpleEntity>)
        ensures
            IteratorSpec::remaining(&r).len() == self@.len(),
            forall|i: int|
                0 <= i < self@.len() ==> *(#[trigger] IteratorSpec::remaining(&r)[i]) == self@[i],
    {
        self.0.as_slice().iter()
    }

    /// The items as a slice, to go through them and change them in place.
    pub fn iter_mut(&mut self) -> (r: &mut [SimpleEntity])
        ensures
            r@ == old(self)@,
            final(self)@ == final(r)@,
    {
        self.0.as_mut_slice()
    }

    /// How many items there are.
    pub fn len(&self) -> (n: usize)
        ensures
            n == self@.len(),
    {
        self.0.len()
    }

    /// The item at `index`.
    pub fn get(&self, index: usize) -> (r: SimpleEntity)
        requires
            index < self@.len(),
        ensures
            r == self@[index as int],
    {
        self.0[index]
    }

    /// The item at `index`, to be changed in place.
    pub fn get_mut(&mut self, index: usize) -> (r: &mut SimpleEntity)
        requires
            index < old(self)@.len(),
        ensures
            *r == old(self)@[index as int],
            final(self)@ == old(self)@.update(index as int, *final(r)),
    {
        &mut self.0[index]
    }

    /// Whether every vertex held is well formed.
    pub fn is_valid(&self) -> (b: bool)
        ensures
            b == self.wf(),
    {
        let mut i: usize = 0;
        while i < self.0.len()
            invariant
                i <= self.0.len(),
                forall|k: int| 0 <= k < i ==> (#[trigger] self@[k]).wf(),
            decreases self.0.len() - i,
        {
            if !self.0[i].is_valid() {
                assert(!self@[i as int].wf());
                return false;
            }
            i += 1;
        }
        true
    }

    /// Appends the text of the collection to `out`.
    pub fn write(&self, out: &mut Vec<char>)
        ensures
            final(out)@ == old(out)@ + Self::encoded(self@),
    {
        assert(views(self.0@) == self.0@);
        encode_each::<SimpleEntity>(&self.0, out);
    }

    /// The text of the collection.
    pub fn to_string(&self) -> (r: String)
        ensures
            r@ == Self::encoded(self@),
    {
        let mut out: Vec<char> = Vec::new();
        self.write(&mut out);
        string_of(out.as_slice())
    }

    /// Decodes a text.
    pub fn from_chars(s: &[char]) -> (r: Result<Collection, ParseError>)
        ensures
            agrees(r, Self::decoded(s@)),
    {
        let parts = split_words(s, Spacing::Ascii);
        match decode_each::<SimpleEntity>(&parts) {
            Ok(items) => {
                assert(views(items@) == items@);
                Ok(Collection(items))
            },
            Err(e) => Err(e),
        }
    }

    /// Decodes a text.
    pub fn from_str(s: &str) -> (r: Result<Collection, ParseError>)
        ensures
            agrees(r, Self::decoded(s@)),
    {
        let chars = chars_of(s);
        Self::from_chars(chars.as_slice())
    }
}

impl Entity for Collection {
    /// The texts of the items, with one space between each two neighbours.
    open spec fn encoded(v: Seq<SimpleEntity>) -> Seq<char> {
        join(encode_all::<SimpleEntity>(v), seq![' '])
    }

    /// Each word of the text is one item: a vertex or a colour. The first
    /// word that is neither fails the whole. A move takes two words and so
    /// is never read; its two words are read as a colour and a vertex.
    open spec fn decoded(s: Seq<char>) -> Result<Seq<SimpleEntity>, ParseError> {
        decode_all::<SimpleEntity>(words(s, Spacing::Ascii))
    }

    /// One word.
    open spec fn width() -> nat {
        1
    }

    fn word_count() -> (n: usize) {
        1
    }

    fn encode(&self, out: &mut Vec<char>) {
        self.write(out)
    }

    fn decode(s: &[char]) -> (r: Result<Self, ParseError>) {
        Self::from_chars(s)
    }
}

/// A sequence of values of one kind, in the order of the arguments that
/// they are.
#[derive(Debug, Clone, Hash)]
pub struct List<T: Entity>(Vec<T>);

impl<T: Entity> View for List<T> {
    type V = Seq<T::V>;

    closed spec fn view(&self) -> Seq<T::V> {
        views(self.0@)
    }
}

impl<T: Entity> List<T> {
    /// An empty list.
    pub fn new() -> (r: Self)
        ensures
            r@ == Seq::<T::V>::empty(),
    {
        let r = List(Vec::new());
        assert(views(r.0@) == Seq::<T::V>::empty());
        r
    }

    /// The list of the items of `vec`, in their order.
    pub fn from_vec(vec: Vec<T>) -> (r: Self)
        ensures
            r@ == views(vec@),
    {
        List(vec)
    }

    /// Adds `elem` at the end.
    pub fn push(&mut self, elem: T)
        ensures
            final(self)@ == old(self)@.push(elem@),
    {
        self.0.push(elem);
        assert(views(self.0@) == views(old(self).0@).push(elem@));
    }

    /// Takes out and returns the item at `index`; those behind it move up.
    pub fn remove(&mut self, index: usize) -> (r: T)
        requires
            index < old(self)@.len(),
        ensures
            r@ == old(self)@[index as int],
            final(self)@ == old(self)@.remove(index as int),
    {
        let r = self.0.remove(index);
        assert(views(self.0@) == views(old(self).0@).remove(index as int));
        r
    }

    /// The items, as a vector.
    pub fn into_vec(self) -> (r: Vec<T>)
        ensures
            views(r@) == self@,
    {
        self.0
    }

    /// The items.
    pub fn inner(&self) -> (r: &Vec<T>)
        ensures
            views(r@) == self@,
    {
        &self.0
    }

    /// The items, to be changed in place.
    pub fn mut_inner(&mut self) -> (r: &mut Vec<T>)
        ensures
            views(r@) == old(self)@,
            final(self)@ == views(final(r)@),
    {
        &mut self.0
    }

    /// An iterator over the items, in their order.
    pub fn iter(&self) -> (r: core::slice::Iter<'_, T>)
        ensures
            IteratorSpec::remaining(&r).len() == self@.len(),
            forall|i: int|
                0 <= i < self@.len() ==> (*(#[trigger] IteratorSpec::remaining(&r)[i]))@
                    == self@[i],
    {
        self.0.as_slice().iter()
    }

    /// The items as a slice, to go through them and change them in place.
    pub fn iter_mut(&mut self) -> (r: &mut [T])
        ensures
            views(r@) == old(self)@,
            final(self)@ == views(final(r)@),
    {
        self.0.as_mut_slice()
    }

    /// How many items there are.
    pub fn len(&self) -> (n: usize)
        ensures
            n == self@.len(),
    {
        self.0.len()
    }

    /// The item at `index`.
    pub fn get(&self, index: usize) -> (r: &T)
        requires
            index < self@.len(),
        ensures
            r@ == self@[index as int],
    {
        &self.0[index]
    }

    /// The item at `index`, to be changed in place.
    pub fn get_mut(&mut self, index: usize) -> (r: &mut T)
        requires
            index < old(self)@.len(),
        ensures
            r@ == old(self)@[index as int],
            final(self)@ == old(self)@.update(index as int, final(r)@),
    {
        let r = &mut self.0[index];
        proof {
            assert(views(old(self).0@.update(index as int, *final(r))) == views(
                old(self).0@,
            ).update(index as int, final(r)@));
        }
        r
    }

    /// Appends the text of the list to `out`.
    pub fn write(&self, out: &mut Vec<char>)
        ensures
            final(out)@ == old(out)@ + Self::encoded(self@),
    {
        encode_each::<T>(&self.0, out);
    }

    /// The text of the list.
    pub fn to_string(&self) -> (r: String)
        ensures
            r@ == Self::encoded(self@),
    {
        let mut out: Vec<char> = Vec::new();
        self.write(&mut out);
        string_of(out.as_slice())
    }

    /// Decodes a text.
    pub fn from_chars(s: &[char]) -> (r: Result<List<T>, ParseError>)
        ensures
            agrees(r, Self::decoded(s@)),
    {
        if count_of(s, '\n') > 1 {
            return Err(ParseError::WrongArgs);
        }
        let parts = split_words(s, Spacing::Ascii);
        let grouped = group_words(&parts, T::word_count());
        match decode_each::<T>(&grouped) {
            Ok(items) => Ok(List(items)),
            Err(e) => Err(e),
        }
    }

    /// Decodes a text.
    pub fn from_str(s: &str) -> (r: Result<List<T>, ParseError>)
        ensures
            agrees(r, Self::decoded(s@)),
    {
        let chars = chars_of(s);
        Self::from_chars(chars.as_slice())
    }
}

impl<T: Entity> Entity for List<T> {
    /// The texts of the items, with one space between each two neighbours.
    open spec fn encoded(v: Seq<T::V>) -> Seq<char> {
        join(encode_all::<T>(v), seq![' '])
    }

    /// A text with more than one line break is no list. Of any other, the
    /// words are taken as many at a time as one item takes, and each group
    /// is one item; the first group that is none fails the whole.
    open spec fn decoded(s: Seq<char>) -> Result<Seq<T::V>, ParseError> {
        if count(s, '\n') > 1 {
            Err(ParseError::WrongArgs)
        } else {
            decode_all::<T>(groups(words(s, Spacing::Ascii), T::width()))
        }
    }

    /// One word.
    open spec fn width() -> nat {
        1
    }

    fn word_count() -> (n: usize) {
        1
    }

    fn encode(&self, out: &mut Vec<char>) {
        self.write(out)
    }

    fn decode(s: &[char]) -> (r: Result<Self, ParseError>) {
        Self::from_chars(s)
    }
}



impl core::str::FromStr for Boolean {
    type Err = ParseError;

    /// Decodes a text.
    fn from_str(s: &str) -> (r: Result<Self, ParseError>)
        ensures
            r == Boolean::decoded(s@),
    {
        Boolean::from_str(s)
    }
}

impl core::str::FromStr for Vertex {
    type Err = ParseError;

    /// Decodes a text.
    fn from_str(s: &str) -> (r: Result<Self, ParseError>)
        ensures
            r == Vertex::decoded(s@),
    {
        Vertex::from_str(s)
    }
}

impl core::str::FromStr for Color {
    type Err = ParseError;

    /// Decodes a text.
    fn from_str(s: &str) -> (r: Result<Self, ParseError>)
        ensures
            r == Color::decoded(s@),
    {
        Color::from_str(s)
    }
}

impl core::str::FromStr for Move {
    type Err = ParseError;

    /// Decodes a text.
    fn from_str(s: &str) -> (r: Result<Self, ParseError>)
        ensures
            r == Move::decoded(s@),
    {
        Move::from_str(s)
    }
}

impl core::str::FromStr for SimpleEntity {
    type Err = ParseError;

    /// Decodes a text.
    fn from_str(s: &str) -> (r: Result<Self, ParseError>)
        ensures
            r == SimpleEntity::decoded(s@),
    {
        SimpleEntity::from_str(s)
    }
}

impl core::str::FromStr for Score {
    type Err = ParseError;

    /// Decodes a text.
    fn from_str(s: &str) -> (r: Result<Self, ParseError>)
        ensures
            agrees(r, Score::decoded(s@)),
    {
        Score::from_str(s)
    }
}

impl core::str::FromStr for Collection {
    type Err = ParseError;

    /// Decodes a text.
    fn from_str(s: &str) -> (r: Result<Self, ParseError>)
        ensures
            agrees(r, Collection::decoded(s@)),
    {
        Collection::from_str(s)
    }
}

impl<T: Entity> core::str::FromStr for List<T> {
    type Err = ParseError;

    /// Decodes a text.
    fn from_str(s: &str) -> (r: Result<Self, ParseError>)
        ensures
            agrees(r, List::<T>::decoded(s@)),
    {
        List::<T>::from_str(s)
    }
}


impl vstd::std_specs::core::IndexSpecImpl<usize> for Collection {
    open spec fn index_req(&self, index: &usize) -> bool {
        *index < self@.len()
    }
}

impl core::ops::Index<usize> for Collection {
    type Output = SimpleEntity;

    /// The item at `i`.
    fn index(&self, i: usize) -> (r: &SimpleEntity)
        ensures
            *r == self@[i as int],
    {
        &self.0[i]
    }
}

impl Default for Collection {
    /// An empty collection.
    fn default() -> (r: Self)
        ensures
            r@ == Seq::<SimpleEntity>::empty(),
    {
        Collection(Vec::new())
    }
}

impl<T: Entity> vstd::std_specs::core::IndexSpecImpl<usize> for List<T> {
    open spec fn index_req(&self, index: &usize) -> bool {
        *index < self@.len()
    }
}

impl<T: Entity> core::ops::Index<usize> for List<T> {
    type Output = T;

    /// The item at `i`.
    fn index(&self, i: usize) -> (r: &T)
        ensures
            r@ == self@[i as int],
    {
        &self.0[i]
    }
}

impl<T: Entity> Default for List<T> {
    /// An empty list.
    fn default() -> (r: Self)
        ensures
            r@ == Seq::<T::V>::empty(),
    {
        List::new()
    }
}

impl FromSpecImpl<Vertex> for SimpleEntity {
    open spec fn obeys_from_spec() -> bool {
        true
    }

    open spec fn from_spec(v: Vertex) -> SimpleEntity {
        SimpleEntity::Vertex(v)
    }
}

impl From<Vertex> for SimpleEntity {
    fn from(v: Vertex) -> (r: SimpleEntity) {
        SimpleEntity::Vertex(v)
    }
}

impl FromSpecImpl<Color> for SimpleEntity {
    open spec fn obeys_from_spec() -> bool {
        true
    }

    open spec fn from_spec(c: Color) -> SimpleEntity {
        SimpleEntity::Color(c)
    }
}

impl From<Color> for SimpleEntity {
    fn from(c: Color) -> (r: SimpleEntity) {
        SimpleEntity::Color(c)
    }
}

impl FromSpecImpl<Move> for SimpleEntity {
    open spec fn obeys_from_spec() -> bool {
        true
    }

    open spec fn from_spec(m: Move) -> SimpleEntity {
        SimpleEntity::Move(m)
    }
}

impl From<Move> for SimpleEntity {
    fn from(m: Move) -> (r: SimpleEntity) {
        SimpleEntity::Move(m)
    }
}

} // verus!
