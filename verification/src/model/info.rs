//! The analysis that an engine streams while it thinks.

use crate::model::types::{decode_all, decode_each, decode_range, views};
use crate::model::{agrees, Entity, ParseError, Vertex};
use crate::number::{is_float, parse_unsigned, unsigned, Float};
use crate::text::{
    chars_of, find, find_from, same_text, split_on, split_on_text, split_words, texts, words,
    Spacing,
};
use vstd::prelude::*;
use vstd::slice::slice_subrange;

verus! {

/// What the engine found for one move that it looked at.
#[derive(Debug, Clone)]
pub struct InfoMove {
    /// The move.
    pub coord: Vertex,
    /// How often the search went through the move.
    pub visits: u64,
    pub winrate: Float,
    pub score_mean: Float,
    pub score_stdev: Float,
    pub score_lead: Float,
    pub score_selfplay: Float,
    pub prior: Float,
    pub utility: Float,
    pub lcb: Float,
    pub utility_lcb: Float,
    /// The rank of the move among those looked at.
    pub order: u16,
    /// The play that the engine expects after the move.
    pub pv: Vec<Vertex>,
    /// How often the search went through each step of that play.
    pub pv_visits: Vec<u64>,
}

/// What an `InfoMove` holds, as mathematical values.
pub struct InfoMoveView {
    pub coord: Vertex,
    pub visits: u64,
    pub winrate: Seq<char>,
    pub score_mean: Seq<char>,
    pub score_stdev: Seq<char>,
    pub score_lead: Seq<char>,
    pub score_selfplay: Seq<char>,
    pub prior: Seq<char>,
    pub utility: Seq<char>,
    pub lcb: Seq<char>,
    pub utility_lcb: Seq<char>,
    pub order: u16,
    pub pv: Seq<Vertex>,
    pub pv_visits: Seq<u64>,
}

impl View for InfoMove {
    type V = InfoMoveView;

    open spec fn view(&self) -> InfoMoveView {
        InfoMoveView {
            coord: self.coord,
            visits: self.visits,
            winrate: self.winrate@,
            score_mean: self.score_mean@,
            score_stdev: self.score_stdev@,
            score_lead: self.score_lead@,
            score_selfplay: self.score_selfplay@,
            prior: self.prior@,
            utility: self.utility@,
            lcb: self.lcb@,
            utility_lcb: self.utility_lcb@,
            order: self.order,
            pv: self.pv@,
            pv_visits: self.pv_visits@,
        }
    }
}

/// The word at `at`, or the empty word where the words end before it.
pub open spec fn word_at(tokens: Seq<Seq<char>>, at: int) -> Seq<char> {
    if 0 <= at < tokens.len() {
        tokens[at]
    } else {
        Seq::empty()
    }
}

/// How many words stand from `at` on before the word `pvVisits` or the
/// end.
pub open spec fn pv_len(tokens: Seq<Seq<char>>, at: int) -> nat
    decreases tokens.len() - at,
{
    if at < 0 || at >= tokens.len() || tokens[at] == "pvVisits"@ {
        0
    } else {
        1 + pv_len(tokens, at + 1)
    }
}

/// The words before `pvVisits` end within the words.
pub proof fn lemma_pv_len_bound(tokens: Seq<Seq<char>>, at: int)
    requires
        0 <= at,
    ensures
        at + pv_len(tokens, at) <= tokens.len() || (at > tokens.len() && pv_len(tokens, at) == 0),
        forall|i: int| at <= i < at + pv_len(tokens, at) ==> #[trigger] tokens[i] != "pvVisits"@,
        at + pv_len(tokens, at) < tokens.len() ==> tokens[at + pv_len(tokens, at)] == "pvVisits"@,
    decreases tokens.len() - at,
{
    if at >= tokens.len() || tokens[at] == "pvVisits"@ {
    } else {
        lemma_pv_len_bound(tokens, at + 1);
    }
}

/// The place of the key after the key at `at` and its value, or the end
/// where the words end before it.
fn next_key(at: usize, len: usize) -> (r: usize)
    requires
        at < len,
    ensures
        at < r <= len,
        r == at + 2 || (r == len && at + 2 > len),
{
    if at + 1 < len {
        at + 2
    } else {
        len
    }
}

impl InfoMove {
    /// What is known of a move before anything was read: a pass, and zero
    /// for every number.
    pub open spec fn blank() -> InfoMoveView {
        InfoMoveView {
            coord: Vertex::Pass,
            visits: 0,
            winrate: seq!['0'],
            score_mean: seq!['0'],
            score_stdev: seq!['0'],
            score_lead: seq!['0'],
            score_selfplay: seq!['0'],
            prior: seq!['0'],
            utility: seq!['0'],
            lcb: seq!['0'],
            utility_lcb: seq!['0'],
            order: 0,
            pv: Seq::empty(),
            pv_visits: Seq::empty(),
        }
    }

    /// Whether every number held is written by a literal.
    pub open spec fn wf(m: InfoMoveView) -> bool {
        &&& is_float(m.winrate)
        &&& is_float(m.score_mean)
        &&& is_float(m.score_stdev)
        &&& is_float(m.score_lead)
        &&& is_float(m.score_selfplay)
        &&& is_float(m.prior)
        &&& is_float(m.utility)
        &&& is_float(m.lcb)
        &&& is_float(m.utility_lcb)
    }

    /// Whether `key` is a key that takes one word as its value.
    pub open spec fn takes_one(key: Seq<char>) -> bool {
        key == "move"@ || key == "visits"@ || key == "winrate"@ || key == "scoreMean"@ || key == "scoreStdev"@ || key == "scoreLead"@ || key == "scoreSelfplay"@ || key == "prior"@ || key == "utility"@ || key == "lcb"@ || key == "utilityLcb"@ || key == "order"@ || key == "isSymmetryOf"@
    }

    /// What a key that takes one word and its value make of `m`. A number
    /// that does not read as one is a wrong argument.
    pub open spec fn assigned(m: InfoMoveView, key: Seq<char>, value: Seq<char>) -> Result<
        InfoMoveView,
        ParseError,
    > {
        if key == "move"@ {
            match Vertex::decoded(value) {
                Ok(v) => Ok(InfoMoveView { coord: v, ..m }),
                Err(e) => Err(e),
            }
        } else if key == "visits"@ {
            match unsigned(value, u64::MAX as nat) {
                Some(n) => Ok(InfoMoveView { visits: n as u64, ..m }),
                None => Err(ParseError::WrongArgs),
            }
        } else if key == "winrate"@ {
            match Float::decoded(value) {
                Some(x) => Ok(InfoMoveView { winrate: x, ..m }),
                None => Err(ParseError::WrongArgs),
            }
        } else if key == "scoreMean"@ {
            match Float::decoded(value) {
                Some(x) => Ok(InfoMoveView { score_mean: x, ..m }),
                None => Err(ParseError::WrongArgs),
            }
        } else if key == "scoreStdev"@ {
            match Float::decoded(value) {
                Some(x) => Ok(InfoMoveView { score_stdev: x, ..m }),
                None => Err(ParseError::WrongArgs),
            }
        } else if key == "scoreLead"@ {
            match Float::decoded(value) {
                Some(x) => Ok(InfoMoveView { score_lead: x, ..m }),
                None => Err(ParseError::WrongArgs),
            }
        } else if key == "scoreSelfplay"@ {
            match Float::decoded(value) {
                Some(x) => Ok(InfoMoveView { score_selfplay: x, ..m }),
                None => Err(ParseError::WrongArgs),
            }
        } else if key == "prior"@ {
            match Float::decoded(value) {
                Some(x) => Ok(InfoMoveView { prior: x, ..m }),
                None => Err(ParseError::WrongArgs),
            }
        } else if key == "utility"@ {
            match Float::decoded(value) {
                Some(x) => Ok(InfoMoveView { utility: x, ..m }),
                None => Err(ParseError::WrongArgs),
            }
        } else if key == "lcb"@ {
            match Float::decoded(value) {
                Some(x) => Ok(InfoMoveView { lcb: x, ..m }),
                None => Err(ParseError::WrongArgs),
            }
        } else if key == "utilityLcb"@ {
            match Float::decoded(value) {
                Some(x) => Ok(InfoMoveView { utility_lcb: x, ..m }),
                None => Err(ParseError::WrongArgs),
            }
        } else if key == "order"@ {
            match unsigned(value, u16::MAX as nat) {
                Some(n) => Ok(InfoMoveView { order: n as u16, ..m }),
                None => Err(ParseError::WrongArgs),
            }
        } else {
            Ok(m)
        }
    }

    /// What the words from `at` on make of `m`.
    ///
    /// Most keys take one word as their value; a value that is missing
    /// counts as empty, and the value of `isSymmetryOf` is not read. `pv`
    /// takes the words up to `pvVisits` as vertices, and `pvVisits` takes
    /// every word that is left as a count. Any other key fails.
    pub open spec fn read(tokens: Seq<Seq<char>>, at: int, m: InfoMoveView) -> Result<
        InfoMoveView,
        ParseError,
    >
        decreases tokens.len() - at + 2,
        via Self::read_decreases
    {
        let key = word_at(tokens, at);
        let value = word_at(tokens, at + 1);
        if at < 0 || at >= tokens.len() {
            Ok(m)
        } else if Self::takes_one(key) {
            match Self::assigned(m, key, value) {
                Ok(next) => Self::read(tokens, at + 2, next),
                Err(e) => Err(e),
            }
        } else if key == "pv"@ {
            let n = pv_len(tokens, at + 1) as int;
            match decode_all::<Vertex>(tokens.subrange(at + 1, at + 1 + n)) {
                Ok(steps) => Self::read(tokens, at + 1 + n, InfoMoveView { pv: m.pv + steps, ..m }),
                Err(e) => Err(e),
            }
        } else if key == "pvVisits"@ {
            match decode_all::<u64>(tokens.skip(at + 1)) {
                Ok(counts) => Ok(InfoMoveView { pv_visits: m.pv_visits + counts, ..m }),
                Err(e) => Err(e),
            }
        } else {
            Err(ParseError::WrongAlternative)
        }
    }

    #[via_fn]
    proof fn read_decreases(tokens: Seq<Seq<char>>, at: int, m: InfoMoveView) {
        if at >= 0 {
            lemma_pv_len_bound(tokens, at + 1);
        }
    }

    /// What a block of analysis says of one move. Its words are parted by
    /// whitespace of any kind.
    pub open spec fn decoded(s: Seq<char>) -> Result<InfoMoveView, ParseError> {
        Self::read(words(s, Spacing::Unicode), 0, Self::blank())
    }

    /// Whether `key` is a key that takes one word as its value.
    fn is_single(key: &[char]) -> (b: bool)
        ensures
            b == Self::takes_one(key@),
    {
        same_text(key, "move") || same_text(key, "visits") || same_text(key, "winrate") || same_text(key, "scoreMean") || same_text(key, "scoreStdev") || same_text(key, "scoreLead") || same_text(key, "scoreSelfplay") || same_text(key, "prior") || same_text(key, "utility") || same_text(key, "lcb") || same_text(key, "utilityLcb") || same_text(key, "order") || same_text(key, "isSymmetryOf")
    }

    /// Takes the value of a key that takes one word.
    #[verifier::rlimit(30)]
    fn assign(&mut self, key: &[char], value: &[char]) -> (r: Result<(), ParseError>)
        requires
            Self::takes_one(key@),
        ensures
            match r {
                Ok(()) => Self::assigned(old(self)@, key@, value@) == Ok::<
                    InfoMoveView,
                    ParseError,
                >(final(self)@),
                Err(e) => Self::assigned(old(self)@, key@, value@) == Err::<
                    InfoMoveView,
                    ParseError,
                >(e),
            },
    {
        if same_text(key, "move") {
            match Vertex::from_chars(value) {
                Ok(v) => {
                    self.coord = v;
                    Ok(())
                },
                Err(e) => Err(e),
            }
        } else if same_text(key, "visits") {
            match parse_unsigned(value, u64::MAX) {
                Some(n) => {
                    self.visits = n;
                    Ok(())
                },
                None => Err(ParseError::WrongArgs),
            }
        } else if same_text(key, "winrate") {
            match Float::from_chars(value) {
                Some(x) => {
                    self.winrate = x;
                    Ok(())
                },
                None => Err(ParseError::WrongArgs),
            }
        } else if same_text(key, "scoreMean") {
            match Float::from_chars(value) {
                Some(x) => {
                    self.score_mean = x;
                    Ok(())
                },
                None => Err(ParseError::WrongArgs),
            }
        } else if same_text(key, "scoreStdev") {
            match Float::from_chars(value) {
                Some(x) => {
                    self.score_stdev = x;
                    Ok(())
                },
                None => Err(ParseError::WrongArgs),
            }
        } else if same_text(key, "scoreLead") {
            match Float::from_chars(value) {
                Some(x) => {
                    self.score_lead = x;
                    Ok(())
                },
                None => Err(ParseError::WrongArgs),
            }
        } else if same_text(key, "scoreSelfplay") {
            match Float::from_chars(value) {
                Some(x) => {
                    self.score_selfplay = x;
                    Ok(())
                },
                None => Err(ParseError::WrongArgs),
            }
        } else if same_text(key, "prior") {
            match Float::from_chars(value) {
                Some(x) => {
                    self.prior = x;
                    Ok(())
                },
                None => Err(ParseError::WrongArgs),
            }
        } else if same_text(key, "utility") {
            match Float::from_chars(value) {
                Some(x) => {
                    self.utility = x;
                    Ok(())
                },
                None => Err(ParseError::WrongArgs),
            }
        } else if same_text(key, "lcb") {
            match Float::from_chars(value) {
                Some(x) => {
                    self.lcb = x;
                    Ok(())
                },
                None => Err(ParseError::WrongArgs),
            }
        } else if same_text(key, "utilityLcb") {
            match Float::from_chars(value) {
                Some(x) => {
                    self.utility_lcb = x;
                    Ok(())
                },
                None => Err(ParseError::WrongArgs),
            }
        } else if same_text(key, "order") {
            match parse_unsigned(value, u16::MAX as u64) {
                Some(n) => {
                    self.order = n as u16;
                    Ok(())
                },
                None => Err(ParseError::WrongArgs),
            }
        } else {
            Ok(())
        }
    }

    /// Decodes a block of analysis.
    pub fn from_chars(s: &[char]) -> (r: Result<InfoMove, ParseError>)
        ensures
            agrees(r, Self::decoded(s@)),
    {
        let parts = split_words(s, Spacing::Unicode);
        let ghost tokens = texts(parts@);
        let empty: Vec<char> = Vec::new();
        let mut m = InfoMove {
            coord: Vertex::Pass,
            visits: 0,
            winrate: Float::zero(),
            score_mean: Float::zero(),
            score_stdev: Float::zero(),
            score_lead: Float::zero(),
            score_selfplay: Float::zero(),
            prior: Float::zero(),
            utility: Float::zero(),
            lcb: Float::zero(),
            utility_lcb: Float::zero(),
            order: 0,
            pv: Vec::new(),
            pv_visits: Vec::new(),
        };
        assert(m@ == Self::blank());
        let mut at: usize = 0;
        while at < parts.len()
            invariant
                tokens == texts(parts@),
                tokens == words(s@, Spacing::Unicode),
                empty@ == Seq::<char>::empty(),
                Self::read(tokens, 0, Self::blank()) == Self::read(tokens, at as int, m@),
            decreases parts.len() - at,
        {
            let key = parts[at].as_slice();
            assert(key@ == word_at(tokens, at as int));
            let value = if at + 1 < parts.len() {
                parts[at + 1].as_slice()
            } else {
                empty.as_slice()
            };
            assert(value@ == word_at(tokens, at + 1));
            if Self::is_single(key) {
                match m.assign(key, value) {
                    Ok(()) => {},
                    Err(e) => {
                        return Err(e);
                    },
                }
                at = next_key(at, parts.len());
                proof {
                    reveal_with_fuel(InfoMove::read, 2);
                }
            } else if same_text(key, "pv") {
                let start = at + 1;
                let mut end = start;
                while end < parts.len() && !same_text(parts[end].as_slice(), "pvVisits")
                    invariant
                        start <= end <= parts.len(),
                        tokens == texts(parts@),
                        pv_len(tokens, start as int) == (end - start) + pv_len(tokens, end as int),
                    decreases parts.len() - end,
                {
                    end += 1;
                }
                proof {
                    if end < parts.len() {
                        assert(tokens[end as int] == parts@[end as int]@);
                    }
                    assert(pv_len(tokens, end as int) == 0);
                }
                match decode_range::<Vertex>(&parts, start, end) {
                    Ok(mut steps) => {
                        assert(views(steps@) == steps@);

                        m.pv.append(&mut steps);
                    },
                    Err(e) => {
                        return Err(e);
                    },
                }
                at = end;
            } else if same_text(key, "pvVisits") {
                assert(tokens.skip(at + 1) == tokens.subrange(at + 1, parts.len() as int));
                match decode_range::<u64>(&parts, at + 1, parts.len()) {
                    Ok(mut counts) => {
                        assert(views(counts@) == counts@);
                        m.pv_visits.append(&mut counts);
                        return Ok(m);
                    },
                    Err(e) => {
                        return Err(e);
                    },
                }
            } else {
                return Err(ParseError::WrongAlternative);
            }
        }
        Ok(m)
    }

    /// Decodes a block of analysis.
    pub fn from_str(s: &str) -> (r: Result<InfoMove, ParseError>)
        ensures
            agrees(r, Self::decoded(s@)),
    {
        let chars = chars_of(s);
        Self::from_chars(chars.as_slice())
    }
}

/// What the engine has found so far: the moves that it looked at, and for
/// each point of the board how likely it is to end up with either side.
#[derive(Debug, Clone)]
pub struct Info {
    pub explored_moves: Vec<InfoMove>,
    pub ownership: Vec<Float>,
}

/// What an `Info` holds, as mathematical values.
pub struct InfoView {
    pub explored_moves: Seq<InfoMoveView>,
    pub ownership: Seq<Seq<char>>,
}

impl View for Info {
    type V = InfoView;

    open spec fn view(&self) -> InfoView {
        InfoView { explored_moves: views(self.explored_moves@), ownership: views(self.ownership@) }
    }
}

/// What each of `blocks` says of a move, or the error of the first block
/// that fails.
pub open spec fn decode_blocks(blocks: Seq<Seq<char>>) -> Result<Seq<InfoMoveView>, ParseError>
    decreases blocks.len(),
{
    if blocks.len() == 0 {
        Ok(Seq::empty())
    } else {
        match decode_blocks(blocks.drop_last()) {
            Err(e) => Err(e),
            Ok(moves) => match InfoMove::decoded(blocks.last()) {
                Err(e) => Err(e),
                Ok(m) => Ok(moves.push(m)),
            },
        }
    }
}

/// Where the first `k` blocks do not all decode, neither do all of them,
/// and the error is the same.
pub proof fn lemma_decode_blocks_fails(blocks: Seq<Seq<char>>, k: int)
    requires
        0 <= k <= blocks.len(),
        decode_blocks(blocks.take(k)).is_err(),
    ensures
        decode_blocks(blocks) == decode_blocks(blocks.take(k)),
    decreases blocks.len() - k,
{
    if k == blocks.len() {
        assert(blocks.take(k) == blocks);
    } else {
        assert(blocks.drop_last().take(k) == blocks.take(k));
        lemma_decode_blocks_fails(blocks.drop_last(), k);
    }
}

impl Info {
    /// An analysis that says nothing yet.
    pub fn new() -> (r: Self)
        ensures
            r@ == (InfoView { explored_moves: Seq::empty(), ownership: Seq::empty() }),
    {
        let r = Info { explored_moves: Vec::new(), ownership: Vec::new() };
        assert(views(r.explored_moves@) == Seq::<InfoMoveView>::empty());
        assert(views(r.ownership@) == Seq::<Seq<char>>::empty());
        r
    }

    /// The part of a line of analysis that speaks of moves: what stands
    /// before the first `ownership ` with its space, or the whole line.
    pub open spec fn moves_part(s: Seq<char>) -> Seq<char> {
        match find(s, "ownership "@) {
            Some(i) => s.take(i),
            None => s,
        }
    }

    /// The part of a line of analysis that speaks of ownership: what
    /// stands after the first `ownership ` with its space, or nothing.
    pub open spec fn ownership_part(s: Seq<char>) -> Seq<char> {
        match find(s, "ownership "@) {
            Some(i) => s.skip(i + "ownership "@.len()),
            None => Seq::empty(),
        }
    }

    /// What stands before the first `info` in the part on moves. A line
    /// of analysis has nothing there.
    pub open spec fn lead(s: Seq<char>) -> Seq<char> {
        split_on(Self::moves_part(s), "info"@)[0]
    }

    /// The blocks of a line of analysis: the pieces of the part on moves
    /// that follow each `info`.
    pub open spec fn blocks(s: Seq<char>) -> Seq<Seq<char>> {
        split_on(Self::moves_part(s), "info"@).drop_first()
    }

    /// The analysis that a line stands for: one move for each block, and
    /// one number for each word of the part on ownership. A line whose
    /// part on moves is empty is an empty string, and a line with anything
    /// before its first `info` is no analysis.
    pub open spec fn decoded(s: Seq<char>) -> Result<InfoView, ParseError> {
        if Self::moves_part(s).len() == 0 {
            Err(ParseError::EmptyString)
        } else if Self::lead(s).len() != 0 {
            Err(ParseError::WrongAlternative)
        } else {
            match decode_blocks(Self::blocks(s)) {
                Err(e) => Err(e),
                Ok(explored_moves) => match decode_all::<Float>(
                    words(Self::ownership_part(s), Spacing::Ascii),
                ) {
                    Err(e) => Err(e),
                    Ok(ownership) => Ok(InfoView { explored_moves, ownership }),
                },
            }
        }
    }

    /// Decodes a line of analysis.
    pub fn from_chars(s: &[char]) -> (r: Result<Info, ParseError>)
        ensures
            agrees(r, Self::decoded(s@)),
    {
        let marker = chars_of("ownership ");
        let empty: Vec<char> = Vec::new();
        assert(s@.skip(0) == s@);
        let (moves_part, ownership_part) = match find_from(s, 0, marker.as_slice()) {
            Some(i) => (slice_subrange(s, 0, i), slice_subrange(s, i + marker.len(), s.len())),
            None => (s, empty.as_slice()),
        };
        assert(moves_part@ == Self::moves_part(s@));
        assert(ownership_part@ == Self::ownership_part(s@));
        if moves_part.len() == 0 {
            return Err(ParseError::EmptyString);
        }
        let word = chars_of("info");
        proof {
            reveal_strlit("info");
        }
        let pieces = split_on_text(moves_part, word.as_slice());
        let ghost blocks = Self::blocks(s@);
        assert(blocks == texts(pieces@).drop_first());
        assert(texts(pieces@)[0] == pieces@[0]@);
        if pieces[0].len() != 0 {
            return Err(ParseError::WrongAlternative);
        }
        let mut explored_moves: Vec<InfoMove> = Vec::new();
        let mut i: usize = 1;
        assert(blocks.take(0) == Seq::<Seq<char>>::empty());
        assert(views(explored_moves@) == Seq::<InfoMoveView>::empty());
        while i < pieces.len()
            invariant
                1 <= i <= pieces.len(),
                blocks == texts(pieces@).drop_first(),
                blocks == Self::blocks(s@),
                Self::moves_part(s@).len() != 0,
                Self::lead(s@).len() == 0,
                decode_blocks(blocks.take(i - 1)) == Ok::<Seq<InfoMoveView>, ParseError>(
                    views(explored_moves@),
                ),
            decreases pieces.len() - i,
        {
            assert(blocks.take(i as int).drop_last() == blocks.take(i - 1));
            assert(blocks.take(i as int).last() == pieces@[i as int]@);
            match InfoMove::from_chars(pieces[i].as_slice()) {
                Ok(m) => {
                    assert(views(explored_moves@.push(m)) == views(explored_moves@).push(m@));
                    explored_moves.push(m);
                },
                Err(e) => {
                    proof {
                        lemma_decode_blocks_fails(blocks, i as int);
                    }
                    return Err(e);
                },
            }
            i += 1;
        }
        assert(blocks.take(i - 1) == blocks);
        let numbers = split_words(ownership_part, Spacing::Ascii);
        match decode_each::<Float>(&numbers) {
            Ok(ownership) => Ok(Info { explored_moves, ownership }),
            Err(e) => Err(e),
        }
    }

    /// Decodes a line of analysis.
    pub fn from_str(s: &str) -> (r: Result<Info, ParseError>)
        ensures
            agrees(r, Self::decoded(s@)),
    {
        let chars = chars_of(s);
        Self::from_chars(chars.as_slice())
    }
}


impl core::str::FromStr for InfoMove {
    type Err = ParseError;

    /// Decodes a text.
    fn from_str(s: &str) -> (r: Result<Self, ParseError>)
        ensures
            agrees(r, InfoMove::decoded(s@)),
    {
        InfoMove::from_str(s)
    }
}

impl core::str::FromStr for Info {
    type Err = ParseError;

    /// Decodes a text.
    fn from_str(s: &str) -> (r: Result<Self, ParseError>)
        ensures
            agrees(r, Info::decoded(s@)),
    {
        Info::from_str(s)
    }
}

/// How long the keys of a block of analysis are.
pub proof fn lemma_key_lengths()
    ensures
        "move"@.len() == 4,
        "visits"@.len() == 6,
        "winrate"@.len() == 7,
        "scoreMean"@.len() == 9,
        "scoreStdev"@.len() == 10,
        "scoreLead"@.len() == 9,
        "scoreSelfplay"@.len() == 13,
        "prior"@.len() == 5,
        "utility"@.len() == 7,
        "lcb"@.len() == 3,
        "utilityLcb"@.len() == 10,
        "order"@.len() == 5,
        "isSymmetryOf"@.len() == 12,
        "pv"@.len() == 2,
        "pvVisits"@.len() == 8,
{
    reveal_strlit("move");
    reveal_strlit("visits");
    reveal_strlit("winrate");
    reveal_strlit("scoreMean");
    reveal_strlit("scoreStdev");
    reveal_strlit("scoreLead");
    reveal_strlit("scoreSelfplay");
    reveal_strlit("prior");
    reveal_strlit("utility");
    reveal_strlit("lcb");
    reveal_strlit("utilityLcb");
    reveal_strlit("order");
    reveal_strlit("isSymmetryOf");
    reveal_strlit("pv");
    reveal_strlit("pvVisits");
}

/// The play that follows `pv` stops exactly at `pvVisits`.
///
/// Where the words from a `pv` on are read without error, the play of the
/// move grows by one vertex for each word between `pv` and the next
/// `pvVisits` or the end, and by nothing else.
#[verifier::rlimit(30)]
pub proof fn lemma_pv_stops_at_visits(tokens: Seq<Seq<char>>, at: int, m: InfoMoveView)
    requires
        0 <= at < tokens.len(),
        tokens[at] == "pv"@,
        InfoMove::read(tokens, at, m).is_ok(),
    ensures
        ({
            let n = pv_len(tokens, at + 1) as int;
            let steps = decode_all::<Vertex>(tokens.subrange(at + 1, at + 1 + n));
            &&& at + 1 + n <= tokens.len()
            &&& forall|i: int| at + 1 <= i < at + 1 + n ==> #[trigger] tokens[i] != "pvVisits"@
            &&& at + 1 + n < tokens.len() ==> tokens[at + 1 + n] == "pvVisits"@
            &&& steps.is_ok()
            &&& steps.unwrap().len() == n
            &&& InfoMove::read(tokens, at, m).unwrap().pv == m.pv + steps.unwrap()
        }),
{
    let n = pv_len(tokens, at + 1) as int;
    let part = tokens.subrange(at + 1, at + 1 + n);
    lemma_key_lengths();
    lemma_pv_len_bound(tokens, at + 1);
    crate::model::round_trip::lemma_decode_all_each::<Vertex>(part);
    reveal_with_fuel(InfoMove::read, 2);
    assert(!InfoMove::takes_one(tokens[at]));
    if at + 1 + n < tokens.len() {
        assert(!InfoMove::takes_one(tokens[at + 1 + n]));
    }
}

/// A line of analysis gives one number of ownership for each word that
/// follows `ownership`, and each number is the literal that the word is.
pub proof fn lemma_ownership_is_words(s: Seq<char>)
    ensures
        Info::decoded(s) matches Ok(info) ==> info.ownership == words(
            Info::ownership_part(s),
            Spacing::Ascii,
        ) && forall|i: int| 0 <= i < info.ownership.len() ==> is_float(#[trigger] info.ownership[i]),
{
    let parts = words(Info::ownership_part(s), Spacing::Ascii);
    crate::model::round_trip::lemma_decode_all_each::<Float>(parts);
    if let Ok(info) = Info::decoded(s) {
        assert(info.ownership =~= parts);
    }
}

/// A line of analysis gives one move for each `info` that its part on
/// moves holds.
pub proof fn lemma_one_move_for_each_block(blocks: Seq<Seq<char>>)
    ensures
        decode_blocks(blocks) matches Ok(moves) ==> moves.len() == blocks.len() && forall|i: int|
            0 <= i < blocks.len() ==> InfoMove::decoded(#[trigger] blocks[i]) == Ok::<
                InfoMoveView,
                ParseError,
            >(moves[i]),
    decreases blocks.len(),
{
    if blocks.len() > 0 {
        let init = blocks.drop_last();
        lemma_one_move_for_each_block(init);
        if let Ok(moves) = decode_blocks(blocks) {
            let before = decode_blocks(init).unwrap();
            assert forall|i: int| 0 <= i < blocks.len() implies InfoMove::decoded(
                #[trigger] blocks[i],
            ) == Ok::<InfoMoveView, ParseError>(moves[i]) by {
                if i < init.len() {
                    assert(blocks[i] == init[i]);
                    assert(moves[i] == before[i]);
                }
            }
        }
    }
}


/// The part on moves of a line of analysis that holds `blocks`: each
/// block with `info` before it.
pub open spec fn blocks_text(blocks: Seq<Seq<char>>) -> Seq<char>
    decreases blocks.len(),
{
    if blocks.len() == 0 {
        Seq::empty()
    } else {
        blocks_text(blocks.drop_last()) + "info"@ + blocks.last()
    }
}

/// The line of analysis that holds `blocks` and, where there is one, the
/// part on ownership behind its marker.
pub open spec fn line_of(blocks: Seq<Seq<char>>, ownership: Option<Seq<char>>) -> Seq<char> {
    match ownership {
        Some(o) => blocks_text(blocks) + "ownership "@ + o,
        None => blocks_text(blocks),
    }
}

/// Whether `blocks` and `ownership` make a well-formed line of analysis:
/// there is a block, each block says something of a move and holds no
/// `info` of its own, no block holds the marker of ownership, and every
/// word on ownership is a number.
pub open spec fn is_analysis(blocks: Seq<Seq<char>>, ownership: Option<Seq<char>>) -> bool {
    &&& blocks.len() >= 1
    &&& forall|j: int|
        0 <= j < blocks.len() ==> InfoMove::decoded(#[trigger] blocks[j]).is_ok() && find(
            blocks[j],
            "info"@,
        ).is_none()
    &&& find(blocks_text(blocks), "ownership "@).is_none()
    &&& match ownership {
        Some(o) => forall|k: int|
            0 <= k < words(o, Spacing::Ascii).len() ==> is_float(
                #[trigger] words(o, Spacing::Ascii)[k],
            ),
        None => true,
    }
}

/// Neither `info` nor the marker of ownership can share a character with
/// another occurrence of itself.
pub proof fn lemma_markers_stand_apart()
    ensures
        crate::text_laws::ends_apart_from_itself("info"@),
        crate::text_laws::ends_apart_from_itself("ownership "@),
        "info"@.len() == 4,
        "ownership "@.len() == 10,
{
    reveal_strlit("info");
    reveal_strlit("ownership ");
    let a = "info"@;
    assert(a[0] == 'i' && a[1] == 'n' && a[2] == 'f' && a[3] == 'o');
    let b = "ownership "@;
    assert(b[0] == 'o' && b[1] == 'w' && b[2] == 'n' && b[3] == 'e' && b[4] == 'r' && b[5] == 's'
        && b[6] == 'h' && b[7] == 'i' && b[8] == 'p' && b[9] == ' ');
}

/// Parting the part on moves at each `info` gives an empty lead and then
/// the blocks, where no block holds an `info` of its own.
pub proof fn lemma_blocks_split(blocks: Seq<Seq<char>>)
    requires
        forall|j: int| 0 <= j < blocks.len() ==> find(#[trigger] blocks[j], "info"@).is_none(),
    ensures
        split_on(blocks_text(blocks), "info"@) == seq![Seq::<char>::empty()] + blocks,
        blocks.len() > 0 ==> blocks_text(blocks).len() > 0,
    decreases blocks.len(),
{
    lemma_markers_stand_apart();
    if blocks.len() == 0 {
        let e = Seq::<char>::empty();
        crate::text::lemma_find_bound(e, "info"@);
        assert(e.skip(0) == e);
        assert(find(e, "info"@).is_none());
        assert(seq![e] + blocks == seq![e]);
    } else {
        let init = blocks.drop_last();
        assert forall|j: int| 0 <= j < init.len() implies find(
            #[trigger] init[j],
            "info"@,
        ).is_none() by {
            assert(init[j] == blocks[j]);
        }
        lemma_blocks_split(init);
        crate::text_laws::lemma_split_on_append(blocks_text(init), "info"@, blocks.last());
        assert((seq![Seq::<char>::empty()] + init) + seq![blocks.last()] == seq![
            Seq::<char>::empty(),
        ] + blocks);
    }
}

/// Blocks that each say something of a move give one move each, in their
/// order.
pub proof fn lemma_blocks_decode(blocks: Seq<Seq<char>>)
    requires
        forall|j: int| 0 <= j < blocks.len() ==> InfoMove::decoded(#[trigger] blocks[j]).is_ok(),
    ensures
        decode_blocks(blocks).is_ok(),
        decode_blocks(blocks).unwrap().len() == blocks.len(),
        forall|j: int|
            0 <= j < blocks.len() ==> InfoMove::decoded(#[trigger] blocks[j]) == Ok::<
                InfoMoveView,
                ParseError,
            >(decode_blocks(blocks).unwrap()[j]),
    decreases blocks.len(),
{
    if blocks.len() > 0 {
        let init = blocks.drop_last();
        assert forall|j: int| 0 <= j < init.len() implies InfoMove::decoded(
            #[trigger] init[j],
        ).is_ok() by {
            assert(init[j] == blocks[j]);
        }
        lemma_blocks_decode(init);
        let moves = decode_blocks(blocks).unwrap();
        let before = decode_blocks(init).unwrap();
        assert forall|j: int| 0 <= j < blocks.len() implies InfoMove::decoded(
            #[trigger] blocks[j],
        ) == Ok::<InfoMoveView, ParseError>(moves[j]) by {
            if j < init.len() {
                assert(blocks[j] == init[j]);
                assert(moves[j] == before[j]);
            }
        }
    }
}

/// Words that are numbers decode to themselves.
pub proof fn lemma_floats_decode(ws: Seq<Seq<char>>)
    requires
        forall|k: int| 0 <= k < ws.len() ==> is_float(#[trigger] ws[k]),
    ensures
        decode_all::<Float>(ws) == Ok::<Seq<Seq<char>>, ParseError>(ws),
    decreases ws.len(),
{
    if ws.len() == 0 {
        assert(ws == Seq::<Seq<char>>::empty());
    } else {
        let init = ws.drop_last();
        assert forall|k: int| 0 <= k < init.len() implies is_float(#[trigger] init[k]) by {
            assert(init[k] == ws[k]);
        }
        lemma_floats_decode(init);
        assert(is_float(ws.last()));
        assert(init.push(ws.last()) == ws);
    }
}

/// The part on moves of a well-formed line is its blocks, and its part on
/// ownership is what stands behind the marker.
pub proof fn lemma_line_parts(blocks: Seq<Seq<char>>, ownership: Option<Seq<char>>)
    requires
        find(blocks_text(blocks), "ownership "@).is_none(),
    ensures
        Info::moves_part(line_of(blocks, ownership)) == blocks_text(blocks),
        Info::ownership_part(line_of(blocks, ownership)) == (match ownership {
            Some(o) => o,
            None => Seq::empty(),
        }),
{
    lemma_markers_stand_apart();
    let b = blocks_text(blocks);
    match ownership {
        Some(o) => {
            let s = line_of(blocks, ownership);
            crate::text_laws::lemma_find_at_join(b, "ownership "@, o);
            assert(s.take(b.len() as int) == b);
            assert(s.skip(b.len() as int + "ownership "@.len() as int) == o);
        },
        None => {},
    }
}

/// Every well-formed line of analysis decodes: to one move for each of
/// its blocks, in their order, and to one number for each word on
/// ownership, in their order; to no number where the line says nothing on
/// ownership.
pub proof fn lemma_analysis_decodes(blocks: Seq<Seq<char>>, ownership: Option<Seq<char>>)
    requires
        is_analysis(blocks, ownership),
    ensures
        Info::decoded(line_of(blocks, ownership)).is_ok(),
        Info::decoded(line_of(blocks, ownership)).unwrap().explored_moves.len() == blocks.len(),
        forall|j: int|
            0 <= j < blocks.len() ==> InfoMove::decoded(#[trigger] blocks[j]) == Ok::<
                InfoMoveView,
                ParseError,
            >(Info::decoded(line_of(blocks, ownership)).unwrap().explored_moves[j]),
        Info::decoded(line_of(blocks, ownership)).unwrap().ownership == (match ownership {
            Some(o) => words(o, Spacing::Ascii),
            None => Seq::empty(),
        }),
{
    let s = line_of(blocks, ownership);
    lemma_line_parts(blocks, ownership);
    lemma_blocks_split(blocks);
    lemma_blocks_decode(blocks);
    let pieces = split_on(blocks_text(blocks), "info"@);
    assert(pieces[0] == Seq::<char>::empty());
    assert(pieces.drop_first() == blocks);
    let numbers = words(Info::ownership_part(s), Spacing::Ascii);
    match ownership {
        Some(o) => {
            lemma_floats_decode(numbers);
        },
        None => {
            assert(numbers == Seq::<Seq<char>>::empty());
            lemma_floats_decode(numbers);
        },
    }
}

} // verus!
