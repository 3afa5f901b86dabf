//! Blocks of analysis written in full, and that reading them gives their
//! moves back.

use crate::model::info::{
    blocks_text, lemma_analysis_decodes, lemma_key_lengths, line_of, pv_len,
};
use crate::model::round_trip::{
    all_wf, char_at, lemma_decode_all_encoded, lemma_numeral_plain, lemma_plain,
    lemma_vertex_plain, lemma_vertex_round_trip,
};
use crate::model::types::encode_all;
use crate::model::{Entity, Info, InfoMove, InfoMoveView, InfoView, ParseError, Vertex};
use crate::number::{
    is_float, lemma_float_is_word, lemma_float_lacks_letters, lemma_unsigned_of_numeral, numeral,
    unsigned,
};
use crate::text::{is_word, join, words, Spacing};
use crate::text_laws::{
    all_words, lacks_pair, lemma_concat_lacks_pair, lemma_join_lacks_pair, lemma_no_pair_no_find,
    lemma_words_around, lemma_words_of_word,
};
use vstd::prelude::*;

verus! {

/// The length of a key, its first character and its sixth: enough to tell
/// the keys of a block apart.
pub open spec fn key_mark(s: Seq<char>) -> (nat, char, char) {
    (s.len(), char_at(s, 0), char_at(s, 5))
}

/// The marks of the keys, no two of them the same.
pub proof fn lemma_key_marks()
    ensures
        key_mark("move"@) == (4nat, 'm', ' '),
        key_mark("visits"@) == (6nat, 'v', 's'),
        key_mark("winrate"@) == (7nat, 'w', 't'),
        key_mark("scoreMean"@) == (9nat, 's', 'M'),
        key_mark("scoreStdev"@) == (10nat, 's', 'S'),
        key_mark("scoreLead"@) == (9nat, 's', 'L'),
        key_mark("scoreSelfplay"@) == (13nat, 's', 'S'),
        key_mark("prior"@) == (5nat, 'p', ' '),
        key_mark("utility"@) == (7nat, 'u', 't'),
        key_mark("lcb"@) == (3nat, 'l', ' '),
        key_mark("utilityLcb"@) == (10nat, 'u', 't'),
        key_mark("order"@) == (5nat, 'o', ' '),
        key_mark("isSymmetryOf"@) == (12nat, 'i', 'm'),
        key_mark("pv"@) == (2nat, 'p', ' '),
        key_mark("pvVisits"@) == (8nat, 'p', 'i'),
{
    reveal_strlit("move");
    reveal_strlit("visits");
    reveal_strlit("winrate");
    reveal_strlit("scoreMean");
    reveal_strlit("scoreStdev");
    reveal_strlit("scoreLead");
    reveal_strlit("scoreSelfplay");
    reveal_strlit("prior");
    reveal_strlit("utility");
    reveal_strlit("lcb");
    reveal_strlit("utilityLcb");
    reveal_strlit("order");
    reveal_strlit("isSymmetryOf");
    reveal_strlit("pv");
    reveal_strlit("pvVisits");
}

impl InfoMove {
    /// Whether a move with what was found for it can be written and read
    /// back: its numbers are literals and its vertices well formed.
    pub open spec fn reads_back(m: InfoMoveView) -> bool {
        Self::wf(m) && m.coord.wf() && all_wf(m.pv)
    }

    /// The keys that take one word, each with the value that `m` has for
    /// it, in the order in which an engine writes them.
    pub open spec fn said_in_pairs(m: InfoMoveView) -> Seq<Seq<char>> {
        seq![
        "move"@,
        Vertex::encoded(m.coord),
        "visits"@,
        numeral(m.visits as nat),
        "winrate"@,
        m.winrate,
        "scoreMean"@,
        m.score_mean,
        "scoreStdev"@,
        m.score_stdev,
        "scoreLead"@,
        m.score_lead,
        "scoreSelfplay"@,
        m.score_selfplay,
        "prior"@,
        m.prior,
        "utility"@,
        m.utility,
        "lcb"@,
        m.lcb,
        "utilityLcb"@,
        m.utility_lcb,
        "order"@,
        numeral(m.order as nat),
        ]
    }

    /// The words that say `m` in full: the pairs, then the play behind
    /// `pv`, then the counts behind `pvVisits`.
    pub open spec fn said(m: InfoMoveView) -> Seq<Seq<char>> {
        Self::said_in_pairs(m) + seq!["pv"@] + encode_all::<Vertex>(m.pv) + seq!["pvVisits"@]
            + encode_all::<u64>(m.pv_visits)
    }

    /// The block that says `m` in full: a space and then the words with
    /// single spaces between them.
    pub open spec fn written(m: InfoMoveView) -> Seq<char> {
        seq![' '] + join(Self::said(m), seq![' '])
    }

    /// What is known of `m` once the first `k` pairs were read.
    pub open spec fn upto(m: InfoMoveView, k: int) -> InfoMoveView {
        InfoMoveView {
            coord: if k >= 1 {
                m.coord
            } else {
                Vertex::Pass
            },
            visits: if k >= 2 {
                m.visits
            } else {
                0
            },
            winrate: if k >= 3 {
                m.winrate
            } else {
                seq!['0']
            },
            score_mean: if k >= 4 {
                m.score_mean
            } else {
                seq!['0']
            },
            score_stdev: if k >= 5 {
                m.score_stdev
            } else {
                seq!['0']
            },
            score_lead: if k >= 6 {
                m.score_lead
            } else {
                seq!['0']
            },
            score_selfplay: if k >= 7 {
                m.score_selfplay
            } else {
                seq!['0']
            },
            prior: if k >= 8 {
                m.prior
            } else {
                seq!['0']
            },
            utility: if k >= 9 {
                m.utility
            } else {
                seq!['0']
            },
            lcb: if k >= 10 {
                m.lcb
            } else {
                seq!['0']
            },
            utility_lcb: if k >= 11 {
                m.utility_lcb
            } else {
                seq!['0']
            },
            order: if k >= 12 {
                m.order
            } else {
                0
            },
            pv: Seq::empty(),
            pv_visits: Seq::empty(),
        }
    }
}

/// What each key that takes one word makes of a move, where the value is
/// right for it.
#[verifier::rlimit(60)]
pub proof fn lemma_assigned(cur: InfoMoveView, value: Seq<char>)
    ensures
        InfoMove::assigned(cur, "move"@, value) == (match Vertex::decoded(value) {
            Ok(v) => Ok::<InfoMoveView, ParseError>(InfoMoveView { coord: v, ..cur }),
            Err(e) => Err::<InfoMoveView, ParseError>(e),
        }),
        InfoMove::assigned(cur, "visits"@, value) == (match unsigned(value, u64::MAX as nat) {
            Some(n) => Ok::<InfoMoveView, ParseError>(InfoMoveView { visits: n as u64, ..cur }),
            None => Err::<InfoMoveView, ParseError>(ParseError::WrongArgs),
        }),
        is_float(value) ==> InfoMove::assigned(cur, "winrate"@, value) == Ok::<
            InfoMoveView,
            ParseError,
        >(InfoMoveView { winrate: value, ..cur }),
        is_float(value) ==> InfoMove::assigned(cur, "scoreMean"@, value) == Ok::<
            InfoMoveView,
            ParseError,
        >(InfoMoveView { score_mean: value, ..cur }),
        is_float(value) ==> InfoMove::assigned(cur, "scoreStdev"@, value) == Ok::<
            InfoMoveView,
            ParseError,
        >(InfoMoveView { score_stdev: value, ..cur }),
        is_float(value) ==> InfoMove::assigned(cur, "scoreLead"@, value) == Ok::<
            InfoMoveView,
            ParseError,
        >(InfoMoveView { score_lead: value, ..cur }),
        is_float(value) ==> InfoMove::assigned(cur, "scoreSelfplay"@, value) == Ok::<
            InfoMoveView,
            ParseError,
        >(InfoMoveView { score_selfplay: value, ..cur }),
        is_float(value) ==> InfoMove::assigned(cur, "prior"@, value) == Ok::<
            InfoMoveView,
            ParseError,
        >(InfoMoveView { prior: value, ..cur }),
        is_float(value) ==> InfoMove::assigned(cur, "utility"@, value) == Ok::<
            InfoMoveView,
            ParseError,
        >(InfoMoveView { utility: value, ..cur }),
        is_float(value) ==> InfoMove::assigned(cur, "lcb"@, value) == Ok::<
            InfoMoveView,
            ParseError,
        >(InfoMoveView { lcb: value, ..cur }),
        is_float(value) ==> InfoMove::assigned(cur, "utilityLcb"@, value) == Ok::<
            InfoMoveView,
            ParseError,
        >(InfoMoveView { utility_lcb: value, ..cur }),
        InfoMove::assigned(cur, "order"@, value) == (match unsigned(value, u16::MAX as nat) {
            Some(n) => Ok::<InfoMoveView, ParseError>(InfoMoveView { order: n as u16, ..cur }),
            None => Err::<InfoMoveView, ParseError>(ParseError::WrongArgs),
        }),
{
    lemma_key_marks();
}

/// Reading at a key that takes one word takes the key and its value and
/// reads on behind them.
pub proof fn lemma_read_pair(tokens: Seq<Seq<char>>, at: int, cur: InfoMoveView)
    requires
        0 <= at,
        at + 1 < tokens.len(),
        InfoMove::takes_one(tokens[at]),
    ensures
        InfoMove::read(tokens, at, cur) == (match InfoMove::assigned(
            cur,
            tokens[at],
            tokens[at + 1],
        ) {
            Ok(next) => InfoMove::read(tokens, at + 2, next),
            Err(e) => Err::<InfoMoveView, ParseError>(e),
        }),
{
}

/// Reading the pair at `2 * k` of the words that say `m` adds what `m`
/// has for its key.
#[verifier::rlimit(60)]
pub proof fn lemma_pair_read(m: InfoMoveView, k: int)
    requires
        InfoMove::reads_back(m),
        0 <= k < 12,
    ensures
        InfoMove::read(InfoMove::said(m), 2 * k, InfoMove::upto(m, k)) == InfoMove::read(
            InfoMove::said(m),
            2 * k + 2,
            InfoMove::upto(m, k + 1),
        ),
{
    let tokens = InfoMove::said(m);
    let pairs = InfoMove::said_in_pairs(m);
    assert(pairs.len() == 24);
    assert(tokens[2 * k] == pairs[2 * k]);
    assert(tokens[2 * k + 1] == pairs[2 * k + 1]);
    lemma_assigned(InfoMove::upto(m, k), tokens[2 * k + 1]);
    if k == 0 {
        assert(tokens[0] == "move"@);
        assert(tokens[1] == Vertex::encoded(m.coord));
        lemma_vertex_round_trip(m.coord);
    }     else if k == 1 {
        assert(tokens[2] == "visits"@);
        assert(tokens[3] == numeral(m.visits as nat));
        lemma_unsigned_of_numeral(m.visits as nat, u64::MAX as nat);
    }     else if k == 2 {
        assert(tokens[4] == "winrate"@);
        assert(tokens[5] == m.winrate);
    }     else if k == 3 {
        assert(tokens[6] == "scoreMean"@);
        assert(tokens[7] == m.score_mean);
    }     else if k == 4 {
        assert(tokens[8] == "scoreStdev"@);
        assert(tokens[9] == m.score_stdev);
    }     else if k == 5 {
        assert(tokens[10] == "scoreLead"@);
        assert(tokens[11] == m.score_lead);
    }     else if k == 6 {
        assert(tokens[12] == "scoreSelfplay"@);
        assert(tokens[13] == m.score_selfplay);
    }     else if k == 7 {
        assert(tokens[14] == "prior"@);
        assert(tokens[15] == m.prior);
    }     else if k == 8 {
        assert(tokens[16] == "utility"@);
        assert(tokens[17] == m.utility);
    }     else if k == 9 {
        assert(tokens[18] == "lcb"@);
        assert(tokens[19] == m.lcb);
    }     else if k == 10 {
        assert(tokens[20] == "utilityLcb"@);
        assert(tokens[21] == m.utility_lcb);
    }     else if k == 11 {
        assert(tokens[22] == "order"@);
        assert(tokens[23] == numeral(m.order as nat));
        lemma_unsigned_of_numeral(m.order as nat, u16::MAX as nat);
    } 
    lemma_read_pair(tokens, 2 * k, InfoMove::upto(m, k));
}

/// The words from `at` on up to `pvVisits` are as many as stand there,
/// where none of them is `pvVisits` and `pvVisits` or the end follows.
pub proof fn lemma_pv_len_is(tokens: Seq<Seq<char>>, at: int, n: int)
    requires
        0 <= at,
        0 <= n,
        at + n <= tokens.len(),
        forall|i: int| at <= i < at + n ==> #[trigger] tokens[i] != "pvVisits"@,
        at + n < tokens.len() ==> tokens[at + n] == "pvVisits"@,
    ensures
        pv_len(tokens, at) == n,
    decreases n,
{
    if n > 0 {
        lemma_pv_len_is(tokens, at + 1, n - 1);
    }
}

/// Reading the play and the counts of the words that say `m` gives `m`.
#[verifier::rlimit(60)]
pub proof fn lemma_play_read(m: InfoMoveView)
    requires
        InfoMove::reads_back(m),
    ensures
        InfoMove::read(InfoMove::said(m), 24, InfoMove::upto(m, 12)) == Ok::<
            InfoMoveView,
            ParseError,
        >(m),
{
    let tokens = InfoMove::said(m);
    let n = m.pv.len() as int;
    let play = encode_all::<Vertex>(m.pv);
    let counts = encode_all::<u64>(m.pv_visits);
    lemma_key_lengths();
    reveal_strlit("pvVisits");
    assert(InfoMove::said_in_pairs(m).len() == 24);
    assert(tokens.len() == 26 + n + counts.len());
    assert(tokens[24] == "pv"@);
    assert(tokens[25 + n] == "pvVisits"@);
    assert forall|i: int| 25 <= i < 25 + n implies #[trigger] tokens[i] != "pvVisits"@ by {
        assert(tokens[i] == Vertex::encoded(m.pv[i - 25]));
        lemma_vertex_plain(m.pv[i - 25]);
    }
    lemma_pv_len_is(tokens, 25, n);
    assert(tokens.subrange(25, 25 + n) == play);
    assert(tokens.skip(26 + n) == counts);
    assert forall|i: int| 0 <= i < m.pv.len() implies Vertex::decoded(
        Vertex::encoded(#[trigger] m.pv[i]),
    ) == Ok::<Vertex, ParseError>(m.pv[i]) by {
        lemma_vertex_round_trip(m.pv[i]);
    }
    lemma_decode_all_encoded::<Vertex>(m.pv);
    assert forall|i: int| 0 <= i < m.pv_visits.len() implies <u64 as Entity>::decoded(
        <u64 as Entity>::encoded(#[trigger] m.pv_visits[i]),
    ) == Ok::<u64, ParseError>(m.pv_visits[i]) by {
        lemma_unsigned_of_numeral(m.pv_visits[i] as nat, u64::MAX as nat);
    }
    lemma_decode_all_encoded::<u64>(m.pv_visits);
    let with_play = InfoMoveView { pv: InfoMove::upto(m, 12).pv + m.pv, ..InfoMove::upto(m, 12) };
    assert(!InfoMove::takes_one("pv"@));
    assert(!InfoMove::takes_one("pvVisits"@));
    assert("pv"@ != "pvVisits"@);
    assert(InfoMove::read(tokens, 24, InfoMove::upto(m, 12)) == InfoMove::read(
        tokens,
        25 + n,
        with_play,
    ));
    assert(InfoMove::read(tokens, 25 + n, with_play) == Ok::<InfoMoveView, ParseError>(
        InfoMoveView { pv_visits: with_play.pv_visits + m.pv_visits, ..with_play },
    ));
    assert(Seq::<Vertex>::empty() + m.pv == m.pv);
    assert(Seq::<u64>::empty() + m.pv_visits == m.pv_visits);
}

/// Reading the words that say `m` gives `m`.
pub proof fn lemma_said_is_read(m: InfoMoveView)
    requires
        InfoMove::reads_back(m),
    ensures
        InfoMove::read(InfoMove::said(m), 0, InfoMove::blank()) == Ok::<InfoMoveView, ParseError>(
            m,
        ),
{
    assert(InfoMove::upto(m, 0) == InfoMove::blank());
    lemma_pair_read(m, 0);
    lemma_pair_read(m, 1);
    lemma_pair_read(m, 2);
    lemma_pair_read(m, 3);
    lemma_pair_read(m, 4);
    lemma_pair_read(m, 5);
    lemma_pair_read(m, 6);
    lemma_pair_read(m, 7);
    lemma_pair_read(m, 8);
    lemma_pair_read(m, 9);
    lemma_pair_read(m, 10);
    lemma_pair_read(m, 11);
    lemma_play_read(m);
}

/// The words of words that single spaces join are those words, under
/// either spacing.
pub proof fn lemma_words_of_spaced(parts: Seq<Seq<char>>, spacing: Spacing)
    requires
        all_words(parts, spacing),
    ensures
        words(join(parts, seq![' ']), spacing) == parts,
    decreases parts.len(),
{
    if parts.len() == 0 {
    } else if parts.len() == 1 {
        lemma_words_of_word(parts[0], spacing);
        assert(parts == seq![parts[0]]);
    } else {
        let init = parts.drop_last();
        assert forall|i: int| 0 <= i < init.len() implies is_word(#[trigger] init[i], spacing) by {
            assert(init[i] == parts[i]);
        }
        lemma_words_of_spaced(init, spacing);
        lemma_words_of_word(parts.last(), spacing);
        lemma_words_around(join(init, seq![' ']), ' ', parts.last(), spacing);
        assert(init + seq![parts.last()] == parts);
    }
}

/// Each of the words that say `m` is a word.
#[verifier::rlimit(60)]
pub proof fn lemma_said_are_words(m: InfoMoveView)
    requires
        InfoMove::reads_back(m),
    ensures
        all_words(InfoMove::said(m), Spacing::Unicode),
{
    let tokens = InfoMove::said(m);
    let pairs = InfoMove::said_in_pairs(m);
    let n = m.pv.len() as int;
    reveal_strlit("move");
    reveal_strlit("visits");
    reveal_strlit("winrate");
    reveal_strlit("scoreMean");
    reveal_strlit("scoreStdev");
    reveal_strlit("scoreLead");
    reveal_strlit("scoreSelfplay");
    reveal_strlit("prior");
    reveal_strlit("utility");
    reveal_strlit("lcb");
    reveal_strlit("utilityLcb");
    reveal_strlit("order");
    reveal_strlit("isSymmetryOf");
    reveal_strlit("pv");
    reveal_strlit("pvVisits");
    lemma_vertex_plain(m.coord);
    lemma_plain(Vertex::encoded(m.coord));
    lemma_numeral_plain(m.visits as nat);
    lemma_plain(numeral(m.visits as nat));
    lemma_numeral_plain(m.order as nat);
    lemma_plain(numeral(m.order as nat));
    lemma_float_is_word(m.winrate);
    lemma_float_is_word(m.score_mean);
    lemma_float_is_word(m.score_stdev);
    lemma_float_is_word(m.score_lead);
    lemma_float_is_word(m.score_selfplay);
    lemma_float_is_word(m.prior);
    lemma_float_is_word(m.utility);
    lemma_float_is_word(m.lcb);
    lemma_float_is_word(m.utility_lcb);
    assert(pairs.len() == 24);
    assert forall|i: int| 0 <= i < 24 implies is_word(#[trigger] pairs[i], Spacing::Unicode) by {
        if i == 0 {
            assert(pairs[0] == "move"@);
        }
        if i == 2 {
            assert(pairs[2] == "visits"@);
        }
        if i == 4 {
            assert(pairs[4] == "winrate"@);
        }
        if i == 6 {
            assert(pairs[6] == "scoreMean"@);
        }
        if i == 8 {
            assert(pairs[8] == "scoreStdev"@);
        }
        if i == 10 {
            assert(pairs[10] == "scoreLead"@);
        }
        if i == 12 {
            assert(pairs[12] == "scoreSelfplay"@);
        }
        if i == 14 {
            assert(pairs[14] == "prior"@);
        }
        if i == 16 {
            assert(pairs[16] == "utility"@);
        }
        if i == 18 {
            assert(pairs[18] == "lcb"@);
        }
        if i == 20 {
            assert(pairs[20] == "utilityLcb"@);
        }
        if i == 22 {
            assert(pairs[22] == "order"@);
        }
    }
    assert forall|i: int| 0 <= i < tokens.len() implies is_word(
        #[trigger] tokens[i],
        Spacing::Unicode,
    ) by {
        if i < 24 {
            assert(tokens[i] == pairs[i]);
        } else if i == 24 {
            assert(tokens[i] == "pv"@);
        } else if i < 25 + n {
            assert(tokens[i] == Vertex::encoded(m.pv[i - 25]));
            lemma_vertex_plain(m.pv[i - 25]);
            lemma_plain(tokens[i]);
        } else if i == 25 + n {
            assert(tokens[i] == "pvVisits"@);
        } else {
            let v = m.pv_visits[i - 26 - n];
            assert(tokens[i] == numeral(v as nat));
            lemma_numeral_plain(v as nat);
            lemma_plain(tokens[i]);
        }
    }
}

/// Decoding the block that says a move in full gives the move back, with
/// all that was found for it.
pub proof fn lemma_written_block_decodes(m: InfoMoveView)
    requires
        InfoMove::reads_back(m),
    ensures
        InfoMove::decoded(InfoMove::written(m)) == Ok::<InfoMoveView, ParseError>(m),
{
    let tokens = InfoMove::said(m);
    lemma_said_are_words(m);
    lemma_words_of_spaced(tokens, Spacing::Unicode);
    lemma_words_around(Seq::empty(), ' ', join(tokens, seq![' ']), Spacing::Unicode);
    assert(Seq::<char>::empty() + seq![' '] + join(tokens, seq![' ']) == InfoMove::written(m));
    assert(words(Seq::<char>::empty(), Spacing::Unicode) == Seq::<Seq<char>>::empty());
    assert(Seq::<Seq<char>>::empty() + tokens == tokens);
    lemma_said_is_read(m);
}


/// Whether a text holds neither `fo` nor `wn`: it can hold neither
/// `info` nor the marker of ownership then.
pub open spec fn is_quiet(s: Seq<char>) -> bool {
    lacks_pair(s, 'f', 'o') && lacks_pair(s, 'w', 'n')
}

/// None of the words that say `m` holds `fo` or `wn`.
#[verifier::rlimit(80)]
pub proof fn lemma_said_are_quiet(m: InfoMoveView)
    requires
        InfoMove::reads_back(m),
    ensures
        forall|i: int| 0 <= i < InfoMove::said(m).len() ==> is_quiet(#[trigger] InfoMove::said(m)[i]),
{
    let tokens = InfoMove::said(m);
    let pairs = InfoMove::said_in_pairs(m);
    let n = m.pv.len() as int;
    reveal_strlit("move");
    reveal_strlit("visits");
    reveal_strlit("winrate");
    reveal_strlit("scoreMean");
    reveal_strlit("scoreStdev");
    reveal_strlit("scoreLead");
    reveal_strlit("scoreSelfplay");
    reveal_strlit("prior");
    reveal_strlit("utility");
    reveal_strlit("lcb");
    reveal_strlit("utilityLcb");
    reveal_strlit("order");
    reveal_strlit("pv");
    reveal_strlit("pvVisits");
    assert(pairs.len() == 24);
    assert forall|i: int| 0 <= i < 24 implies is_quiet(#[trigger] pairs[i]) by {
        if i == 0 {
            assert(pairs[0] == "move"@);
        }
        if i == 2 {
            assert(pairs[2] == "visits"@);
        }
        if i == 4 {
            assert(pairs[4] == "winrate"@);
        }
        if i == 6 {
            assert(pairs[6] == "scoreMean"@);
        }
        if i == 8 {
            assert(pairs[8] == "scoreStdev"@);
        }
        if i == 10 {
            assert(pairs[10] == "scoreLead"@);
        }
        if i == 12 {
            assert(pairs[12] == "scoreSelfplay"@);
        }
        if i == 14 {
            assert(pairs[14] == "prior"@);
        }
        if i == 16 {
            assert(pairs[16] == "utility"@);
        }
        if i == 18 {
            assert(pairs[18] == "lcb"@);
        }
        if i == 20 {
            assert(pairs[20] == "utilityLcb"@);
        }
        if i == 22 {
            assert(pairs[22] == "order"@);
        }
        if i == 1 {
            lemma_vertex_plain(m.coord);
        }
        if i == 3 {
            lemma_numeral_plain(m.visits as nat);
        }
        if i == 23 {
            lemma_numeral_plain(m.order as nat);
        }
        if i == 5 {
            assert(pairs[5] == m.winrate);
            lemma_float_lacks_letters(m.winrate);
        }
        if i == 7 {
            assert(pairs[7] == m.score_mean);
            lemma_float_lacks_letters(m.score_mean);
        }
        if i == 9 {
            assert(pairs[9] == m.score_stdev);
            lemma_float_lacks_letters(m.score_stdev);
        }
        if i == 11 {
            assert(pairs[11] == m.score_lead);
            lemma_float_lacks_letters(m.score_lead);
        }
        if i == 13 {
            assert(pairs[13] == m.score_selfplay);
            lemma_float_lacks_letters(m.score_selfplay);
        }
        if i == 15 {
            assert(pairs[15] == m.prior);
            lemma_float_lacks_letters(m.prior);
        }
        if i == 17 {
            assert(pairs[17] == m.utility);
            lemma_float_lacks_letters(m.utility);
        }
        if i == 19 {
            assert(pairs[19] == m.lcb);
            lemma_float_lacks_letters(m.lcb);
        }
        if i == 21 {
            assert(pairs[21] == m.utility_lcb);
            lemma_float_lacks_letters(m.utility_lcb);
        }
    }
    assert forall|i: int| 0 <= i < tokens.len() implies is_quiet(#[trigger] tokens[i]) by {
        if i < 24 {
            assert(tokens[i] == pairs[i]);
        } else if i == 24 {
            assert(tokens[i] == "pv"@);
        } else if i < 25 + n {
            assert(tokens[i] == Vertex::encoded(m.pv[i - 25]));
            lemma_vertex_plain(m.pv[i - 25]);
        } else if i == 25 + n {
            assert(tokens[i] == "pvVisits"@);
        } else {
            let v = m.pv_visits[i - 26 - n];
            assert(tokens[i] == numeral(v as nat));
            lemma_numeral_plain(v as nat);
        }
    }
}

/// The block that says a move in full starts with a space and holds
/// neither `info` nor `fo` nor `wn`.
pub proof fn lemma_written_is_quiet(m: InfoMoveView)
    requires
        InfoMove::reads_back(m),
    ensures
        is_quiet(InfoMove::written(m)),
        InfoMove::written(m).len() > 0,
        InfoMove::written(m)[0] == ' ',
        crate::text::find(InfoMove::written(m), "info"@).is_none(),
{
    let tokens = InfoMove::said(m);
    lemma_said_are_quiet(m);
    lemma_join_lacks_pair(tokens, 'f', 'o');
    lemma_join_lacks_pair(tokens, 'w', 'n');
    lemma_concat_lacks_pair(seq![' '], join(tokens, seq![' ']), 'f', 'o');
    lemma_concat_lacks_pair(seq![' '], join(tokens, seq![' ']), 'w', 'n');
    reveal_strlit("info");
    lemma_no_pair_no_find(InfoMove::written(m), "info"@, 2, 'f', 'o');
}

/// The blocks that say each of `moves` in full.
pub open spec fn written_all(moves: Seq<InfoMoveView>) -> Seq<Seq<char>> {
    Seq::new(moves.len(), |j: int| InfoMove::written(moves[j]))
}

/// The part on moves that is made of blocks written in full holds no
/// `wn`, and so no marker of ownership.
pub proof fn lemma_blocks_are_quiet(moves: Seq<InfoMoveView>)
    requires
        forall|j: int| 0 <= j < moves.len() ==> InfoMove::reads_back(#[trigger] moves[j]),
    ensures
        lacks_pair(blocks_text(written_all(moves)), 'w', 'n'),
        crate::text::find(blocks_text(written_all(moves)), "ownership "@).is_none(),
    decreases moves.len(),
{
    let blocks = written_all(moves);
    reveal_strlit("info");
    reveal_strlit("ownership ");
    if moves.len() > 0 {
        let init = moves.drop_last();
        assert forall|j: int| 0 <= j < init.len() implies InfoMove::reads_back(
            #[trigger] init[j],
        ) by {
            assert(init[j] == moves[j]);
        }
        lemma_blocks_are_quiet(init);
        assert(blocks.drop_last() == written_all(init));
        assert(blocks.last() == InfoMove::written(moves.last()));
        lemma_written_is_quiet(moves.last());
        let word = "info"@;
        assert(word[0] == 'i' && word[1] == 'n' && word[2] == 'f' && word[3] == 'o');
        assert(lacks_pair(word, 'w', 'n'));
        lemma_concat_lacks_pair(blocks_text(written_all(init)), word, 'w', 'n');
        lemma_concat_lacks_pair(blocks_text(written_all(init)) + word, blocks.last(), 'w', 'n');
    }
    lemma_no_pair_no_find(blocks_text(blocks), "ownership "@, 1, 'w', 'n');
}

/// A line of analysis that says moves in full, and numbers on ownership,
/// decodes to these moves and these numbers, in their order.
pub proof fn lemma_analysis_round_trip(moves: Seq<InfoMoveView>, ownership: Option<Seq<char>>)
    requires
        moves.len() >= 1,
        forall|j: int| 0 <= j < moves.len() ==> InfoMove::reads_back(#[trigger] moves[j]),
        match ownership {
            Some(o) => forall|k: int|
                0 <= k < words(o, Spacing::Ascii).len() ==> is_float(
                    #[trigger] words(o, Spacing::Ascii)[k],
                ),
            None => true,
        },
    ensures
        Info::decoded(line_of(written_all(moves), ownership)) == Ok::<InfoView, ParseError>(
            InfoView {
                explored_moves: moves,
                ownership: match ownership {
                    Some(o) => words(o, Spacing::Ascii),
                    None => Seq::empty(),
                },
            },
        ),
{
    let blocks = written_all(moves);
    assert forall|j: int| 0 <= j < blocks.len() implies InfoMove::decoded(
        #[trigger] blocks[j],
    ) == Ok::<InfoMoveView, ParseError>(moves[j]) && crate::text::find(
        blocks[j],
        "info"@,
    ).is_none() by {
        lemma_written_block_decodes(moves[j]);
        lemma_written_is_quiet(moves[j]);
    }
    lemma_blocks_are_quiet(moves);
    lemma_analysis_decodes(blocks, ownership);
    let info = Info::decoded(line_of(blocks, ownership)).unwrap();
    assert forall|j: int| 0 <= j < moves.len() implies info.explored_moves[j] == moves[j] by {
        assert(InfoMove::decoded(blocks[j]) == Ok::<InfoMoveView, ParseError>(moves[j]));
        assert(InfoMove::decoded(blocks[j]) == Ok::<InfoMoveView, ParseError>(
            info.explored_moves[j],
        ));
    }
    assert(info.explored_moves =~= moves);
}

} // verus!
