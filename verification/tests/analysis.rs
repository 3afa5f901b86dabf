use gtp_client::controller::decode_info;
use gtp_client::model::{Info, InfoMove, ParseError, Vertex};

#[test]
fn one_block_of_analysis() {
    let m = InfoMove::from_str(
        " move Q16 visits 120 utility 0.01 winrate 0.47 scoreMean -0.5 scoreStdev 12.1 \
         scoreLead -0.5 scoreSelfplay -0.6 prior 0.12 lcb 0.45 utilityLcb 0.005 order 0 \
         pv Q16 D4 pass pvVisits 120 40 7 ",
    )
    .unwrap();
    assert_eq!(m.coord, Vertex::Coord(16, 16));
    assert_eq!(m.visits, 120);
    assert_eq!(m.utility.as_str(), "0.01");
    assert_eq!(m.winrate.as_str(), "0.47");
    assert_eq!(m.score_mean.as_str(), "-0.5");
    assert_eq!(m.score_stdev.as_str(), "12.1");
    assert_eq!(m.score_lead.as_str(), "-0.5");
    assert_eq!(m.score_selfplay.as_str(), "-0.6");
    assert_eq!(m.prior.as_str(), "0.12");
    assert_eq!(m.lcb.as_str(), "0.45");
    assert_eq!(m.utility_lcb.as_str(), "0.005");
    assert_eq!(m.order, 0);
    assert_eq!(m.pv, vec![Vertex::Coord(16, 16), Vertex::Coord(4, 4), Vertex::Pass]);
    assert_eq!(m.pv_visits, vec![120, 40, 7]);
    let value: f32 = m.winrate.as_str().parse().unwrap();
    assert_eq!(value, 0.47);
}

#[test]
fn a_block_starts_blank() {
    let m = InfoMove::from_str("").unwrap();
    assert_eq!(m.coord, Vertex::Pass);
    assert_eq!(m.visits, 0);
    assert_eq!(m.winrate.as_str(), "0");
    assert_eq!(m.order, 0);
    assert!(m.pv.is_empty());
    assert!(m.pv_visits.is_empty());
}

#[test]
fn the_play_stops_at_the_counts() {
    let m = InfoMove::from_str("pv A1 B2 C3 pvVisits 3 2 1").unwrap();
    assert_eq!(m.pv.len(), 3);
    assert_eq!(m.pv_visits, vec![3, 2, 1]);
    let m = InfoMove::from_str("pv A1 B2").unwrap();
    assert_eq!(m.pv.len(), 2);
    assert!(m.pv_visits.is_empty());
    let m = InfoMove::from_str("pv pvVisits").unwrap();
    assert!(m.pv.is_empty());
    assert!(m.pv_visits.is_empty());
    let m = InfoMove::from_str("pv A1 move B2").unwrap_err();
    assert_eq!(m, ParseError::WrongCoordinates);
    let m = InfoMove::from_str("pvVisits 1 2 x").unwrap_err();
    assert_eq!(m, ParseError::WrongArgs);
    let m = InfoMove::from_str("pv A1 pvVisits 1 pv B2").unwrap_err();
    assert_eq!(m, ParseError::WrongArgs);
}

#[test]
fn keys_and_values() {
    let m = InfoMove::from_str("isSymmetryOf A1 order 3").unwrap();
    assert_eq!(m.order, 3);
    let m = InfoMove::from_str("order 3 isSymmetryOf").unwrap();
    assert_eq!(m.order, 3);
    let m = InfoMove::from_str("move\u{a0}c3\u{2003}visits\u{3000}5").unwrap();
    assert_eq!(m.coord, Vertex::Coord(3, 3));
    assert_eq!(m.visits, 5);
    assert_eq!(InfoMove::from_str("weight 3").unwrap_err(), ParseError::WrongAlternative);
    assert_eq!(InfoMove::from_str("Move A1").unwrap_err(), ParseError::WrongAlternative);
    assert_eq!(InfoMove::from_str("move").unwrap_err(), ParseError::EmptyString);
    assert_eq!(InfoMove::from_str("move Z9").unwrap_err(), ParseError::WrongCoordinates);
    assert_eq!(InfoMove::from_str("visits").unwrap_err(), ParseError::WrongArgs);
    assert_eq!(InfoMove::from_str("visits -1").unwrap_err(), ParseError::WrongArgs);
    assert_eq!(
        InfoMove::from_str("visits 18446744073709551616").unwrap_err(),
        ParseError::WrongArgs
    );
    assert_eq!(InfoMove::from_str("order 65536").unwrap_err(), ParseError::WrongArgs);
    assert_eq!(InfoMove::from_str("order 65535").unwrap().order, 65535);
    assert_eq!(InfoMove::from_str("winrate").unwrap_err(), ParseError::WrongArgs);
    assert_eq!(InfoMove::from_str("winrate half").unwrap_err(), ParseError::WrongArgs);
    assert_eq!(InfoMove::from_str("prior 0.5 lcb x").unwrap_err(), ParseError::WrongArgs);
}

#[test]
fn a_line_of_analysis() {
    let info = Info::from_str(
        "info move D4 visits 10 winrate 0.5 pv D4 Q16 pvVisits 10 4 \
         info move Q16 visits 7 winrate 0.49 order 1 pv Q16 \
         ownership 0.5 -0.25 1 0 -1e-3",
    )
    .unwrap();
    assert_eq!(info.explored_moves.len(), 2);
    assert_eq!(info.explored_moves[0].coord, Vertex::Coord(4, 4));
    assert_eq!(info.explored_moves[0].pv_visits, vec![10, 4]);
    assert_eq!(info.explored_moves[1].coord, Vertex::Coord(16, 16));
    assert_eq!(info.explored_moves[1].order, 1);
    assert_eq!(info.explored_moves[1].pv, vec![Vertex::Coord(16, 16)]);
    let ownership: Vec<&str> = info.ownership.iter().map(|f| f.as_str()).collect();
    assert_eq!(ownership, vec!["0.5", "-0.25", "1", "0", "-1e-3"]);
    let values: Vec<f32> = ownership.iter().map(|t| t.parse().unwrap()).collect();
    assert_eq!(values, vec![0.5, -0.25, 1.0, 0.0, -0.001]);
}

#[test]
fn ownership_has_one_number_for_each_word() {
    for n in 0..40usize {
        let mut line = String::from("info move A1 ownership ");
        for i in 0..n {
            line.push_str(&format!("{}.5 ", i));
        }
        let info = Info::from_str(&line).unwrap();
        assert_eq!(info.ownership.len(), n);
    }
    assert_eq!(
        Info::from_str("info move A1 ownership 0.5 x").unwrap_err(),
        ParseError::WrongArgs
    );
}

#[test]
fn lines_without_blocks() {
    assert_eq!(Info::from_str("anything at all").unwrap_err(), ParseError::WrongAlternative);
    assert_eq!(Info::from_str("? syntax error").unwrap_err(), ParseError::WrongAlternative);
    assert_eq!(
        Info::from_str("lead info move A1").unwrap_err(),
        ParseError::WrongAlternative
    );
    assert_eq!(Info::from_str(" info move A1").unwrap_err(), ParseError::WrongAlternative);
    let info = Info::from_str("info move A1").unwrap();
    assert_eq!(info.explored_moves.len(), 1);
    let info = Info::from_str("info").unwrap();
    assert_eq!(info.explored_moves.len(), 1);
    assert_eq!(info.explored_moves[0].visits, 0);
    assert_eq!(Info::from_str("").unwrap_err(), ParseError::EmptyString);
    assert_eq!(Info::from_str("ownership 0.5").unwrap_err(), ParseError::EmptyString);
    assert_eq!(Info::from_str("info move A1 ownership").unwrap_err(), ParseError::WrongAlternative);
    assert_eq!(Info::from_str("info information").unwrap_err(), ParseError::WrongAlternative);
    let info = Info::new();
    assert!(info.explored_moves.is_empty());
    assert!(info.ownership.is_empty());
}

#[test]
fn the_line_that_is_kept_is_decoded() {
    assert!(decode_info("").unwrap().is_none());
    let info = decode_info("info move C3 visits 9").unwrap().unwrap();
    assert_eq!(info.explored_moves[0].visits, 9);
    assert_eq!(decode_info("= 4").unwrap_err(), ParseError::WrongAnswerFormat);
    assert_eq!(decode_info("?1 info x").unwrap_err(), ParseError::WrongAnswerFormat);
    assert_eq!(decode_info("info x").unwrap_err(), ParseError::WrongAnswerFormat);
}

#[test]
fn every_line_made_of_blocks_decodes() {
    let blocks = [
        " move D4 visits 10 winrate 0.5 pv D4 Q16 pvVisits 10 4 ",
        " move Q16 visits 7 order 1 ",
        "",
        " move pass prior inf ",
    ];
    for n in 1..=blocks.len() {
        for k in 0..5usize {
            let mut line = String::new();
            for b in &blocks[..n] {
                line.push_str("info");
                line.push_str(b);
            }
            let without = Info::from_str(&line).unwrap();
            assert_eq!(without.explored_moves.len(), n);
            assert!(without.ownership.is_empty());
            line.push_str("ownership ");
            let mut numbers: Vec<String> = Vec::new();
            for i in 0..k {
                numbers.push(format!("-{}.25", i));
                line.push_str(&format!(" -{}.25\t", i));
            }
            let info = Info::from_str(&line).unwrap();
            assert_eq!(info.explored_moves.len(), n);
            assert_eq!(info.ownership.len(), k);
            for i in 0..k {
                assert_eq!(info.ownership[i].as_str(), numbers[i]);
                let value: f32 = info.ownership[i].as_str().parse().unwrap();
                assert_eq!(value, -(i as f32) - 0.25);
            }
            for j in 0..n {
                let alone = InfoMove::from_str(blocks[j]).unwrap();
                assert_eq!(format!("{:?}", info.explored_moves[j]), format!("{:?}", alone));
            }
        }
    }
}
