use gtp_client::model::{
    Boolean, Collection, Color, Entity, List, Move, ParseError, Score, SimpleEntity, Vertex,
};
use gtp_client::number::Float;

#[test]
fn vertex_letters_skip_i() {
    let letters = "ABCDEFGHJKLMNOPQRST";
    for (i, letter) in letters.chars().enumerate() {
        let column = (i + 1) as u8;
        let text = Vertex::Coord(column, 7).to_string();
        assert_eq!(text, format!("{}7", letter));
    }
    for column in 0..=255u8 {
        for row in [0u8, 1, 9, 10, 19, 255] {
            let text = Vertex::Coord(column, row).to_string();
            assert!(!text.contains('I'), "{}", text);
        }
    }
}

#[test]
fn vertex_round_trip() {
    for column in 1..=19u8 {
        for row in 0..=255u8 {
            let v = Vertex::Coord(column, row);
            assert!(v.is_valid());
            assert_eq!(Vertex::from_str(&v.to_string()), Ok(v));
        }
    }
    assert_eq!(Vertex::from_str(&Vertex::Pass.to_string()), Ok(Vertex::Pass));
    assert_eq!(Vertex::from_str(&Vertex::Resign.to_string()), Ok(Vertex::Resign));
    assert_eq!(Vertex::Pass.to_string(), "PASS");
    assert_eq!(Vertex::Resign.to_string(), "RESIGN");
}

#[test]
fn vertex_decoding() {
    assert_eq!(Vertex::from_str("a1"), Ok(Vertex::Coord(1, 1)));
    assert_eq!(Vertex::from_str("h8"), Ok(Vertex::Coord(8, 8)));
    assert_eq!(Vertex::from_str("I5"), Err(ParseError::WrongCoordinates));
    assert_eq!(Vertex::from_str("i19"), Err(ParseError::WrongCoordinates));
    assert_eq!(Vertex::from_str("h5"), Ok(Vertex::Coord(8, 5)));
    assert_eq!(Vertex::from_str("j5"), Ok(Vertex::Coord(9, 5)));
    assert_eq!(Vertex::from_str("T19"), Ok(Vertex::Coord(19, 19)));
    assert_eq!(Vertex::from_str("A+5"), Ok(Vertex::Coord(1, 5)));
    assert_eq!(Vertex::from_str("A007"), Ok(Vertex::Coord(1, 7)));
    assert_eq!(Vertex::from_str("A255"), Ok(Vertex::Coord(1, 255)));
    assert_eq!(Vertex::from_str("pass"), Ok(Vertex::Pass));
    assert_eq!(Vertex::from_str("Resign"), Ok(Vertex::Resign));
    assert_eq!(Vertex::from_str(""), Err(ParseError::EmptyString));
    assert_eq!(Vertex::from_str("A"), Err(ParseError::WrongCoordinates));
    assert_eq!(Vertex::from_str("A256"), Err(ParseError::WrongCoordinates));
    assert_eq!(Vertex::from_str("U1"), Err(ParseError::WrongCoordinates));
    assert_eq!(Vertex::from_str("@1"), Err(ParseError::WrongCoordinates));
    assert_eq!(Vertex::from_str("19"), Err(ParseError::WrongCoordinates));
    assert_eq!(Vertex::from_str(" A1"), Err(ParseError::WrongCoordinates));
    assert_eq!(Vertex::from_str("A1 "), Err(ParseError::WrongCoordinates));
    assert_eq!(Vertex::from_str("A-1"), Err(ParseError::WrongCoordinates));
    assert_eq!(Vertex::from_str("\u{e9}1"), Err(ParseError::WrongCoordinates));
}

#[test]
fn vertex_validity_and_parts() {
    assert!(!Vertex::Coord(0, 1).is_valid());
    assert!(!Vertex::Coord(20, 1).is_valid());
    assert!(Vertex::Coord(19, 0).is_valid());
    assert!(Vertex::Pass.is_valid());
    assert_eq!(Vertex::Coord(3, 4).to_tupple(), Some((3, 4)));
    assert_eq!(Vertex::Pass.to_tupple(), None);
    assert_eq!(Vertex::Resign.to_tupple(), None);
    assert!(Vertex::Coord(3, 4).eq_str("c4"));
    assert!(!Vertex::Coord(3, 4).eq_str("c5"));
    assert!(Vertex::Pass.eq_str("pass"));
}

#[test]
fn color_decoding_and_text() {
    for text in ["b", "B", "black", "BLACK", "Black"] {
        assert_eq!(Color::from_str(text), Ok(Color::Black));
    }
    for text in ["w", "W", "white", "WHITE", "wHiTe"] {
        assert_eq!(Color::from_str(text), Ok(Color::White));
    }
    assert_eq!(Color::from_str(""), Err(ParseError::EmptyString));
    assert_eq!(Color::from_str("x"), Err(ParseError::WrongColor));
    assert_eq!(Color::from_str("blac"), Err(ParseError::WrongColor));
    assert_eq!(Color::from_str(" b"), Err(ParseError::WrongColor));
    assert_eq!(Color::Black.to_string(), "B");
    assert_eq!(Color::White.to_string(), "W");
    assert!(Color::White.eq_str("w"));
    assert!(!Color::White.eq_str("white"));
    assert_eq!(Color::from_str(&Color::Black.to_string()), Ok(Color::Black));
    assert_eq!(Color::from_str(&Color::White.to_string()), Ok(Color::White));
}

#[test]
fn move_decoding_and_text() {
    let m = Move { color: Color::White, vertex: Vertex::Coord(2, 2) };
    assert_eq!(m.to_string(), "W B2");
    assert_eq!(Move::from_str("W B2"), Ok(m));
    assert_eq!(Move::from_str("  white \t b2 and more"), Ok(m));
    assert_eq!(
        Move::from_str("b pass"),
        Ok(Move { color: Color::Black, vertex: Vertex::Pass })
    );
    assert_eq!(Move::from_str(""), Err(ParseError::EmptyString));
    assert_eq!(Move::from_str("   "), Err(ParseError::EmptyString));
    assert_eq!(Move::from_str("B"), Err(ParseError::EmptyString));
    assert_eq!(Move::from_str("x A1"), Err(ParseError::WrongColor));
    assert_eq!(Move::from_str("B Z1"), Err(ParseError::WrongCoordinates));
    assert!(m.eq_str("w b2"));
    assert!(m.is_valid());
    for color in [Color::Black, Color::White] {
        for vertex in [Vertex::Coord(1, 1), Vertex::Coord(19, 19), Vertex::Pass, Vertex::Resign] {
            let m = Move { color, vertex };
            assert_eq!(Move::from_str(&m.to_string()), Ok(m));
        }
    }
}

#[test]
fn simple_entity_tries_vertex_colour_move() {
    assert_eq!(
        SimpleEntity::from_str("a1"),
        Ok(SimpleEntity::Vertex(Vertex::Coord(1, 1)))
    );
    assert_eq!(SimpleEntity::from_str("b"), Ok(SimpleEntity::Color(Color::Black)));
    assert_eq!(SimpleEntity::from_str("w"), Ok(SimpleEntity::Color(Color::White)));
    assert_eq!(
        SimpleEntity::from_str("b a1"),
        Ok(SimpleEntity::Move(Move { color: Color::Black, vertex: Vertex::Coord(1, 1) }))
    );
    assert_eq!(SimpleEntity::from_str("pass"), Ok(SimpleEntity::Vertex(Vertex::Pass)));
    assert_eq!(SimpleEntity::from_str(""), Err(ParseError::WrongSimpleEntity));
    assert_eq!(SimpleEntity::from_str("hello"), Err(ParseError::WrongSimpleEntity));
    let e = SimpleEntity::Move(Move { color: Color::White, vertex: Vertex::Coord(9, 3) });
    assert_eq!(e.to_string(), "W J3");
    assert_eq!(SimpleEntity::from_str(&e.to_string()), Ok(e));
    assert_eq!(e.as_move(), Some(Move { color: Color::White, vertex: Vertex::Coord(9, 3) }));
    assert_eq!(e.as_vertex(), None);
    assert_eq!(e.as_color(), None);
    assert_eq!(SimpleEntity::Color(Color::Black).as_color(), Some(Color::Black));
    assert_eq!(SimpleEntity::Vertex(Vertex::Pass).as_vertex(), Some(Vertex::Pass));
    assert_eq!(SimpleEntity::from(Vertex::Pass), SimpleEntity::Vertex(Vertex::Pass));
    assert_eq!(SimpleEntity::from(Color::White), SimpleEntity::Color(Color::White));
}

#[test]
fn boolean_ignores_case() {
    for text in ["true", "TRUE", "True", "tRuE"] {
        assert_eq!(Boolean::from_str(text), Ok(Boolean::True));
    }
    for text in ["false", "FALSE", "False", "fAlSe"] {
        assert_eq!(Boolean::from_str(text), Ok(Boolean::False));
    }
    assert_eq!(Boolean::from_str(""), Err(ParseError::WrongBool));
    assert_eq!(Boolean::from_str("yes"), Err(ParseError::WrongBool));
    assert_eq!(Boolean::from_str("true "), Err(ParseError::WrongBool));
    assert_eq!(Boolean::True.to_string(), "true");
    assert_eq!(Boolean::False.to_string(), "false");
}

#[test]
fn score_decoding() {
    for text in ["0", "W+3.5", "B+0.5", "B+12", "W+.5", "B+5.", "W+1e3", "B+inf", "W+Infinity"] {
        let score = Score::from_str(text).unwrap();
        assert_eq!(score.to_string(), text);
        assert!(score.is_valid());
    }
    assert_eq!(Score::from_str("").unwrap_err(), ParseError::EmptyString);
    assert_eq!(Score::from_str("X+3.5").unwrap_err(), ParseError::WrongColor);
    assert_eq!(Score::from_str("w+3.5").unwrap_err(), ParseError::WrongColor);
    assert_eq!(Score::from_str("+3.5").unwrap_err(), ParseError::WrongColor);
    assert_eq!(Score::from_str("3.5").unwrap_err(), ParseError::WrongColor);
    assert_eq!(Score::from_str("00").unwrap_err(), ParseError::WrongColor);
    assert_eq!(Score::from_str("W").unwrap_err(), ParseError::WrongScore);
    assert_eq!(Score::from_str("B").unwrap_err(), ParseError::WrongScore);
    assert_eq!(Score::from_str("W+3+5").unwrap_err(), ParseError::WrongScore);
    assert_eq!(Score::from_str("W+1e+3").unwrap_err(), ParseError::WrongScore);
    assert_eq!(Score::from_str("W+").unwrap_err(), ParseError::WrongArgs);
    assert_eq!(Score::from_str("W+abc").unwrap_err(), ParseError::WrongArgs);
    assert_eq!(Score::from_str("W+3.5\n").unwrap_err(), ParseError::WrongArgs);
    assert_eq!(Score::from_str("W+-3.5").unwrap_err(), ParseError::WrongScore);
    assert_eq!(Score::from_str("W+nan").unwrap_err(), ParseError::WrongScore);
}

#[test]
fn collection_keeps_order() {
    let c = Collection::from_str("b a1 PASS w").unwrap();
    assert_eq!(c.len(), 4);
    assert_eq!(c.get(0), SimpleEntity::Color(Color::Black));
    assert_eq!(c.get(1), SimpleEntity::Vertex(Vertex::Coord(1, 1)));
    assert_eq!(c.get(2), SimpleEntity::Vertex(Vertex::Pass));
    assert_eq!(c.get(3), SimpleEntity::Color(Color::White));
    assert_eq!(c.to_string(), "B A1 PASS W");
    assert!(c.is_valid());
    let again = Collection::from_str(&c.to_string()).unwrap();
    assert_eq!(again.inner(), c.inner());
    assert_eq!(Collection::from_str("").unwrap().len(), 0);
    assert_eq!(Collection::new().to_string(), "");
    assert_eq!(Collection::default().len(), 0);
    assert_eq!(
        Collection::from_str("b 10").unwrap_err(),
        ParseError::WrongSimpleEntity
    );
}

#[test]
fn collection_is_a_sequence() {
    let mut c = Collection::new();
    c.push(SimpleEntity::Color(Color::Black));
    c.push(SimpleEntity::Vertex(Vertex::Coord(4, 4)));
    c.push(SimpleEntity::Color(Color::White));
    assert_eq!(c.remove(1), SimpleEntity::Vertex(Vertex::Coord(4, 4)));
    assert_eq!(c.to_string(), "B W");
    c.mut_inner().push(SimpleEntity::Vertex(Vertex::Resign));
    assert_eq!(c.inner().len(), 3);
    for e in c.iter_mut() {
        if let SimpleEntity::Color(Color::Black) = e {
            *e = SimpleEntity::Color(Color::White);
        }
    }
    assert_eq!(c.to_string(), "W W RESIGN");
    *c.get_mut(0) = SimpleEntity::Color(Color::Black);
    let seen: Vec<String> = c.iter().map(|e| e.to_string()).collect();
    assert_eq!(seen, vec!["B", "W", "RESIGN"]);
    assert_eq!(c[2], SimpleEntity::Vertex(Vertex::Resign));
    assert_eq!(c.into_vec().len(), 3);
}

#[test]
fn list_of_vertices() {
    let l = List::<Vertex>::from_str("a1 b2\tpass\n").unwrap();
    assert_eq!(l.inner(), &vec![Vertex::Coord(1, 1), Vertex::Coord(2, 2), Vertex::Pass]);
    assert_eq!(l.to_string(), "A1 B2 PASS");
    let again = List::<Vertex>::from_str(&l.to_string()).unwrap();
    assert_eq!(again.inner(), l.inner());
    assert_eq!(List::<Vertex>::from_str("").unwrap().len(), 0);
    assert_eq!(
        List::<Vertex>::from_str("a1\nb2\n").unwrap_err(),
        ParseError::WrongArgs
    );
    assert_eq!(
        List::<Vertex>::from_str("a1 zz").unwrap_err(),
        ParseError::WrongCoordinates
    );
    assert_eq!(
        List::<Vertex>::from_str("zz a").unwrap_err(),
        ParseError::WrongCoordinates
    );
}

#[test]
fn list_fails_as_a_whole() {
    assert!(List::<Vertex>::from_str("a1 b2 c3 d4 e5 f6 g7 h8 i9 x").is_err());
    assert!(List::<Color>::from_str("b w b w x").is_err());
    assert_eq!(List::<Color>::from_str("b w").unwrap().len(), 2);
}

#[test]
fn list_of_moves_takes_two_words_for_each() {
    assert_eq!(List::<Move>::from_str("").unwrap().len(), 0);
    let l = List::<Move>::from_str("B D4").unwrap();
    assert_eq!(l.inner(), &vec![Move { color: Color::Black, vertex: Vertex::Coord(4, 4) }]);
    let l = List::<Move>::from_str(" b d4  white q16\tb pass").unwrap();
    assert_eq!(
        l.inner(),
        &vec![
            Move { color: Color::Black, vertex: Vertex::Coord(4, 4) },
            Move { color: Color::White, vertex: Vertex::Coord(16, 16) },
            Move { color: Color::Black, vertex: Vertex::Pass },
        ]
    );
    assert_eq!(l.to_string(), "B D4 W Q16 B PASS");
    let again = List::<Move>::from_str(&l.to_string()).unwrap();
    assert_eq!(again.inner(), l.inner());
    assert_eq!(List::<Move>::from_str("b").unwrap_err(), ParseError::EmptyString);
    assert_eq!(List::<Move>::from_str("b d4 w").unwrap_err(), ParseError::EmptyString);
    assert_eq!(List::<Move>::from_str("b d4 x q16").unwrap_err(), ParseError::WrongColor);
    assert_eq!(List::<Move>::from_str("b d4 w zz").unwrap_err(), ParseError::WrongCoordinates);
}

#[test]
fn list_of_words_keeps_their_case() {
    let l = List::<String>::from_str("ko simple  Scoring AREA").unwrap();
    assert_eq!(l.inner(), &vec!["ko", "simple", "Scoring", "AREA"]);
    assert_eq!(l.to_string(), "ko simple Scoring AREA");
    let again = List::<String>::from_str(&l.to_string()).unwrap();
    assert_eq!(again.inner(), l.inner());
}

#[test]
fn collection_is_read_word_by_word() {
    let c = Collection::from_str("b d4").unwrap();
    assert_eq!(c.inner().len(), 2);
    assert_eq!(c.inner()[0], SimpleEntity::Color(Color::Black));
    assert_eq!(c.inner()[1], SimpleEntity::Vertex(Vertex::Coord(4, 4)));
    assert_eq!(c.to_string(), "B D4");
    let back = Collection::from_str(&c.to_string()).unwrap();
    assert_eq!(back.inner(), c.inner());
    let m = SimpleEntity::Move(Move { color: Color::Black, vertex: Vertex::Coord(4, 4) });
    let with_move = Collection::from_vec(vec![m, SimpleEntity::Color(Color::White)]);
    assert_eq!(with_move.to_string(), "B D4 W");
    let back = Collection::from_str(&with_move.to_string()).unwrap();
    assert_eq!(
        back.inner(),
        &vec![
            SimpleEntity::Color(Color::Black),
            SimpleEntity::Vertex(Vertex::Coord(4, 4)),
            SimpleEntity::Color(Color::White),
        ]
    );
}

#[test]
fn list_is_a_sequence() {
    let mut l: List<Vertex> = List::new();
    l.push(Vertex::Coord(1, 1));
    l.push(Vertex::Coord(2, 2));
    l.push(Vertex::Pass);
    assert_eq!(l.len(), 3);
    assert_eq!(l.get(1), &Vertex::Coord(2, 2));
    assert_eq!(l[2], Vertex::Pass);
    assert_eq!(l.remove(0), Vertex::Coord(1, 1));
    l.mut_inner().push(Vertex::Resign);
    for v in l.iter_mut() {
        if let Vertex::Coord(x, y) = v {
            *v = Vertex::Coord(*y, *x + 1);
        }
    }
    assert_eq!(l.to_string(), "B3 PASS RESIGN");
    *l.get_mut(0) = Vertex::Coord(2, 2);
    let seen: Vec<Vertex> = l.iter().copied().collect();
    assert_eq!(seen, vec![Vertex::Coord(2, 2), Vertex::Pass, Vertex::Resign]);
    assert_eq!(l.to_string(), "B2 PASS RESIGN");
    assert_eq!(l.into_vec().len(), 3);
    assert_eq!(List::<Vertex>::default().len(), 0);
}

#[test]
fn a_move_takes_two_words_and_the_others_one() {
    assert_eq!(Move::word_count(), 2);
    assert_eq!(Vertex::word_count(), 1);
    assert_eq!(Color::word_count(), 1);
    assert_eq!(String::word_count(), 1);
    assert_eq!(u64::word_count(), 1);
}

#[test]
fn entities_encode_and_decode() {
    let mut out: Vec<char> = Vec::new();
    Vertex::Coord(10, 10).encode(&mut out);
    out.push(' ');
    Color::Black.encode(&mut out);
    out.push(' ');
    String::from("text").encode(&mut out);
    out.push(' ');
    42u64.encode(&mut out);
    let text: String = out.iter().collect();
    assert_eq!(text, "K10 B text 42");
    let word: Vec<char> = "k10".chars().collect();
    assert_eq!(Vertex::decode(&word), Ok(Vertex::Coord(10, 10)));
    assert_eq!(String::decode(&word), Ok(String::from("k10")));
    let number: Vec<char> = "18446744073709551615".chars().collect();
    assert_eq!(u64::decode(&number), Ok(u64::MAX));
    let number: Vec<char> = "18446744073709551616".chars().collect();
    assert_eq!(u64::decode(&number), Err(ParseError::WrongArgs));
    assert_eq!(Float::decode(&word).unwrap_err(), ParseError::WrongArgs);
}
