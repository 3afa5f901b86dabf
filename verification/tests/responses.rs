use gtp_client::model::{
    Answer, Boolean, Color, CommandName, List, Move, ParseError, Response, ResponseData, Score,
    Vertex,
};

fn debug_of(r: &Response) -> String {
    format!("{:?}", r)
}

#[test]
fn responses_that_round_trip() {
    let m = Move { color: Color::Black, vertex: Vertex::Coord(17, 4) };
    let lists = vec![
        List::from_vec(vec![Vertex::Coord(3, 15), Vertex::Pass]),
        List::new(),
        List::from_vec(vec![Vertex::Coord(19, 19)]),
        List::new(),
    ];
    let names = vec![CommandName::Name, CommandName::Play, CommandName::KataGetRules];
    let all = vec![
        Response::empty(),
        Response::empty_with_id(3),
        Response::mov(m),
        Response::move_with_id(4294967295, m),
        Response::integer(0),
        Response::integer_with_id(3, 19),
        Response::bool(Boolean::True),
        Response::bool_with_id(7, Boolean::False),
        Response::score(Score::from_str("W+3.5").unwrap()),
        Response::score_with_id(1, Score::from_str("B+1").unwrap()),
        Response::list_vertex(List::new()),
        Response::list_vertex(List::from_vec(vec![Vertex::Coord(1, 1)])),
        Response::list_vertex_with_id(2, List::from_vec(vec![Vertex::Coord(9, 3), Vertex::Pass])),
        Response::name(String::from("GNU Go")),
        Response::name_with_id(5, String::from("a board\n of two lines\n")),
        Response::version(String::from("3.8.1")),
        Response::command_names(vec![CommandName::Quit]),
        Response::command_names(names.clone()),
        Response::command_names_with_id(0, names),
        Response::vertex_lists(lists.clone()),
        Response::vertex_lists_with_id(8, lists),
    ];
    for r in all {
        let text = r.to_string();
        let back = Response::from_str(&text).unwrap();
        assert_eq!(debug_of(&back), debug_of(&r), "{:?}", text);
        assert_eq!(back.to_string(), text);
    }
}

#[test]
fn a_number_and_an_integer_come_back() {
    let r = Response::integer_with_id(3, 19);
    assert_eq!(r.to_string(), "=3 19\n\n");
    let back = Response::from_str("=3 19\n\n").unwrap();
    assert_eq!(back.id(), &Some(3));
    assert_eq!(back.data().as_ref().unwrap().as_int(), Some(&19));
}

#[test]
fn response_texts() {
    let m = Move { color: Color::White, vertex: Vertex::Coord(9, 9) };
    assert_eq!(Response::empty().to_string(), "=\n\n");
    assert_eq!(Response::empty_with_id(5).to_string(), "=5\n\n");
    assert_eq!(Response::mov(m).to_string(), "= W J9\n\n");
    assert_eq!(Response::move_with_id(2, m).to_string(), "=2 W J9\n\n");
    assert_eq!(Response::integer(7).to_string(), "= 7\n\n");
    assert_eq!(Response::integer_with_id(1, 7).to_string(), "=1 7\n\n");
    assert_eq!(Response::name(String::from("GNU Go")).to_string(), "= GNU Go\n\n");
    assert_eq!(Response::name_with_id(1, String::from("GNU Go")).to_string(), "=1 GNU Go\n\n");
    assert_eq!(Response::version(String::from("3.8")).to_string(), "= 3.8\n\n");
    assert_eq!(Response::version_with_id(1, String::from("3.8")).to_string(), "=1 3.8\n\n");
    assert_eq!(Response::showboard(|| String::from("board")).to_string(), "= board\n\n");
    assert_eq!(Response::bool(Boolean::True).to_string(), "= true\n\n");
    assert_eq!(Response::bool_with_id(1, Boolean::False).to_string(), "=1 false\n\n");
    assert_eq!(
        Response::command_names(vec![CommandName::Name, CommandName::Quit]).to_string(),
        "= name\nquit\n\n"
    );
    assert_eq!(
        Response::command_names_with_id(1, vec![CommandName::Name]).to_string(),
        "=1 name\n\n"
    );
    assert_eq!(
        Response::list_vertex(List::from_vec(vec![Vertex::Coord(1, 1), Vertex::Pass])).to_string(),
        "= A1 PASS\n\n"
    );
    assert_eq!(Response::list_vertex_with_id(1, List::new()).to_string(), "=1 \n\n");
    assert_eq!(Response::score(Score::from_str("W+3.5").unwrap()).to_string(), "= W+3.5\n\n");
    assert_eq!(
        Response::score_with_id(1, Score::from_str("0").unwrap()).to_string(),
        "=1 0\n\n"
    );
    assert_eq!(
        Response::vertex_lists(vec![List::from_vec(vec![Vertex::Coord(1, 1)]), List::new()])
            .to_string(),
        "= A1\n\n\n"
    );
    assert_eq!(Response::vertex_lists_with_id(1, vec![]).to_string(), "=1 \n");
}

#[test]
fn data_decoding_tries_each_kind_in_turn() {
    assert!(matches!(ResponseData::from_str("19"), Ok(ResponseData::Integer(19))));
    assert!(matches!(ResponseData::from_str("+19"), Ok(ResponseData::Integer(19))));
    assert!(matches!(ResponseData::from_str("0"), Ok(ResponseData::Integer(0))));
    assert!(matches!(ResponseData::from_str("True"), Ok(ResponseData::Bool(Boolean::True))));
    assert!(matches!(ResponseData::from_str("false"), Ok(ResponseData::Bool(Boolean::False))));
    assert!(matches!(ResponseData::from_str("b q16"), Ok(ResponseData::Move(_))));
    assert!(matches!(ResponseData::from_str("W+3.5"), Ok(ResponseData::Score(_))));
    assert!(matches!(ResponseData::from_str("a1 b2"), Ok(ResponseData::ListVertex(_))));
    assert!(matches!(ResponseData::from_str("a1 b2\n"), Ok(ResponseData::ListVertex(_))));
    assert!(matches!(ResponseData::from_str(""), Ok(ResponseData::ListVertex(_))));
    assert!(matches!(ResponseData::from_str("name\nplay\n\n"), Ok(ResponseData::CommandNames(_))));
    assert!(matches!(ResponseData::from_str("a1\nb2\n\n"), Ok(ResponseData::VertexLists(_))));
    assert_eq!(ResponseData::from_str("GNU Go\n\n").unwrap().to_name().unwrap(), "GNU Go\n\n");
    assert_eq!(ResponseData::from_str("GNU Go\n").unwrap().to_name().unwrap(), "GNU Go\n");
    assert_eq!(ResponseData::from_str("x\n\n\n").unwrap().to_name().unwrap(), "x\n\n\n");
    assert_eq!(ResponseData::from_str("GNU Go").unwrap_err(), ParseError::WrongResponseData);
    assert!(matches!(ResponseData::from_str("19\n\n"), Ok(ResponseData::Integer(19))));
    assert!(matches!(ResponseData::from_str("true\n"), Ok(ResponseData::Bool(Boolean::True))));
    assert!(matches!(ResponseData::from_str("name\n\n"), Ok(ResponseData::CommandNames(_))));
    assert!(matches!(ResponseData::from_str("a1 b2\n\n"), Ok(ResponseData::ListVertex(_))));
    assert_eq!(
        ResponseData::from_str("name\nno such name\n\n").unwrap_err(),
        ParseError::WrongAlternative
    );
}

#[test]
fn free_text_is_kept_whole() {
    let d = ResponseData::from_str("GNU Go\nv3\n\n").unwrap();
    assert_eq!(d.as_name(), Some(&"GNU Go\nv3\n\n".to_string()));
    let r = Response::from_str("=2 GNU Go\nv3\n\n").unwrap();
    assert_eq!(r.data().as_ref().unwrap().as_name(), Some(&"GNU Go\nv3".to_string()));
    assert_eq!(r.to_string(), "=2 GNU Go\nv3\n\n");
}

#[test]
fn data_written_as_another_kind_comes_back_as_that_kind() {
    let r = Response::from_str(&Response::score(Score::from_str("0").unwrap()).to_string())
        .unwrap();
    assert_eq!(r.data().as_ref().unwrap().as_int(), Some(&0));
    let one = vec![List::from_vec(vec![Vertex::Coord(1, 1)])];
    let r = Response::from_str(&Response::vertex_lists(one).to_string()).unwrap();
    assert_eq!(
        r.data().as_ref().unwrap().as_list_vertex().unwrap().inner(),
        &vec![Vertex::Coord(1, 1)]
    );
    let r = Response::from_str(&Response::vertex_lists(vec![]).to_string()).unwrap();
    assert_eq!(r.data().as_ref().unwrap().as_list_vertex().unwrap().len(), 0);
    let r = Response::from_str(&Response::command_names(vec![]).to_string()).unwrap();
    assert_eq!(r.data().as_ref().unwrap().as_list_vertex().unwrap().len(), 0);
    let r = Response::from_str(&Response::name(String::from("19")).to_string()).unwrap();
    assert_eq!(r.data().as_ref().unwrap().as_int(), Some(&19));
    let r = Response::from_str(&Response::name(String::from("b a1 captures")).to_string())
        .unwrap();
    assert!(r.data().as_ref().unwrap().is_move());
    let r = Response::from_str(&Response::name(String::from("quit")).to_string()).unwrap();
    assert!(r.data().as_ref().unwrap().is_command_names());
    let text = Response::command_names(vec![CommandName::Unknown]).to_string();
    assert_eq!(Response::from_str(&text).unwrap().data().as_ref().unwrap().as_name().unwrap(), "unknown");
}

#[test]
fn data_alone_round_trips() {
    let all = vec![
        ResponseData::Integer(0),
        ResponseData::Integer(4294967295),
        ResponseData::Bool(Boolean::True),
        ResponseData::Bool(Boolean::False),
        ResponseData::Move(Move { color: Color::White, vertex: Vertex::Resign }),
        ResponseData::Score(Score::from_str("W+0.5").unwrap()),
        ResponseData::Score(Score::from_str("B+inf").unwrap()),
        ResponseData::ListVertex(List::new()),
        ResponseData::ListVertex(List::from_vec(vec![Vertex::Coord(19, 1), Vertex::Coord(6, 2)])),
        ResponseData::ListVertex(List::from_vec(vec![Vertex::Pass])),
    ];
    for d in all {
        let back = ResponseData::from_str(&d.to_string()).unwrap();
        assert_eq!(format!("{:?}", back), format!("{:?}", d));
    }
}

#[test]
fn response_decoding() {
    let r = Response::from_str("=12 b q16").unwrap();
    assert_eq!(r.id(), &Some(12));
    assert!(r.data().as_ref().unwrap().is_move());
    let r = Response::from_str("= 19").unwrap();
    assert_eq!(r.id(), &None);
    assert_eq!(r.data().as_ref().unwrap().as_int(), Some(&19));
    let r = Response::from_str("=7\n\n").unwrap();
    assert_eq!(r.id(), &Some(7));
    assert!(r.data().is_none());
    let r = Response::from_str("=x true").unwrap();
    assert_eq!(r.id(), &None);
    assert!(r.data().as_ref().unwrap().is_bool());
    let r = Response::from_str("= ").unwrap();
    assert!(r.data().as_ref().unwrap().is_list_vertex());
    assert_eq!(Response::from_str("").unwrap_err(), ParseError::WrongResponseFormat);
    assert_eq!(Response::from_str("? no").unwrap_err(), ParseError::WrongResponseFormat);
    assert_eq!(Response::from_str(" =").unwrap_err(), ParseError::WrongResponseFormat);
    assert_eq!(Response::from_str("= hello").unwrap_err(), ParseError::WrongResponseData);
}

#[test]
fn data_is_taken_apart() {
    assert_eq!(ResponseData::Integer(3).to_int().unwrap(), 3);
    assert!(ResponseData::Integer(3).is_int());
    assert!(!ResponseData::Integer(3).is_name());
    assert!(ResponseData::Integer(3).to_name().is_err());
    assert_eq!(ResponseData::String(String::from("x")).to_name().unwrap(), "x");
    assert!(ResponseData::String(String::from("x")).is_name());
    assert!(matches!(ResponseData::Bool(Boolean::True).to_bool(), Ok(Boolean::True)));
    assert!(ResponseData::Bool(Boolean::True).as_bool().is_some());
    assert!(ResponseData::Bool(Boolean::True).is_bool());
    let names = ResponseData::CommandNames(vec![CommandName::Quit]);
    assert!(names.is_command_names());
    assert_eq!(names.as_command_names().unwrap().len(), 1);
    assert_eq!(names.to_command_names().unwrap(), vec![CommandName::Quit]);
    let list = ResponseData::ListVertex(List::new());
    assert!(list.is_list_vertex());
    assert!(list.as_list_vertex().is_some());
    assert_eq!(list.to_list_vertex().unwrap().len(), 0);
    let m = Move { color: Color::Black, vertex: Vertex::Pass };
    assert!(ResponseData::Move(m).is_move());
    assert_eq!(ResponseData::Move(m).as_move(), Some(&m));
    assert_eq!(ResponseData::Move(m).to_move().unwrap(), m);
    let score = ResponseData::Score(Score::from_str("0").unwrap());
    assert!(score.is_score());
    assert_eq!(score.as_score().unwrap().to_string(), "0");
    assert_eq!(score.to_score().unwrap().to_string(), "0");
    let lists = ResponseData::VertexLists(vec![List::new()]);
    assert!(lists.is_vertex_lists());
    assert_eq!(lists.as_vertex_lists().unwrap().len(), 1);
    assert_eq!(lists.to_vertex_lists().unwrap().len(), 1);
}

#[test]
fn response_fields_can_be_changed() {
    let mut r = Response::empty();
    *r.id_mut() = Some(4);
    *r.data_mut() = Some(ResponseData::Integer(2));
    assert_eq!(r.to_string(), "=4 2\n\n");
}

#[test]
fn answers_are_response_then_analysis_then_failure() {
    let a = Answer::parse_answer("=1 true").unwrap();
    assert!(a.is_response());
    assert!(!a.is_failure());
    assert!(!a.is_info());
    assert_eq!(a.to_response().unwrap().to_string(), "=1 true\n\n");
    let a = Answer::parse_answer("info move A1 visits 3").unwrap();
    assert!(a.is_info());
    assert_eq!(a.to_info().unwrap().explored_moves.len(), 1);
    let a = Answer::parse_answer("? syntax error").unwrap();
    assert!(a.is_failure() && !a.is_info() && !a.is_response());
    assert_eq!(a.to_failure().unwrap().message(), "syntax error");
    assert_eq!(Answer::parse_answer("hello").unwrap_err(), ParseError::WrongAnswerFormat);
    let a = Answer::parse_answer("?3 no info here").unwrap();
    assert!(a.is_failure());
    assert_eq!(a.clone().to_failure().unwrap().message(), "no info here");
    assert!(a.clone().to_response().is_err());
    assert!(a.to_info().is_err());
    assert_eq!(Answer::parse_answer("").unwrap_err(), ParseError::WrongAnswerFormat);
    assert_eq!(
        Answer::parse_answer("info nonsense").unwrap_err(),
        ParseError::WrongAnswerFormat
    );
}
