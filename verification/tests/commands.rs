use gtp_client::model::{
    ArgShape, Args, Collection, Color, Command, CommandName, List, Move, ParseError, RectSize,
    SimpleEntity, Vertex,
};
use gtp_client::number::Float;

fn all_names() -> Vec<CommandName> {
    vec![
        CommandName::ProtocolVersion,
        CommandName::Name,
        CommandName::Version,
        CommandName::ListCommands,
        CommandName::Quit,
        CommandName::ClearBoard,
        CommandName::Undo,
        CommandName::FinalScore,
        CommandName::Showboard,
        CommandName::KnownCommand,
        CommandName::Boardsize,
        CommandName::Komi,
        CommandName::FixedHandicap,
        CommandName::PlaceFreeHandicap,
        CommandName::SetFreeHandicap,
        CommandName::Play,
        CommandName::Genmove,
        CommandName::TimeSettings,
        CommandName::TimeLeft,
        CommandName::FinalStatusList,
        CommandName::Loadsgf,
        CommandName::RegGenmove,
        CommandName::Unknown,
        CommandName::RectangularBoardsize,
        CommandName::SetPosition,
        CommandName::ClearCache,
        CommandName::Stop,
        CommandName::KataGetRules,
        CommandName::KataSetRules,
        CommandName::KataSetRule,
        CommandName::KgsRules,
        CommandName::KgsTimeSettings,
        CommandName::LzAnalyze,
        CommandName::KataAnalyze,
        CommandName::LzGenmoveAnalyze,
        CommandName::KataGenmoveAnalyze,
        CommandName::Analyze,
        CommandName::GenmoveAnalyze,
        CommandName::KataRawNn,
        CommandName::KataGetParam,
        CommandName::Cputime,
        CommandName::GomillCputime,
        CommandName::GetKomi,
        CommandName::KataListTimeSettings,
        CommandName::KataSetParam,
    ]
}

fn sample(shape: ArgShape) -> Option<Args> {
    match shape {
        ArgShape::Nothing => None,
        ArgShape::Text => Some(Args::string(String::from("dead or alive"))),
        ArgShape::Int => Some(Args::integer(19)),
        ArgShape::Float => Some(Args::float(Float::from_str("6.5").unwrap())),
        ArgShape::ListVertex => Some(Args::list_vertex(List::from_vec(vec![
            Vertex::Coord(4, 4),
            Vertex::Coord(16, 16),
            Vertex::Pass,
        ]))),
        ArgShape::Entity => Some(Args::entity(SimpleEntity::Move(Move {
            color: Color::Black,
            vertex: Vertex::Coord(17, 4),
        }))),
        ArgShape::Collection => Some(Args::collection(Collection::from_vec(vec![
            SimpleEntity::Color(Color::Black),
            SimpleEntity::Vertex(Vertex::Coord(4, 4)),
            SimpleEntity::Color(Color::White),
        ]))),
        ArgShape::ListMove => Some(Args::list_move(List::from_vec(vec![
            Move { color: Color::Black, vertex: Vertex::Coord(4, 4) },
            Move { color: Color::White, vertex: Vertex::Coord(16, 16) },
        ]))),
        ArgShape::Size => Some(Args::kata_size(RectSize::new(9, 13))),
        ArgShape::ListString => Some(Args::list_string(List::from_vec(vec![
            String::from("interval"),
            String::from("50"),
            String::from("ownership"),
            String::from("True"),
        ]))),
    }
}

#[test]
fn every_command_round_trips() {
    let mut done = 0;
    for name in all_names() {
        if name == CommandName::Unknown {
            continue;
        }
        for id in [None, Some(0u32), Some(4294967295u32)] {
            let command = match id {
                Some(id) => Command::with_id(id, name, sample(name.shape())),
                None => Command::new(name, sample(name.shape())),
            };
            let line = command.to_string();
            let back = Command::from_str(&line).unwrap();
            assert_eq!(format!("{:?}", back), format!("{:?}", command), "{}", line);
            assert_eq!(back.to_string(), line);
            done += 1;
        }
    }
    assert_eq!(done, 44 * 3);
}

#[test]
fn the_name_for_unknown_words_does_not_round_trip() {
    let line = Command::new(CommandName::Unknown, None).to_string();
    assert_eq!(line, "unknown\n");
    assert_eq!(Command::from_str(&line).unwrap_err(), ParseError::WrongCommandName);
    let line = Command::new(CommandName::KataGetRules, None).to_string();
    assert_eq!(line, "kata-get-rules\n");
    assert_eq!(Command::from_str(&line).unwrap().name(), CommandName::KataGetRules);
}

#[test]
fn command_names_have_their_words() {
    let words = [
        "protocol_version", "name", "version", "list_commands", "quit", "clear_board", "undo",
        "final_score", "showboard", "known_command", "boardsize", "komi", "fixed_handicap",
        "place_free_handicap", "set_free_handicap", "play", "genmove", "time_settings",
        "time_left", "final_status_list", "loadsgf", "reg_genmove", "unknown",
        "rectangular_boardsize", "set_position", "clear_cache", "stop", "kata-get-rules",
        "kata-set-rules", "kata-set-rule", "kata-rules-placeholder", "kgs-time_settings",
        "lz-analyze", "kata-analyze", "lz-genmove_analyze", "kata-genmove_analyze", "analyze",
        "genmove_analyze", "kata-raw-nn", "kata-get-param", "cputime", "gomill-cpu_time",
        "get_komi", "kata-list_time_settings", "kata-set-param",
    ];
    for (name, word) in all_names().into_iter().zip(words) {
        if name == CommandName::KgsRules {
            assert_eq!(name.to_string(), "kgs-rules");
            continue;
        }
        assert_eq!(name.to_string(), word);
        assert_eq!(name.as_str(), word);
        if name != CommandName::Unknown {
            assert_eq!(CommandName::from_str(word), Ok(name));
            assert_eq!(CommandName::from(String::from(word)), name);
        }
    }
    assert_eq!(CommandName::from_str("Name"), Err(ParseError::WrongAlternative));
    assert_eq!(CommandName::from_str(""), Err(ParseError::WrongAlternative));
    assert_eq!(CommandName::from_str("unknown"), Err(ParseError::WrongAlternative));
    assert_eq!(CommandName::from(String::from("no such thing")), CommandName::Unknown);
    assert_eq!(CommandName::from(String::from("kata-get-rules")), CommandName::KataGetRules);
}

#[test]
fn shapes_of_arguments() {
    assert_eq!(CommandName::Name.shape(), ArgShape::Nothing);
    assert_eq!(CommandName::KnownCommand.shape(), ArgShape::Text);
    assert_eq!(CommandName::FinalStatusList.shape(), ArgShape::Text);
    assert_eq!(CommandName::Boardsize.shape(), ArgShape::Int);
    assert_eq!(CommandName::Komi.shape(), ArgShape::Float);
    assert_eq!(CommandName::SetFreeHandicap.shape(), ArgShape::ListVertex);
    assert_eq!(CommandName::Play.shape(), ArgShape::Entity);
    assert_eq!(CommandName::Genmove.shape(), ArgShape::Entity);
    assert_eq!(CommandName::RegGenmove.shape(), ArgShape::Entity);
    assert_eq!(CommandName::TimeSettings.shape(), ArgShape::Collection);
    assert_eq!(CommandName::TimeLeft.shape(), ArgShape::Collection);
    assert_eq!(CommandName::Loadsgf.shape(), ArgShape::Collection);
    assert_eq!(CommandName::SetPosition.shape(), ArgShape::ListMove);
    assert_eq!(CommandName::RectangularBoardsize.shape(), ArgShape::Size);
    assert_eq!(CommandName::KataAnalyze.shape(), ArgShape::ListString);
}

#[test]
fn command_decoding() {
    let c = Command::from_str("7 play b q16").unwrap();
    assert_eq!(c.id(), &Some(7));
    assert_eq!(c.name(), CommandName::Play);
    assert_eq!(c.to_string(), "7 play B Q16\n");
    let c = Command::from_str("genmove white").unwrap();
    assert_eq!(c.to_string(), "genmove W\n");
    let c = Command::from_str("komi 6.50").unwrap();
    assert_eq!(c.to_string(), "komi 6.50\n");
    let c = Command::from_str("+3 boardsize +9").unwrap();
    assert_eq!(c.to_string(), "3 boardsize 9\n");
    let c = Command::from_str("known_command   play  ").unwrap();
    assert_eq!(c.to_string(), "known_command play\n");
    let c = Command::from_str("known_command").unwrap();
    assert_eq!(c.to_string(), "known_command \n");
    let c = Command::from_str("rectangular_boardsize 19 13 and more").unwrap();
    assert_eq!(c.to_string(), "rectangular_boardsize 19 13\n");
    let c = Command::from_str("set_free_handicap d4 q16 k10").unwrap();
    assert_eq!(c.to_string(), "set_free_handicap D4 Q16 K10\n");
    let c = Command::from_str("kata-analyze interval 100 ownership true").unwrap();
    assert_eq!(c.to_string(), "kata-analyze interval 100 ownership true\n");
    let c = Command::from_str("set_position b a1  w b2").unwrap();
    assert_eq!(c.to_string(), "set_position B A1 W B2\n");
    assert_eq!(c.args().as_ref().unwrap().as_list_move().unwrap().len(), 2);
    let c = Command::from_str("loadsgf b a1 w").unwrap();
    assert_eq!(c.args().as_ref().unwrap().as_collection().unwrap().len(), 3);
    let c = Command::from_str("time_left b d4").unwrap();
    assert_eq!(c.to_string(), "time_left B D4\n");
    assert_eq!(
        c.args().as_ref().unwrap().as_collection().unwrap().inner(),
        &vec![SimpleEntity::Color(Color::Black), SimpleEntity::Vertex(Vertex::Coord(4, 4))]
    );
    let c = Command::from_str("name with words that nobody reads").unwrap();
    assert_eq!(c.to_string(), "name\n");
    let c = Command::from_str("time_left b w").unwrap();
    assert_eq!(c.to_string(), "time_left B W\n");
    let c = Command::from_str("set_position").unwrap();
    assert_eq!(c.to_string(), "set_position \n");
}

#[test]
fn command_errors() {
    assert_eq!(Command::from_str("").unwrap_err(), ParseError::EmptyString);
    assert_eq!(Command::from_str(" \n").unwrap_err(), ParseError::EmptyString);
    assert_eq!(Command::from_str("5").unwrap_err(), ParseError::WrongCommandName);
    assert_eq!(Command::from_str("no_such_command").unwrap_err(), ParseError::WrongCommandName);
    assert_eq!(Command::from_str("5 6 name").unwrap_err(), ParseError::WrongCommandName);
    assert_eq!(Command::from_str("kata-list-params").unwrap_err(), ParseError::WrongCommandName);
    assert_eq!(Command::from_str("boardsize").unwrap_err(), ParseError::WrongArgs);
    assert_eq!(Command::from_str("boardsize nineteen").unwrap_err(), ParseError::WrongArgs);
    assert_eq!(Command::from_str("boardsize 1 9").unwrap_err(), ParseError::WrongArgs);
    assert_eq!(Command::from_str("boardsize 4294967296").unwrap_err(), ParseError::WrongArgs);
    assert_eq!(Command::from_str("komi six").unwrap_err(), ParseError::WrongArgs);
    assert_eq!(Command::from_str("komi").unwrap_err(), ParseError::WrongArgs);
    assert_eq!(Command::from_str("play x").unwrap_err(), ParseError::WrongSimpleEntity);
    assert_eq!(Command::from_str("play").unwrap_err(), ParseError::WrongSimpleEntity);
    assert_eq!(Command::from_str("time_settings 10 5 1").unwrap_err(), ParseError::WrongSimpleEntity);
    assert_eq!(Command::from_str("set_free_handicap d4 zz").unwrap_err(), ParseError::WrongCoordinates);
    assert_eq!(Command::from_str("set_position b").unwrap_err(), ParseError::EmptyString);
    assert_eq!(Command::from_str("set_position b a1 w").unwrap_err(), ParseError::EmptyString);
    assert_eq!(Command::from_str("set_position b i1").unwrap_err(), ParseError::WrongCoordinates);
    assert_eq!(Command::from_str("rectangular_boardsize").unwrap_err(), ParseError::WrongAlternative);
    assert_eq!(Command::from_str("rectangular_boardsize 19").unwrap_err(), ParseError::WrongAlternative);
    assert_eq!(Command::from_str("rectangular_boardsize a 19").unwrap_err(), ParseError::WrongArgs);
    assert_eq!(Command::from_str("rectangular_boardsize 19 b").unwrap_err(), ParseError::WrongArgs);
}

#[test]
fn arguments_that_do_not_round_trip() {
    let spaced = Command::new(CommandName::KnownCommand, Some(Args::string(String::from("a  b"))));
    let back = Command::from_str(&spaced.to_string()).unwrap();
    assert_eq!(back.to_string(), "known_command a b\n");
    let two_words = Command::new(
        CommandName::KataSetRule,
        Some(Args::list_string(List::from_vec(vec![String::from("ko simple")]))),
    );
    let back = Command::from_str(&two_words.to_string()).unwrap();
    assert_eq!(back.args().as_ref().unwrap().as_list_string().unwrap().len(), 2);
    let with_move = Command::new(
        CommandName::TimeLeft,
        Some(Args::collection(Collection::from_vec(vec![SimpleEntity::Move(Move {
            color: Color::Black,
            vertex: Vertex::Coord(1, 1),
        })]))),
    );
    let back = Command::from_str(&with_move.to_string()).unwrap();
    assert_eq!(back.args().as_ref().unwrap().as_collection().unwrap().len(), 2);
    let off = Command::new(
        CommandName::Play,
        Some(Args::entity(SimpleEntity::Vertex(Vertex::Coord(20, 1)))),
    );
    assert!(Command::from_str(&off.to_string()).is_err());
}

#[test]
fn arguments_are_built_and_taken_apart() {
    assert_eq!(Args::integer(5).to_int().unwrap(), 5);
    assert_eq!(Args::integer(5).as_int(), Some(&5));
    assert!(Args::integer(5).as_string().is_none());
    assert!(Args::integer(5).to_float().is_err());
    assert_eq!(Args::string(String::from("x")).to_string().unwrap(), "x");
    assert_eq!(Args::string(String::from("x")).as_string().unwrap(), "x");
    assert_eq!(Args::float(Float::from_str("1.5").unwrap()).to_float().unwrap().as_str(), "1.5");
    assert_eq!(Args::float(Float::from_str("1.5").unwrap()).as_float().unwrap().as_str(), "1.5");
    assert_eq!(Args::collection(Collection::new()).to_collection().unwrap().len(), 0);
    assert!(Args::collection(Collection::new()).as_collection().is_some());
    assert_eq!(Args::list_vertex(List::new()).to_list_vertex().unwrap().len(), 0);
    assert!(Args::list_vertex(List::new()).as_list_vertex().is_some());
    assert_eq!(Args::list_move(List::new()).to_list_move().unwrap().len(), 0);
    assert!(Args::list_move(List::new()).as_list_move().is_some());
    assert_eq!(Args::list_string(List::new()).to_list_string().unwrap().len(), 0);
    assert!(Args::list_string(List::new()).as_list_string().is_some());
    let e = SimpleEntity::Color(Color::Black);
    assert_eq!(Args::entity(e).to_entity().unwrap(), e);
    assert_eq!(Args::entity(e).as_entity(), Some(&e));
    assert_eq!(Args::kata_size(RectSize::new(3, 4)).to_kata_size().unwrap().width(), 3);
    assert_eq!(Args::kata_size(RectSize::new(3, 4)).as_kata_size().unwrap().height(), 4);
    assert!(Args::kata_size(RectSize::new(3, 4)).to_int().is_err());
    assert_eq!(Args::kata_size(RectSize::new(3, 4)).format(), "3 4");
    assert_eq!(Args::integer(0).format(), "0");
    assert_eq!(Args::integer(4294967295).format(), "4294967295");
}

#[test]
fn command_fields_can_be_changed() {
    let mut c = Command::new(CommandName::Boardsize, Some(Args::integer(9)));
    *c.id_mut() = Some(11);
    *c.args_mut() = Some(Args::integer(13));
    assert_eq!(c.to_string(), "11 boardsize 13\n");
    assert_eq!(c.args().as_ref().unwrap().as_int(), Some(&13));
}

#[test]
fn rect_size_decoding() {
    let size = RectSize::from_str(" 19\t13 ").unwrap();
    assert_eq!((size.width(), size.height()), (19, 13));
    assert_eq!(size.to_string(), "19 13");
    assert_eq!(RectSize::from_str("").unwrap_err(), ParseError::WrongAlternative);
    assert_eq!(RectSize::from_str("4294967296 1").unwrap_err(), ParseError::WrongArgs);
}
