use gtp_client::model::{
    Collection, Color, Command, Failure, Move, ParseError, Response, ResponseData, SimpleEntity,
    Vertex,
};
use gtp_client::prelude;

#[test]
fn test_collection_macro() {
    let mut v: Vec<SimpleEntity> = Vec::new();
    v.push(Color::Black.into());
    v.push("W B2".parse::<Move>().unwrap().into());
    let c = Collection::from_vec(v);

    assert_eq!("B", c[0].to_string());
    assert_eq!("W B2", c[1].to_string());
}

#[test]
fn test_command() {
    scrub_log::init_with_filter_string("debug").unwrap();

    let command: Command = "name".parse().unwrap();
    assert_eq!(command.to_string(), String::from("name\n"));

    let command_id: Command = "0 list_commands \n".parse().unwrap();
    assert_eq!(command_id.to_string(), String::from("0 list_commands\n"));

    let command_args: Command = "boardsize 19".parse().unwrap();
    assert_eq!(command_args.to_string(), String::from("boardsize 19\n"));
}

#[test]
fn test_response() {
    let response: Response = "=0".parse().unwrap();
    assert_eq!("=0\n\n", response.to_string());

    let response = "=".parse::<Response>().unwrap();
    assert_eq!("=\n\n", response.to_string());

    let response = "= c15 d12 a13\nj3 f3 g3 h4 h5\n\n".parse::<Response>().unwrap();
    assert_eq!("= C15 D12 A13\nJ3 F3 G3 H4 H5\n\n", response.to_string());
    assert_eq!(
        "C15 D12 A13\nJ3 F3 G3 H4 H5\n",
        response.data().as_ref().unwrap().to_string()
    );

    let response = "=\n\n".parse::<Response>().unwrap();
    assert_eq!("=\n\n", response.to_string());
}

#[test]
fn test_failure() {
    let failure: Failure = "? syntax error".parse().unwrap();
    assert_eq!(failure.to_string(), "? syntax error\n\n");
}

#[test]
fn command_without_number_or_arguments() {
    let command = Command::from_str("name").unwrap();
    assert_eq!(command.id(), &None);
    assert!(command.args().is_none());
    assert_eq!(command.to_string(), "name\n");
}

#[test]
fn command_with_number_loses_spare_whitespace() {
    let command = Command::from_str("0 list_commands \n").unwrap();
    assert_eq!(command.id(), &Some(0));
    assert!(command.args().is_none());
    assert_eq!(command.to_string(), "0 list_commands\n");
}

#[test]
fn response_with_number_alone() {
    let response = Response::from_str("=0").unwrap();
    assert_eq!(response.id(), &Some(0));
    assert!(response.data().is_none());
    assert_eq!(response.to_string(), "=0\n\n");
}

#[test]
fn response_with_lists_of_vertices() {
    let response = Response::from_str("= c15 d12 a13\nj3 f3 g3 h4 h5\n\n").unwrap();
    assert_eq!(response.id(), &None);
    let lists = match response.data() {
        Some(ResponseData::VertexLists(lists)) => lists,
        other => panic!("{:?}", other),
    };
    assert_eq!(lists.len(), 2);
    assert_eq!(
        lists[0].inner(),
        &vec![Vertex::Coord(3, 15), Vertex::Coord(4, 12), Vertex::Coord(1, 13)]
    );
    assert_eq!(
        lists[1].inner(),
        &vec![
            Vertex::Coord(9, 3),
            Vertex::Coord(6, 3),
            Vertex::Coord(7, 3),
            Vertex::Coord(8, 4),
            Vertex::Coord(8, 5)
        ]
    );
    assert_eq!(response.to_string(), "= C15 D12 A13\nJ3 F3 G3 H4 H5\n\n");
}

#[test]
fn failure_without_number() {
    let failure = Failure::from_str("? syntax error").unwrap();
    assert_eq!(failure.id(), &None);
    assert_eq!(failure.message(), "syntax error");
    assert_eq!(failure.to_string(), "? syntax error\n\n");
}

#[test]
fn failure_with_number() {
    let failure = Failure::from_str("?12 unknown command\n\n").unwrap();
    assert_eq!(failure.id(), &Some(12));
    assert_eq!(failure.message(), "unknown command");
    assert_eq!(failure.to_string(), "?12 unknown command\n\n");
    let built = Failure::new_with_id(12, String::from("unknown command"));
    assert_eq!(built.to_string(), failure.to_string());
    assert_eq!(Failure::new(String::from("x")).to_string(), "? x\n\n");
}

#[test]
fn failure_needs_its_frame() {
    assert_eq!(Failure::from_str("").unwrap_err(), ParseError::WrongFailureFormat);
    assert_eq!(Failure::from_str("= ok").unwrap_err(), ParseError::WrongFailureFormat);
    assert_eq!(Failure::from_str("?").unwrap_err(), ParseError::WrongFailureFormat);
    assert_eq!(Failure::from_str("?5").unwrap_err(), ParseError::WrongFailureFormat);
}

#[test]
fn failure_fields_can_be_changed() {
    let mut failure = Failure::new(String::from("first"));
    *failure.id_mut() = Some(3);
    failure.message_mut().push_str(" and more");
    assert_eq!(failure.to_string(), "?3 first and more\n\n");
}

#[test]
fn prelude_names_the_three_messages() {
    let command = prelude::Command::from_str("quit").unwrap();
    assert_eq!(command.to_string(), "quit\n");
    assert_eq!(prelude::Response::empty().to_string(), "=\n\n");
    assert_eq!(prelude::Failure::new(String::from("no")).to_string(), "? no\n\n");
}
