//! Commands: their names, the shapes of their arguments, and their text.

use crate::model::{
    agrees, view_of, Collection, Entity, List, Move, ParseError, SimpleEntity, Vertex,
};
use crate::number::{is_float, numeral, parse_unsigned, push_numeral, unsigned, Float};
use crate::text::{
    chars_of, join, join_from, push_str, same_text, split_words, string_of, texts, words, Spacing,
};
use vstd::prelude::*;
use vstd::std_specs::convert::FromSpecImpl;

verus! {

/// The width and the height of a board that need not be square.
#[derive(Debug, Clone, Copy)]
pub struct RectSize((u32, u32));

impl View for RectSize {
    type V = (u32, u32);

    closed spec fn view(&self) -> (u32, u32) {
        self.0
    }
}

impl RectSize {
    /// The size of a board `width` wide and `height` high.
    pub fn new(width: u32, height: u32) -> (r: Self)
        ensures
            r@ == (width, height),
    {
        RectSize((width, height))
    }

    /// The width.
    pub fn width(&self) -> (r: u32)
        ensures
            r == self@.0,
    {
        self.0.0
    }

    /// The height.
    pub fn height(&self) -> (r: u32)
        ensures
            r == self@.1,
    {
        self.0.1
    }

    /// The width, one space, the height.
    pub open spec fn encoded(v: (u32, u32)) -> Seq<char> {
        numeral(v.0 as nat) + seq![' '] + numeral(v.1 as nat)
    }

    /// The first word is the width and the second the height; further
    /// words are not read.
    pub open spec fn decoded(s: Seq<char>) -> Result<(u32, u32), ParseError> {
        let parts = words(s, Spacing::Ascii);
        if parts.len() == 0 {
            Err(ParseError::WrongAlternative)
        } else {
            match unsigned(parts[0], u32::MAX as nat) {
                None => Err(ParseError::WrongArgs),
                Some(width) => if parts.len() < 2 {
                    Err(ParseError::WrongAlternative)
                } else {
                    match unsigned(parts[1], u32::MAX as nat) {
                        None => Err(ParseError::WrongArgs),
                        Some(height) => Ok((width as u32, height as u32)),
                    }
                },
            }
        }
    }

    /// Appends the text of the size to `out`.
    pub fn write(&self, out: &mut Vec<char>)
        ensures
            final(out)@ == old(out)@ + Self::encoded(self@),
    {
        push_numeral(out, self.0.0 as u64);
        out.push(' ');
        push_numeral(out, self.0.1 as u64);
        assert(out@ == old(out)@ + (numeral(self@.0 as nat) + seq![' '] + numeral(self@.1 as nat)));
    }

    /// The text of the size.
    pub fn to_string(&self) -> (r: String)
        ensures
            r@ == Self::encoded(self@),
    {
        let mut out: Vec<char> = Vec::new();
        self.write(&mut out);
        string_of(out.as_slice())
    }

    /// Decodes a text.
    pub fn from_chars(s: &[char]) -> (r: Result<RectSize, ParseError>)
        ensures
            agrees(r, Self::decoded(s@)),
    {
        let parts = split_words(s, Spacing::Ascii);
        if parts.len() == 0 {
            return Err(ParseError::WrongAlternative);
        }
        assert(texts(parts@)[0] == parts@[0]@);
        let width = match parse_unsigned(parts[0].as_slice(), u32::MAX as u64) {
            Some(n) => n as u32,
            None => { return Err(ParseError::WrongArgs); },
        };
        if parts.len() < 2 {
            return Err(ParseError::WrongAlternative);
        }
        assert(texts(parts@)[1] == parts@[1]@);
        match parse_unsigned(parts[1].as_slice(), u32::MAX as u64) {
            Some(n) => Ok(RectSize((width, n as u32))),
            None => Err(ParseError::WrongArgs),
        }
    }

    /// Decodes a text.
    pub fn from_str(s: &str) -> (r: Result<RectSize, ParseError>)
        ensures
            agrees(r, Self::decoded(s@)),
    {
        let chars = chars_of(s);
        Self::from_chars(chars.as_slice())
    }
}

/// The names of the commands.
#[derive(Debug, Clone, Copy, PartialEq, Eq, Structural)]
pub enum CommandName {
    ProtocolVersion,
    Name,
    Version,
    ListCommands,
    Quit,
    ClearBoard,
    Undo,
    FinalScore,
    Showboard,
    KnownCommand,
    Boardsize,
    Komi,
    FixedHandicap,
    PlaceFreeHandicap,
    SetFreeHandicap,
    Play,
    Genmove,
    TimeSettings,
    TimeLeft,
    FinalStatusList,
    Loadsgf,
    RegGenmove,
    Unknown,
    RectangularBoardsize,
    SetPosition,
    ClearCache,
    Stop,
    KataGetRules,
    KataSetRules,
    KataSetRule,
    KgsRules,
    KgsTimeSettings,
    LzAnalyze,
    KataAnalyze,
    LzGenmoveAnalyze,
    KataGenmoveAnalyze,
    Analyze,
    GenmoveAnalyze,
    KataRawNn,
    KataGetParam,
    Cputime,
    GomillCputime,
    GetKomi,
    KataListTimeSettings,
    KataSetParam,
}

/// What the arguments of a command are made of.
#[derive(Debug, Clone, Copy, PartialEq, Eq, Structural)]
pub enum ArgShape {
    /// The command takes no arguments.
    Nothing,
    /// Free text.
    Text,
    /// One unsigned integer.
    Int,
    /// One floating-point number.
    Float,
    /// A list of vertices.
    ListVertex,
    /// A vertex, a colour or a move.
    Entity,
    /// A collection of vertices, colours and moves.
    Collection,
    /// A list of moves.
    ListMove,
    /// A width and a height.
    Size,
    /// A list of words.
    ListString,
}

impl View for CommandName {
    type V = CommandName;

    open spec fn view(&self) -> CommandName {
        *self
    }
}

impl CommandName {
    /// The shape of the arguments that go with a name.
    pub open spec fn shape_of(n: CommandName) -> ArgShape {
        match n {
            CommandName::KnownCommand
            | CommandName::FinalStatusList => ArgShape::Text,
            CommandName::Boardsize
            | CommandName::FixedHandicap
            | CommandName::PlaceFreeHandicap => ArgShape::Int,
            CommandName::Komi => ArgShape::Float,
            CommandName::SetFreeHandicap => ArgShape::ListVertex,
            CommandName::Play
            | CommandName::Genmove
            | CommandName::RegGenmove => ArgShape::Entity,
            CommandName::TimeSettings
            | CommandName::TimeLeft
            | CommandName::Loadsgf => ArgShape::Collection,
            CommandName::RectangularBoardsize => ArgShape::Size,
            CommandName::SetPosition => ArgShape::ListMove,
            CommandName::KataSetRules
            | CommandName::KataSetRule
            | CommandName::KgsRules
            | CommandName::KgsTimeSettings
            | CommandName::LzAnalyze
            | CommandName::KataAnalyze
            | CommandName::LzGenmoveAnalyze
            | CommandName::KataGenmoveAnalyze
            | CommandName::Analyze
            | CommandName::GenmoveAnalyze
            | CommandName::KataRawNn
            | CommandName::KataGetParam
            | CommandName::KataSetParam => ArgShape::ListString,
            _ => ArgShape::Nothing,
        }
    }

    /// The shape of the arguments that go with the name.
    pub fn shape(&self) -> (r: ArgShape)
        ensures
            r == Self::shape_of(*self),
    {
        match self {
            CommandName::KnownCommand
            | CommandName::FinalStatusList => ArgShape::Text,
            CommandName::Boardsize
            | CommandName::FixedHandicap
            | CommandName::PlaceFreeHandicap => ArgShape::Int,
            CommandName::Komi => ArgShape::Float,
            CommandName::SetFreeHandicap => ArgShape::ListVertex,
            CommandName::Play
            | CommandName::Genmove
            | CommandName::RegGenmove => ArgShape::Entity,
            CommandName::TimeSettings
            | CommandName::TimeLeft
            | CommandName::Loadsgf => ArgShape::Collection,
            CommandName::RectangularBoardsize => ArgShape::Size,
            CommandName::SetPosition => ArgShape::ListMove,
            CommandName::KataSetRules
            | CommandName::KataSetRule
            | CommandName::KgsRules
            | CommandName::KgsTimeSettings
            | CommandName::LzAnalyze
            | CommandName::KataAnalyze
            | CommandName::LzGenmoveAnalyze
            | CommandName::KataGenmoveAnalyze
            | CommandName::Analyze
            | CommandName::GenmoveAnalyze
            | CommandName::KataRawNn
            | CommandName::KataGetParam
            | CommandName::KataSetParam => ArgShape::ListString,
            _ => ArgShape::Nothing,
        }
    }

    /// The word that is sent for the name.
    pub fn as_str(&self) -> (r: &'static str)
        ensures
            r@ == Self::encoded(*self),
    {
        match self {
            CommandName::ProtocolVersion => "protocol_version",
            CommandName::Name => "name",
            CommandName::Version => "version",
            CommandName::ListCommands => "list_commands",
            CommandName::Quit => "quit",
            CommandName::ClearBoard => "clear_board",
            CommandName::Undo => "undo",
            CommandName::FinalScore => "final_score",
            CommandName::Showboard => "showboard",
            CommandName::KnownCommand => "known_command",
            CommandName::Boardsize => "boardsize",
            CommandName::Komi => "komi",
            CommandName::FixedHandicap => "fixed_handicap",
            CommandName::PlaceFreeHandicap => "place_free_handicap",
            CommandName::SetFreeHandicap => "set_free_handicap",
            CommandName::Play => "play",
            CommandName::Genmove => "genmove",
            CommandName::TimeSettings => "time_settings",
            CommandName::TimeLeft => "time_left",
            CommandName::FinalStatusList => "final_status_list",
            CommandName::Loadsgf => "loadsgf",
            CommandName::RegGenmove => "reg_genmove",
            CommandName::Unknown => "unknown",
            CommandName::RectangularBoardsize => "rectangular_boardsize",
            CommandName::SetPosition => "set_position",
            CommandName::ClearCache => "clear_cache",
            CommandName::Stop => "stop",
            CommandName::KataGetRules => "kata-get-rules",
            CommandName::KataSetRules => "kata-set-rules",
            CommandName::KataSetRule => "kata-set-rule",
            CommandName::KgsRules => "kgs-rules",
            CommandName::KgsTimeSettings => "kgs-time_settings",
            CommandName::LzAnalyze => "lz-analyze",
            CommandName::KataAnalyze => "kata-analyze",
            CommandName::LzGenmoveAnalyze => "lz-genmove_analyze",
            CommandName::KataGenmoveAnalyze => "kata-genmove_analyze",
            CommandName::Analyze => "analyze",
            CommandName::GenmoveAnalyze => "genmove_analyze",
            CommandName::KataRawNn => "kata-raw-nn",
            CommandName::KataGetParam => "kata-get-param",
            CommandName::Cputime => "cputime",
            CommandName::GomillCputime => "gomill-cpu_time",
            CommandName::GetKomi => "get_komi",
            CommandName::KataListTimeSettings => "kata-list_time_settings",
            CommandName::KataSetParam => "kata-set-param",
        }
    }

    /// The word that is sent for the name.
    pub fn to_string(&self) -> (r: String)
        ensures
            r@ == Self::encoded(*self),
    {
        let mut out: Vec<char> = Vec::new();
        push_str(&mut out, self.as_str());
        string_of(out.as_slice())
    }

    /// Decodes a word.
    pub fn from_chars(s: &[char]) -> (r: Result<CommandName, ParseError>)
        ensures
            r == Self::decoded(s@),
    {
        if same_text(s, "protocol_version") {
            Ok(CommandName::ProtocolVersion)
        }         else if same_text(s, "name") {
            Ok(CommandName::Name)
        }         else if same_text(s, "version") {
            Ok(CommandName::Version)
        }         else if same_text(s, "list_commands") {
            Ok(CommandName::ListCommands)
        }         else if same_text(s, "quit") {
            Ok(CommandName::Quit)
        }         else if same_text(s, "clear_board") {
            Ok(CommandName::ClearBoard)
        }         else if same_text(s, "undo") {
            Ok(CommandName::Undo)
        }         else if same_text(s, "final_score") {
            Ok(CommandName::FinalScore)
        }         else if same_text(s, "showboard") {
            Ok(CommandName::Showboard)
        }         else if same_text(s, "known_command") {
            Ok(CommandName::KnownCommand)
        }         else if same_text(s, "boardsize") {
            Ok(CommandName::Boardsize)
        }         else if same_text(s, "komi") {
            Ok(CommandName::Komi)
        }         else if same_text(s, "fixed_handicap") {
            Ok(CommandName::FixedHandicap)
        }         else if same_text(s, "place_free_handicap") {
            Ok(CommandName::PlaceFreeHandicap)
        }         else if same_text(s, "set_free_handicap") {
            Ok(CommandName::SetFreeHandicap)
        }         else if same_text(s, "play") {
            Ok(CommandName::Play)
        }         else if same_text(s, "genmove") {
            Ok(CommandName::Genmove)
        }         else if same_text(s, "time_settings") {
            Ok(CommandName::TimeSettings)
        }         else if same_text(s, "time_left") {
            Ok(CommandName::TimeLeft)
        }         else if same_text(s, "final_status_list") {
            Ok(CommandName::FinalStatusList)
        }         else if same_text(s, "loadsgf") {
            Ok(CommandName::Loadsgf)
        }         else if same_text(s, "reg_genmove") {
            Ok(CommandName::RegGenmove)
        }         else if same_text(s, "rectangular_boardsize") {
            Ok(CommandName::RectangularBoardsize)
        }         else if same_text(s, "set_position") {
            Ok(CommandName::SetPosition)
        }         else if same_text(s, "clear_cache") {
            Ok(CommandName::ClearCache)
        }         else if same_text(s, "stop") {
            Ok(CommandName::Stop)
        }         else if same_text(s, "kata-get-rules") {
            Ok(CommandName::KataGetRules)
        }         else if same_text(s, "kata-set-rules") {
            Ok(CommandName::KataSetRules)
        }         else if same_text(s, "kata-set-rule") {
            Ok(CommandName::KataSetRule)
        }         else if same_text(s, "kgs-rules") {
            Ok(CommandName::KgsRules)
        }         else if same_text(s, "kgs-time_settings") {
            Ok(CommandName::KgsTimeSettings)
        }         else if same_text(s, "lz-analyze") {
            Ok(CommandName::LzAnalyze)
        }         else if same_text(s, "kata-analyze") {
            Ok(CommandName::KataAnalyze)
        }         else if same_text(s, "lz-genmove_analyze") {
            Ok(CommandName::LzGenmoveAnalyze)
        }         else if same_text(s, "kata-genmove_analyze") {
            Ok(CommandName::KataGenmoveAnalyze)
        }         else if same_text(s, "analyze") {
            Ok(CommandName::Analyze)
        }         else if same_text(s, "genmove_analyze") {
            Ok(CommandName::GenmoveAnalyze)
        }         else if same_text(s, "kata-raw-nn") {
            Ok(CommandName::KataRawNn)
        }         else if same_text(s, "kata-get-param") {
            Ok(CommandName::KataGetParam)
        }         else if same_text(s, "cputime") {
            Ok(CommandName::Cputime)
        }         else if same_text(s, "gomill-cpu_time") {
            Ok(CommandName::GomillCputime)
        }         else if same_text(s, "get_komi") {
            Ok(CommandName::GetKomi)
        }         else if same_text(s, "kata-list_time_settings") {
            Ok(CommandName::KataListTimeSettings)
        }         else if same_text(s, "kata-set-param") {
            Ok(CommandName::KataSetParam)
        } else {
            Err(ParseError::WrongAlternative)
        }
    }

    /// Decodes a word.
    pub fn from_str(s: &str) -> (r: Result<CommandName, ParseError>)
        ensures
            r == Self::decoded(s@),
    {
        let chars = chars_of(s);
        Self::from_chars(chars.as_slice())
    }
}

impl Entity for CommandName {
    /// The word that is sent for a name.
    open spec fn encoded(n: CommandName) -> Seq<char> {
        match n {
            CommandName::ProtocolVersion => "protocol_version"@,
            CommandName::Name => "name"@,
            CommandName::Version => "version"@,
            CommandName::ListCommands => "list_commands"@,
            CommandName::Quit => "quit"@,
            CommandName::ClearBoard => "clear_board"@,
            CommandName::Undo => "undo"@,
            CommandName::FinalScore => "final_score"@,
            CommandName::Showboard => "showboard"@,
            CommandName::KnownCommand => "known_command"@,
            CommandName::Boardsize => "boardsize"@,
            CommandName::Komi => "komi"@,
            CommandName::FixedHandicap => "fixed_handicap"@,
            CommandName::PlaceFreeHandicap => "place_free_handicap"@,
            CommandName::SetFreeHandicap => "set_free_handicap"@,
            CommandName::Play => "play"@,
            CommandName::Genmove => "genmove"@,
            CommandName::TimeSettings => "time_settings"@,
            CommandName::TimeLeft => "time_left"@,
            CommandName::FinalStatusList => "final_status_list"@,
            CommandName::Loadsgf => "loadsgf"@,
            CommandName::RegGenmove => "reg_genmove"@,
            CommandName::Unknown => "unknown"@,
            CommandName::RectangularBoardsize => "rectangular_boardsize"@,
            CommandName::SetPosition => "set_position"@,
            CommandName::ClearCache => "clear_cache"@,
            CommandName::Stop => "stop"@,
            CommandName::KataGetRules => "kata-get-rules"@,
            CommandName::KataSetRules => "kata-set-rules"@,
            CommandName::KataSetRule => "kata-set-rule"@,
            CommandName::KgsRules => "kgs-rules"@,
            CommandName::KgsTimeSettings => "kgs-time_settings"@,
            CommandName::LzAnalyze => "lz-analyze"@,
            CommandName::KataAnalyze => "kata-analyze"@,
            CommandName::LzGenmoveAnalyze => "lz-genmove_analyze"@,
            CommandName::KataGenmoveAnalyze => "kata-genmove_analyze"@,
            CommandName::Analyze => "analyze"@,
            CommandName::GenmoveAnalyze => "genmove_analyze"@,
            CommandName::KataRawNn => "kata-raw-nn"@,
            CommandName::KataGetParam => "kata-get-param"@,
            CommandName::Cputime => "cputime"@,
            CommandName::GomillCputime => "gomill-cpu_time"@,
            CommandName::GetKomi => "get_komi"@,
            CommandName::KataListTimeSettings => "kata-list_time_settings"@,
            CommandName::KataSetParam => "kata-set-param"@,
        }
    }

    /// The name that a word stands for. Case counts.
    open spec fn decoded(s: Seq<char>) -> Result<CommandName, ParseError> {
        if s == "protocol_version"@ {
            Ok(CommandName::ProtocolVersion)
        }         else if s == "name"@ {
            Ok(CommandName::Name)
        }         else if s == "version"@ {
            Ok(CommandName::Version)
        }         else if s == "list_commands"@ {
            Ok(CommandName::ListCommands)
        }         else if s == "quit"@ {
            Ok(CommandName::Quit)
        }         else if s == "clear_board"@ {
            Ok(CommandName::ClearBoard)
        }         else if s == "undo"@ {
            Ok(CommandName::Undo)
        }         else if s == "final_score"@ {
            Ok(CommandName::FinalScore)
        }         else if s == "showboard"@ {
            Ok(CommandName::Showboard)
        }         else if s == "known_command"@ {
            Ok(CommandName::KnownCommand)
        }         else if s == "boardsize"@ {
            Ok(CommandName::Boardsize)
        }         else if s == "komi"@ {
            Ok(CommandName::Komi)
        }         else if s == "fixed_handicap"@ {
            Ok(CommandName::FixedHandicap)
        }         else if s == "place_free_handicap"@ {
            Ok(CommandName::PlaceFreeHandicap)
        }         else if s == "set_free_handicap"@ {
            Ok(CommandName::SetFreeHandicap)
        }         else if s == "play"@ {
            Ok(CommandName::Play)
        }         else if s == "genmove"@ {
            Ok(CommandName::Genmove)
        }         else if s == "time_settings"@ {
            Ok(CommandName::TimeSettings)
        }         else if s == "time_left"@ {
            Ok(CommandName::TimeLeft)
        }         else if s == "final_status_list"@ {
            Ok(CommandName::FinalStatusList)
        }         else if s == "loadsgf"@ {
            Ok(CommandName::Loadsgf)
        }         else if s == "reg_genmove"@ {
            Ok(CommandName::RegGenmove)
        }         else if s == "rectangular_boardsize"@ {
            Ok(CommandName::RectangularBoardsize)
        }         else if s == "set_position"@ {
            Ok(CommandName::SetPosition)
        }         else if s == "clear_cache"@ {
            Ok(CommandName::ClearCache)
        }         else if s == "stop"@ {
            Ok(CommandName::Stop)
        }         else if s == "kata-get-rules"@ {
            Ok(CommandName::KataGetRules)
        }         else if s == "kata-set-rules"@ {
            Ok(CommandName::KataSetRules)
        }         else if s == "kata-set-rule"@ {
            Ok(CommandName::KataSetRule)
        }         else if s == "kgs-rules"@ {
            Ok(CommandName::KgsRules)
        }         else if s == "kgs-time_settings"@ {
            Ok(CommandName::KgsTimeSettings)
        }         else if s == "lz-analyze"@ {
            Ok(CommandName::LzAnalyze)
        }         else if s == "kata-analyze"@ {
            Ok(CommandName::KataAnalyze)
        }         else if s == "lz-genmove_analyze"@ {
            Ok(CommandName::LzGenmoveAnalyze)
        }         else if s == "kata-genmove_analyze"@ {
            Ok(CommandName::KataGenmoveAnalyze)
        }         else if s == "analyze"@ {
            Ok(CommandName::Analyze)
        }         else if s == "genmove_analyze"@ {
            Ok(CommandName::GenmoveAnalyze)
        }         else if s == "kata-raw-nn"@ {
            Ok(CommandName::KataRawNn)
        }         else if s == "kata-get-param"@ {
            Ok(CommandName::KataGetParam)
        }         else if s == "cputime"@ {
            Ok(CommandName::Cputime)
        }         else if s == "gomill-cpu_time"@ {
            Ok(CommandName::GomillCputime)
        }         else if s == "get_komi"@ {
            Ok(CommandName::GetKomi)
        }         else if s == "kata-list_time_settings"@ {
            Ok(CommandName::KataListTimeSettings)
        }         else if s == "kata-set-param"@ {
            Ok(CommandName::KataSetParam)
        } else {
            Err(ParseError::WrongAlternative)
        }
    }

    /// One word.
    open spec fn width() -> nat {
        1
    }

    fn word_count() -> (n: usize) {
        1
    }

    fn encode(&self, out: &mut Vec<char>) {
        push_str(out, self.as_str())
    }

    fn decode(s: &[char]) -> (r: Result<Self, ParseError>) {
        Self::from_chars(s)
    }
}

impl FromSpecImpl<String> for CommandName {
    open spec fn obeys_from_spec() -> bool {
        true
    }

    /// The name that the word stands for, and `Unknown` for any other word.
    open spec fn from_spec(s: String) -> CommandName {
        match CommandName::decoded(s@) {
            Ok(n) => n,
            Err(_) => CommandName::Unknown,
        }
    }
}

impl From<String> for CommandName {
    fn from(s: String) -> (r: CommandName) {
        match CommandName::from_str(s.as_str()) {
            Ok(n) => n,
            Err(_) => CommandName::Unknown,
        }
    }
}


/// The arguments of a command.
#[derive(Debug, Clone)]
pub enum Args {
    Collection(Collection),
    ListVertex(List<Vertex>),
    ListMove(List<Move>),
    ListString(List<String>),
    String(String),
    Float(Float),
    Int(u32),
    Entity(SimpleEntity),
    KataSize(RectSize),
}

/// What arguments hold, as mathematical values.
pub enum ArgsView {
    Collection(Seq<SimpleEntity>),
    ListVertex(Seq<Vertex>),
    ListMove(Seq<Move>),
    ListString(Seq<Seq<char>>),
    String(Seq<char>),
    Float(Seq<char>),
    Int(u32),
    Entity(SimpleEntity),
    KataSize((u32, u32)),
}

impl View for Args {
    type V = ArgsView;

    open spec fn view(&self) -> ArgsView {
        match self {
            Args::Collection(c) => ArgsView::Collection(c@),
            Args::ListVertex(l) => ArgsView::ListVertex(l@),
            Args::ListMove(l) => ArgsView::ListMove(l@),
            Args::ListString(l) => ArgsView::ListString(l@),
            Args::String(s) => ArgsView::String(s@),
            Args::Float(f) => ArgsView::Float(f@),
            Args::Int(i) => ArgsView::Int(*i),
            Args::Entity(e) => ArgsView::Entity(*e),
            Args::KataSize(s) => ArgsView::KataSize(s@),
        }
    }
}

impl Args {
    /// Arguments that are an integer.
    pub fn integer(v: u32) -> (r: Self)
        ensures
            r == Args::Int(v),
    {
        Args::Int(v)
    }

    /// What is held, where the arguments are an integer; the arguments
    /// themselves otherwise.
    pub fn to_int(self) -> (r: Result<u32, Self>)
        ensures
            r == (match self {
                Args::Int(v) => Ok::<u32, Args>(v),
                other => Err::<u32, Args>(other),
            }),
    {
        match self {
            Args::Int(v) => Ok(v),
            _ => Err(self),
        }
    }

    /// What is held, where the arguments are an integer.
    pub fn as_int(&self) -> (r: Option<&u32>)
        ensures
            r == (match self {
                Args::Int(v) => Some(v),
                _ => None::<&u32>,
            }),
    {
        match self {
            Args::Int(v) => Some(v),
            _ => None,
        }
    }

    /// Arguments that are a floating-point number.
    pub fn float(v: Float) -> (r: Self)
        ensures
            r == Args::Float(v),
    {
        Args::Float(v)
    }

    /// What is held, where the arguments are a floating-point number; the arguments
    /// themselves otherwise.
    pub fn to_float(self) -> (r: Result<Float, Self>)
        ensures
            r == (match self {
                Args::Float(v) => Ok::<Float, Args>(v),
                other => Err::<Float, Args>(other),
            }),
    {
        match self {
            Args::Float(v) => Ok(v),
            _ => Err(self),
        }
    }

    /// What is held, where the arguments are a floating-point number.
    pub fn as_float(&self) -> (r: Option<&Float>)
        ensures
            r == (match self {
                Args::Float(v) => Some(v),
                _ => None::<&Float>,
            }),
    {
        match self {
            Args::Float(v) => Some(v),
            _ => None,
        }
    }

    /// Arguments that are free text.
    pub fn string(v: String) -> (r: Self)
        ensures
            r == Args::String(v),
    {
        Args::String(v)
    }

    /// What is held, where the arguments are free text; the arguments
    /// themselves otherwise.
    pub fn to_string(self) -> (r: Result<String, Self>)
        ensures
            r == (match self {
                Args::String(v) => Ok::<String, Args>(v),
                other => Err::<String, Args>(other),
            }),
    {
        match self {
            Args::String(v) => Ok(v),
            _ => Err(self),
        }
    }

    /// What is held, where the arguments are free text.
    pub fn as_string(&self) -> (r: Option<&String>)
        ensures
            r == (match self {
                Args::String(v) => Some(v),
                _ => None::<&String>,
            }),
    {
        match self {
            Args::String(v) => Some(v),
            _ => None,
        }
    }

    /// Arguments that are a collection.
    pub fn collection(v: Collection) -> (r: Self)
        ensures
            r == Args::Collection(v),
    {
        Args::Collection(v)
    }

    /// What is held, where the arguments are a collection; the arguments
    /// themselves otherwise.
    pub fn to_collection(self) -> (r: Result<Collection, Self>)
        ensures
            r == (match self {
                Args::Collection(v) => Ok::<Collection, Args>(v),
                other => Err::<Collection, Args>(other),
            }),
    {
        match self {
            Args::Collection(v) => Ok(v),
            _ => Err(self),
        }
    }

    /// What is held, where the arguments are a collection.
    pub fn as_collection(&self) -> (r: Option<&Collection>)
        ensures
            r == (match self {
                Args::Collection(v) => Some(v),
                _ => None::<&Collection>,
            }),
    {
        match self {
            Args::Collection(v) => Some(v),
            _ => None,
        }
    }

    /// Arguments that are a list of vertices.
    pub fn list_vertex(v: List<Vertex>) -> (r: Self)
        ensures
            r == Args::ListVertex(v),
    {
        Args::ListVertex(v)
    }

    /// What is held, where the arguments are a list of vertices; the arguments
    /// themselves otherwise.
    pub fn to_list_vertex(self) -> (r: Result<List<Vertex>, Self>)
        ensures
            r == (match self {
                Args::ListVertex(v) => Ok::<List<Vertex>, Args>(v),
                other => Err::<List<Vertex>, Args>(other),
            }),
    {
        match self {
            Args::ListVertex(v) => Ok(v),
            _ => Err(self),
        }
    }

    /// What is held, where the arguments are a list of vertices.
    pub fn as_list_vertex(&self) -> (r: Option<&List<Vertex>>)
        ensures
            r == (match self {
                Args::ListVertex(v) => Some(v),
                _ => None::<&List<Vertex>>,
            }),
    {
        match self {
            Args::ListVertex(v) => Some(v),
            _ => None,
        }
    }

    /// Arguments that are a list of moves.
    pub fn list_move(v: List<Move>) -> (r: Self)
        ensures
            r == Args::ListMove(v),
    {
        Args::ListMove(v)
    }

    /// What is held, where the arguments are a list of moves; the arguments
    /// themselves otherwise.
    pub fn to_list_move(self) -> (r: Result<List<Move>, Self>)
        ensures
            r == (match self {
                Args::ListMove(v) => Ok::<List<Move>, Args>(v),
                other => Err::<List<Move>, Args>(other),
            }),
    {
        match self {
            Args::ListMove(v) => Ok(v),
            _ => Err(self),
        }
    }

    /// What is held, where the arguments are a list of moves.
    pub fn as_list_move(&self) -> (r: Option<&List<Move>>)
        ensures
            r == (match self {
                Args::ListMove(v) => Some(v),
                _ => None::<&List<Move>>,
            }),
    {
        match self {
            Args::ListMove(v) => Some(v),
            _ => None,
        }
    }

    /// Arguments that are a list of words.
    pub fn list_string(v: List<String>) -> (r: Self)
        ensures
            r == Args::ListString(v),
    {
        Args::ListString(v)
    }

    /// What is held, where the arguments are a list of words; the arguments
    /// themselves otherwise.
    pub fn to_list_string(self) -> (r: Result<List<String>, Self>)
        ensures
            r == (match self {
                Args::ListString(v) => Ok::<List<String>, Args>(v),
                other => Err::<List<String>, Args>(other),
            }),
    {
        match self {
            Args::ListString(v) => Ok(v),
            _ => Err(self),
        }
    }

    /// What is held, where the arguments are a list of words.
    pub fn as_list_string(&self) -> (r: Option<&List<String>>)
        ensures
            r == (match self {
                Args::ListString(v) => Some(v),
                _ => None::<&List<String>>,
            }),
    {
        match self {
            Args::ListString(v) => Some(v),
            _ => None,
        }
    }

    /// Arguments that are a vertex, colour or move.
    pub fn entity(v: SimpleEntity) -> (r: Self)
        ensures
            r == Args::Entity(v),
    {
        Args::Entity(v)
    }

    /// What is held, where the arguments are a vertex, colour or move; the arguments
    /// themselves otherwise.
    pub fn to_entity(self) -> (r: Result<SimpleEntity, Self>)
        ensures
            r == (match self {
                Args::Entity(v) => Ok::<SimpleEntity, Args>(v),
                other => Err::<SimpleEntity, Args>(other),
            }),
    {
        match self {
            Args::Entity(v) => Ok(v),
            _ => Err(self),
        }
    }

    /// What is held, where the arguments are a vertex, colour or move.
    pub fn as_entity(&self) -> (r: Option<&SimpleEntity>)
        ensures
            r == (match self {
                Args::Entity(v) => Some(v),
                _ => None::<&SimpleEntity>,
            }),
    {
        match self {
            Args::Entity(v) => Some(v),
            _ => None,
        }
    }

    /// Arguments that are a board size.
    pub fn kata_size(v: RectSize) -> (r: Self)
        ensures
            r == Args::KataSize(v),
    {
        Args::KataSize(v)
    }

    /// What is held, where the arguments are a board size; the arguments
    /// themselves otherwise.
    pub fn to_kata_size(self) -> (r: Result<RectSize, Self>)
        ensures
            r == (match self {
                Args::KataSize(v) => Ok::<RectSize, Args>(v),
                other => Err::<RectSize, Args>(other),
            }),
    {
        match self {
            Args::KataSize(v) => Ok(v),
            _ => Err(self),
        }
    }

    /// What is held, where the arguments are a board size.
    pub fn as_kata_size(&self) -> (r: Option<&RectSize>)
        ensures
            r == (match self {
                Args::KataSize(v) => Some(v),
                _ => None::<&RectSize>,
            }),
    {
        match self {
            Args::KataSize(v) => Some(v),
            _ => None,
        }
    }

    /// The text of arguments.
    pub open spec fn encoded(a: ArgsView) -> Seq<char> {
        match a {
            ArgsView::Collection(c) => Collection::encoded(c),
            ArgsView::ListVertex(l) => List::<Vertex>::encoded(l),
            ArgsView::ListMove(l) => List::<Move>::encoded(l),
            ArgsView::ListString(l) => List::<String>::encoded(l),
            ArgsView::String(s) => s,
            ArgsView::Float(f) => f,
            ArgsView::Int(i) => numeral(i as nat),
            ArgsView::Entity(e) => SimpleEntity::encoded(e),
            ArgsView::KataSize(s) => RectSize::encoded(s),
        }
    }

    /// The arguments that a text stands for under a shape. Numbers that do
    /// not read as such are wrong arguments; any other failure keeps the
    /// error of the value that failed.
    pub open spec fn decoded(shape: ArgShape, s: Seq<char>) -> Result<Option<ArgsView>, ParseError> {
        match shape {
            ArgShape::Nothing => Ok(None),
            ArgShape::Text => Ok(Some(ArgsView::String(s))),
            ArgShape::Int => match unsigned(s, u32::MAX as nat) {
                Some(n) => Ok(Some(ArgsView::Int(n as u32))),
                None => Err(ParseError::WrongArgs),
            },
            ArgShape::Float => if is_float(s) {
                Ok(Some(ArgsView::Float(s)))
            } else {
                Err(ParseError::WrongArgs)
            },
            ArgShape::ListVertex => match List::<Vertex>::decoded(s) {
                Ok(l) => Ok(Some(ArgsView::ListVertex(l))),
                Err(e) => Err(e),
            },
            ArgShape::Entity => match SimpleEntity::decoded(s) {
                Ok(e) => Ok(Some(ArgsView::Entity(e))),
                Err(e) => Err(e),
            },
            ArgShape::Collection => match Collection::decoded(s) {
                Ok(c) => Ok(Some(ArgsView::Collection(c))),
                Err(e) => Err(e),
            },
            ArgShape::ListMove => match List::<Move>::decoded(s) {
                Ok(l) => Ok(Some(ArgsView::ListMove(l))),
                Err(e) => Err(e),
            },
            ArgShape::Size => match RectSize::decoded(s) {
                Ok(size) => Ok(Some(ArgsView::KataSize(size))),
                Err(e) => Err(e),
            },
            ArgShape::ListString => match List::<String>::decoded(s) {
                Ok(l) => Ok(Some(ArgsView::ListString(l))),
                Err(e) => Err(e),
            },
        }
    }

    /// Appends the text of the arguments to `out`.
    pub fn write(&self, out: &mut Vec<char>)
        ensures
            final(out)@ == old(out)@ + Self::encoded(self@),
    {
        match self {
            Args::Collection(c) => c.write(out),
            Args::ListVertex(l) => l.write(out),
            Args::ListMove(l) => l.write(out),
            Args::ListString(l) => l.write(out),
            Args::String(s) => push_str(out, s.as_str()),
            Args::Float(f) => f.write(out),
            Args::Int(i) => push_numeral(out, *i as u64),
            Args::Entity(e) => e.write(out),
            Args::KataSize(s) => s.write(out),
        }
    }

    /// The text of the arguments.
    pub fn format(&self) -> (r: String)
        ensures
            r@ == Self::encoded(self@),
    {
        let mut out: Vec<char> = Vec::new();
        self.write(&mut out);
        string_of(out.as_slice())
    }

    /// Decodes the text of the arguments of a command whose arguments have
    /// the shape `shape`.
    pub fn from_chars(shape: ArgShape, s: &[char]) -> (r: Result<Option<Args>, ParseError>)
        ensures
            match r {
                Ok(a) => Self::decoded(shape, s@) == Ok::<Option<ArgsView>, ParseError>(view_of(a)),
                Err(e) => Self::decoded(shape, s@) == Err::<Option<ArgsView>, ParseError>(e),
            },
    {
        match shape {
            ArgShape::Nothing => Ok(None),
            ArgShape::Text => Ok(Some(Args::String(string_of(s)))),
            ArgShape::Int => match parse_unsigned(s, u32::MAX as u64) {
                Some(n) => Ok(Some(Args::Int(n as u32))),
                None => Err(ParseError::WrongArgs),
            },
            ArgShape::Float => match Float::from_chars(s) {
                Some(f) => Ok(Some(Args::Float(f))),
                None => Err(ParseError::WrongArgs),
            },
            ArgShape::ListVertex => match List::<Vertex>::from_chars(s) {
                Ok(l) => Ok(Some(Args::ListVertex(l))),
                Err(e) => Err(e),
            },
            ArgShape::Entity => match SimpleEntity::from_chars(s) {
                Ok(e) => Ok(Some(Args::Entity(e))),
                Err(e) => Err(e),
            },
            ArgShape::Collection => match Collection::from_chars(s) {
                Ok(c) => Ok(Some(Args::Collection(c))),
                Err(e) => Err(e),
            },
            ArgShape::ListMove => match List::<Move>::from_chars(s) {
                Ok(l) => Ok(Some(Args::ListMove(l))),
                Err(e) => Err(e),
            },
            ArgShape::Size => match RectSize::from_chars(s) {
                Ok(size) => Ok(Some(Args::KataSize(size))),
                Err(e) => Err(e),
            },
            ArgShape::ListString => match List::<String>::from_chars(s) {
                Ok(l) => Ok(Some(Args::ListString(l))),
                Err(e) => Err(e),
            },
        }
    }
}

/// A command: an optional number by which its answer is known, its name,
/// and its arguments.
#[derive(Debug, Clone)]
pub struct Command {
    id: Option<u32>,
    name: CommandName,
    args: Option<Args>,
}

/// What a command holds, as mathematical values.
pub struct CommandView {
    pub id: Option<u32>,
    pub name: CommandName,
    pub args: Option<ArgsView>,
}

impl View for Command {
    type V = CommandView;

    closed spec fn view(&self) -> CommandView {
        CommandView { id: self.id, name: self.name, args: view_of(self.args) }
    }
}

impl Command {
    /// The command without a number.
    pub fn new(name: CommandName, args: Option<Args>) -> (r: Self)
        ensures
            r@ == (CommandView { id: None, name, args: view_of(args) }),
    {
        Command { id: None, name, args }
    }

    /// The command with the number `id`.
    pub fn with_id(id: u32, name: CommandName, args: Option<Args>) -> (r: Self)
        ensures
            r@ == (CommandView { id: Some(id), name, args: view_of(args) }),
    {
        Command { id: Some(id), name, args }
    }

    /// The number of the command.
    pub fn id(&self) -> (r: &Option<u32>)
        ensures
            *r == self@.id,
    {
        &self.id
    }

    /// The number of the command, to be changed in place.
    pub fn id_mut(&mut self) -> (r: &mut Option<u32>)
        ensures
            *r == old(self)@.id,
            final(self)@ == (CommandView { id: *final(r), ..old(self)@ }),
    {
        &mut self.id
    }

    /// The name of the command.
    pub fn name(&self) -> (r: CommandName)
        ensures
            r == self@.name,
    {
        self.name
    }

    /// The arguments of the command.
    pub fn args(&self) -> (r: &Option<Args>)
        ensures
            view_of(*r) == self@.args,
    {
        &self.args
    }

    /// The arguments of the command, to be changed in place.
    pub fn args_mut(&mut self) -> (r: &mut Option<Args>)
        ensures
            view_of(*r) == old(self)@.args,
            final(self)@ == (CommandView { args: view_of(*final(r)), ..old(self)@ }),
    {
        &mut self.args
    }

    /// The line that is sent for a command: the number and a space, where
    /// there is a number; the name; a space and the arguments, where there
    /// are arguments; a line break.
    pub open spec fn encoded(c: CommandView) -> Seq<char> {
        (match c.id {
            Some(id) => numeral(id as nat) + seq![' '],
            None => Seq::empty(),
        }) + CommandName::encoded(c.name) + (match c.args {
            Some(a) => seq![' '] + Args::encoded(a),
            None => Seq::empty(),
        }) + seq!['\n']
    }

    /// The command that a line stands for.
    ///
    /// The line is read word by word. A first word that is an unsigned
    /// integer is the number. The next word is the name. The words after
    /// it, with one space between each two, are the text of the arguments,
    /// which the shape that goes with the name decodes.
    ///
    /// A line without words is an empty string. A line whose name is
    /// missing or names no command has a wrong command name. Arguments
    /// that do not decode fail with their own error.
    pub open spec fn decoded(s: Seq<char>) -> Result<CommandView, ParseError> {
        let parts = words(s, Spacing::Ascii);
        if parts.len() == 0 {
            Err(ParseError::EmptyString)
        } else {
            let number = unsigned(parts[0], u32::MAX as nat);
            let id = match number {
                Some(n) => Some(n as u32),
                None => None,
            };
            let rest = if number.is_some() {
                parts.skip(1)
            } else {
                parts
            };
            if rest.len() == 0 {
                Err(ParseError::WrongCommandName)
            } else {
                Self::finished(id, CommandName::decoded(rest[0]), join(rest.skip(1), seq![' ']))
            }
        }
    }

    /// The command with the number `id` and the name that `name` found,
    /// where `text` decodes to arguments of the shape that goes with the
    /// name.
    pub open spec fn finished(
        id: Option<u32>,
        name: Result<CommandName, ParseError>,
        text: Seq<char>,
    ) -> Result<CommandView, ParseError> {
        match name {
            Err(_) => Err(ParseError::WrongCommandName),
            Ok(name) => match Args::decoded(CommandName::shape_of(name), text) {
                Err(e) => Err(e),
                Ok(args) => Ok(CommandView { id, name, args }),
            },
        }
    }

    /// Appends the line of the command to `out`.
    pub fn write(&self, out: &mut Vec<char>)
        ensures
            final(out)@ == old(out)@ + Self::encoded(self@),
    {
        let ghost head = match self@.id {
            Some(id) => numeral(id as nat) + seq![' '],
            None => Seq::empty(),
        };
        let ghost tail = match self@.args {
            Some(a) => seq![' '] + Args::encoded(a),
            None => Seq::empty(),
        };
        if let Some(id) = self.id {
            push_numeral(out, id as u64);
            out.push(' ');
        }
        assert(out@ == old(out)@ + head);
        push_str(out, self.name.as_str());
        let ghost named = out@;
        if let Some(args) = &self.args {
            out.push(' ');
            args.write(out);
        }
        assert(out@ == named + tail);
        out.push('\n');
        assert(out@ == old(out)@ + (head + CommandName::encoded(self@.name) + tail + seq!['\n']));
    }

    /// The line of the command.
    pub fn to_string(&self) -> (r: String)
        ensures
            r@ == Self::encoded(self@),
    {
        let mut out: Vec<char> = Vec::new();
        self.write(&mut out);
        string_of(out.as_slice())
    }

    /// Decodes a line.
    pub fn from_chars(s: &[char]) -> (r: Result<Command, ParseError>)
        ensures
            agrees(r, Self::decoded(s@)),
    {
        let parts = split_words(s, Spacing::Ascii);
        if parts.len() == 0 {
            return Err(ParseError::EmptyString);
        }
        assert(texts(parts@)[0] == parts@[0]@);
        let number = parse_unsigned(parts[0].as_slice(), u32::MAX as u64);
        let (id, at): (Option<u32>, usize) = match number {
            Some(n) => (Some(n as u32), 1),
            None => (None, 0),
        };
        let ghost rest = texts(parts@).skip(at as int);
        if at == parts.len() {
            return Err(ParseError::WrongCommandName);
        }
        assert(rest[0] == parts@[at as int]@);
        let name = match CommandName::from_chars(parts[at].as_slice()) {
            Ok(n) => n,
            Err(_) => { return Err(ParseError::WrongCommandName); },
        };
        let text = join_from(&parts, at + 1);
        assert(rest.skip(1) == texts(parts@).skip(at + 1));
        match Args::from_chars(name.shape(), text.as_slice()) {
            Ok(args) => Ok(Command { id, name, args }),
            Err(e) => Err(e),
        }
    }

    /// Decodes a line.
    pub fn from_str(s: &str) -> (r: Result<Command, ParseError>)
        ensures
            agrees(r, Self::decoded(s@)),
    {
        let chars = chars_of(s);
        Self::from_chars(chars.as_slice())
    }
}


impl core::str::FromStr for RectSize {
    type Err = ParseError;

    /// Decodes a text.
    fn from_str(s: &str) -> (r: Result<Self, ParseError>)
        ensures
            agrees(r, RectSize::decoded(s@)),
    {
        RectSize::from_str(s)
    }
}

impl core::str::FromStr for CommandName {
    type Err = ParseError;

    /// Decodes a text.
    fn from_str(s: &str) -> (r: Result<Self, ParseError>)
        ensures
            r == CommandName::decoded(s@),
    {
        CommandName::from_str(s)
    }
}

impl core::str::FromStr for Command {
    type Err = ParseError;

    /// Decodes a text.
    fn from_str(s: &str) -> (r: Result<Self, ParseError>)
        ensures
            agrees(r, Command::decoded(s@)),
    {
        Command::from_str(s)
    }
}

} // verus!
