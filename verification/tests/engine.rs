use gtp_client::engine::{classify, is_banner, Inbox, LineKind};

#[test]
fn lines_are_told_apart() {
    assert_eq!(classify(""), LineKind::Empty);
    assert_eq!(classify("info move A1"), LineKind::Analysis);
    assert_eq!(classify("i"), LineKind::Analysis);
    assert_eq!(classify("= ok"), LineKind::Answer);
    assert_eq!(classify("? no"), LineKind::Answer);
    assert_eq!(classify(" info"), LineKind::Answer);
    assert_eq!(classify("Info"), LineKind::Answer);
}

#[test]
fn the_banner_is_one_line() {
    assert!(is_banner("GTP ready, beginning main protocol loop"));
    assert!(!is_banner("GTP ready, beginning main protocol loop "));
    assert!(!is_banner("gtp ready, beginning main protocol loop"));
    assert!(!is_banner(""));
}

#[test]
fn the_engine_gets_ready_once() {
    let mut inbox = Inbox::new();
    assert!(!inbox.is_ready());
    inbox.diagnostic("loading the network");
    assert!(!inbox.is_ready());
    inbox.diagnostic("GTP ready, beginning main protocol loop");
    assert!(inbox.is_ready());
    inbox.diagnostic("something else");
    assert!(inbox.is_ready());
    inbox.output(String::from("= 1"));
    inbox.discard_info();
    inbox.read_line();
    assert!(inbox.is_ready());
}

#[test]
fn answers_wait_in_their_order() {
    let mut inbox = Inbox::new();
    assert!(!inbox.has_line());
    assert_eq!(inbox.read_line(), None);
    assert_eq!(inbox.output(String::from("= first")), LineKind::Answer);
    assert_eq!(inbox.output(String::new()), LineKind::Empty);
    assert_eq!(inbox.output(String::from("? second")), LineKind::Answer);
    assert!(inbox.has_line());
    assert_eq!(inbox.read_line(), Some(String::from("= first")));
    assert_eq!(inbox.read_line(), Some(String::from("? second")));
    assert_eq!(inbox.read_line(), None);
    assert!(!inbox.has_line());
}

#[test]
fn only_the_latest_analysis_is_kept() {
    let mut inbox = Inbox::new();
    assert_eq!(inbox.read_info(), "");
    assert_eq!(inbox.output(String::from("info move A1")), LineKind::Analysis);
    assert_eq!(inbox.output(String::from("= 1")), LineKind::Answer);
    assert_eq!(inbox.output(String::from("info move B2")), LineKind::Analysis);
    assert_eq!(inbox.read_info(), "info move B2");
    assert_eq!(inbox.read_info(), "info move B2");
    assert_eq!(inbox.read_line(), Some(String::from("= 1")));
    inbox.discard_info();
    assert_eq!(inbox.read_info(), "");
}
