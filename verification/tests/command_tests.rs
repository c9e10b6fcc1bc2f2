use tycoon::command::{classify, dispatch, normalize, parse_command, Command};

#[test]
fn produce_routes_the_same_in_any_case_and_with_white_space_around() {
    assert_eq!(parse_command(" produce "), Command::Produce);
    assert_eq!(parse_command("PRODUCE"), Command::Produce);
    assert_eq!(parse_command("Produce"), Command::Produce);
}

#[test]
fn procure_is_produce() {
    assert_eq!(parse_command("procure"), Command::Produce);
    assert_eq!(parse_command("\tProCure\n"), Command::Produce);
}

#[test]
fn quit_exit_and_abort_are_exit() {
    assert_eq!(parse_command("quit"), Command::Exit);
    assert_eq!(parse_command("Exit"), Command::Exit);
    assert_eq!(parse_command(" ABORT "), Command::Exit);
}

#[test]
fn the_sentinel_text_is_no_reply() {
    assert_eq!(parse_command("Noop"), Command::NoReply);
    assert_eq!(parse_command(" noop"), Command::NoReply);
}

#[test]
fn anything_else_is_invalid() {
    assert_eq!(parse_command(""), Command::Invalid);
    assert_eq!(parse_command("help"), Command::Invalid);
    assert_eq!(parse_command("produce now"), Command::Invalid);
    assert_eq!(parse_command("pro duce"), Command::Invalid);
    assert_eq!(parse_command("todo!"), Command::Invalid);
}

#[test]
fn normalize_trims_then_raises_the_case() {
    assert_eq!(normalize(" produce "), "PRODUCE");
    assert_eq!(normalize("stra\u{df}e"), "STRASSE");
    assert_eq!(normalize(""), "");
}

#[test]
fn classify_takes_the_normal_form_only() {
    assert_eq!(classify("PRODUCE"), Command::Produce);
    assert_eq!(classify("PROCURE"), Command::Produce);
    assert_eq!(classify("QUIT"), Command::Exit);
    assert_eq!(classify("EXIT"), Command::Exit);
    assert_eq!(classify("ABORT"), Command::Exit);
    assert_eq!(classify("NOOP"), Command::NoReply);
    assert_eq!(classify("produce"), Command::Invalid);
    assert_eq!(classify(" PRODUCE"), Command::Invalid);
}

#[test]
fn dispatch_takes_no_reply_for_the_timeout() {
    assert_eq!(dispatch(None), Command::NoReply);
    assert_eq!(dispatch(Some("quit")), Command::Exit);
    assert_eq!(dispatch(Some("what")), Command::Invalid);
}
