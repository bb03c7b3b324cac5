use boundwire::cli::{parse_args, Command, DEFAULT_ADDRESS};

fn parse(arguments: &[&str]) -> Result<Command, String> {
    parse_args(arguments.iter().map(|argument| (*argument).to_owned()).collect())
}

#[test]
fn serve_uses_default_address() {
    assert_eq!(
        parse(&["serve"]),
        Ok(Command::Serve(DEFAULT_ADDRESS.to_owned()))
    );
}

#[test]
fn serve_accepts_custom_address() {
    assert_eq!(
        parse(&["serve", "0.0.0.0:9000"]),
        Ok(Command::Serve("0.0.0.0:9000".to_owned()))
    );
}

#[test]
fn subscribe_uses_default_or_custom_address() {
    assert_eq!(
        parse(&["subscribe", "blocks"]),
        Ok(Command::Subscribe {
            topic: "blocks".to_owned(),
            address: DEFAULT_ADDRESS.to_owned(),
        })
    );
    assert_eq!(
        parse(&["subscribe", "blocks", "127.0.0.1:8000"]),
        Ok(Command::Subscribe {
            topic: "blocks".to_owned(),
            address: "127.0.0.1:8000".to_owned(),
        })
    );
}

#[test]
fn publish_uses_default_or_custom_address() {
    assert_eq!(
        parse(&["publish", "blocks", "block-100"]),
        Ok(Command::Publish {
            topic: "blocks".to_owned(),
            payload: "block-100".to_owned(),
            address: DEFAULT_ADDRESS.to_owned(),
        })
    );
    assert_eq!(
        parse(&["publish", "blocks", "block-100", "127.0.0.1:8000"]),
        Ok(Command::Publish {
            topic: "blocks".to_owned(),
            payload: "block-100".to_owned(),
            address: "127.0.0.1:8000".to_owned(),
        })
    );
}

#[test]
fn help_is_available_at_both_levels() {
    assert_eq!(parse(&["--help"]), Ok(Command::Help));
    assert_eq!(parse(&["serve", "--help"]), Ok(Command::Help));
    assert_eq!(parse(&["subscribe", "--help"]), Ok(Command::Help));
    assert_eq!(parse(&["publish", "--help"]), Ok(Command::Help));
}

#[test]
fn invalid_arguments_are_rejected() {
    assert_eq!(parse(&[]), Err("missing command".to_owned()));
    assert_eq!(parse(&["run"]), Err("unknown command: run".to_owned()));
    assert_eq!(parse(&["subscribe"]), Err("invalid arguments".to_owned()));
    assert_eq!(
        parse(&["publish", "blocks"]),
        Err("invalid arguments".to_owned())
    );
    assert_eq!(
        parse(&["serve", "127.0.0.1:7000", "extra"]),
        Err("invalid arguments".to_owned())
    );
}

#[test]
fn the_short_flag_asks_for_help() {
    assert_eq!(parse(&["-h"]), Ok(Command::Help));
    assert_eq!(parse(&["publish", "-h"]), Ok(Command::Help));
    assert_eq!(parse(&["-h", "serve"]), Err("unknown command: -h".to_owned()));
    assert_eq!(parse(&["serve", "-h", "extra"]), Err("invalid arguments".to_owned()));
    assert_eq!(
        parse(&["subscribe", "blocks", "--help"]),
        Ok(Command::Subscribe { topic: "blocks".to_owned(), address: "--help".to_owned() })
    );
}

#[test]
fn leaving_out_the_address_is_giving_the_default() {
    assert_eq!(DEFAULT_ADDRESS, "127.0.0.1:7000");
    assert_eq!(parse(&["serve"]), parse(&["serve", "127.0.0.1:7000"]));
    assert_eq!(
        parse(&["subscribe", "blocks"]),
        parse(&["subscribe", "blocks", "127.0.0.1:7000"])
    );
    assert_eq!(
        parse(&["publish", "blocks", "x"]),
        parse(&["publish", "blocks", "x", "127.0.0.1:7000"])
    );
}

#[test]
fn too_many_arguments_are_rejected() {
    assert_eq!(parse(&["subscribe", "a", "b", "c"]), Err("invalid arguments".to_owned()));
    assert_eq!(parse(&["publish", "a", "b", "c", "d"]), Err("invalid arguments".to_owned()));
    assert_eq!(parse(&["fly", "a", "b"]), Err("unknown command: fly".to_owned()));
}
