use relay_bot::command::{clip_reply, mention_text, parse_command, Command};

#[test]
fn simple_commands() {
    assert!(matches!(parse_command("!help"), Command::Help));
    assert!(matches!(parse_command("!helpme"), Command::Help));
    assert!(matches!(parse_command("!ping"), Command::Ping));
    assert!(matches!(parse_command("!hello there"), Command::Hello));
    assert!(matches!(parse_command("!clear"), Command::Clear));
    assert!(matches!(parse_command("!contextchannel"), Command::ContextChannel));
    assert!(matches!(parse_command("!contextuser"), Command::ContextUser));
    assert!(matches!(parse_command("hello bot"), Command::Chat));
    assert!(matches!(parse_command(" !help"), Command::Chat));
}

#[test]
fn system_prompt_command() {
    assert!(matches!(parse_command("!systemprompt   "), Command::ShowSystemPrompt));
    match parse_command("!systemprompt  Be nice. ") {
        Command::SetSystemPrompt(t) => assert_eq!(t, "Be nice."),
        other => panic!("unexpected {:?}", other),
    }
}

#[test]
fn cap_command() {
    assert!(matches!(parse_command("!cap"), Command::ShowCap));
    assert!(matches!(parse_command("!cap 500"), Command::SetCap(500)));
    assert!(matches!(parse_command("!cap 0"), Command::InvalidCap));
    assert!(matches!(parse_command("!cap 501"), Command::InvalidCap));
    assert!(matches!(parse_command("!cap ten"), Command::InvalidCap));
    assert!(matches!(parse_command("!cap!cap 3"), Command::SetCap(3)));
}

#[test]
fn character_commands() {
    assert!(matches!(parse_command("!addcharacter"), Command::AddCharacterUsage));
    match parse_command("!addcharacter Pyuul") {
        Command::AddCharacter(n) => assert_eq!(n, "Pyuul"),
        other => panic!("unexpected {:?}", other),
    }
    assert!(matches!(parse_command("!removecharacter  "), Command::RemoveCharacterUsage));
    match parse_command("!removecharacter Zara") {
        Command::RemoveCharacter(n) => assert_eq!(n, "Zara"),
        other => panic!("unexpected {:?}", other),
    }
    assert!(matches!(parse_command("!levelcheck"), Command::LevelCheck(true)));
    assert!(matches!(parse_command("!levelcheckraw"), Command::LevelCheck(false)));
}

#[test]
fn mention_body() {
    assert_eq!(mention_text("<@123> what is up? "), "what is up?");
    assert_eq!(mention_text("<@123>"), "");
    assert_eq!(mention_text(" no mention "), " no mention ");
}

#[test]
fn long_replies_are_clipped() {
    let short = "x".repeat(1990);
    assert_eq!(clip_reply(short.clone()), short);
    let long = "y".repeat(2500);
    let clipped = clip_reply(long);
    assert_eq!(clipped.len(), 1993);
    assert!(clipped.ends_with("..."));
    // a two-byte character straddling the limit is left out whole
    let mixed = format!("{}{}", "a".repeat(1989), "\u{e9}".repeat(5));
    let clipped = clip_reply(mixed);
    assert_eq!(clipped, format!("{}...", "a".repeat(1989)));
}
