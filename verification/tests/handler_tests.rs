use rand::rngs::StdRng;
use rand::SeedableRng;
use randregex::generator::GenerationError;
use randregex::handler::{
    call_reply, error_reply, generate_text, not_found_reply, parse_command, plan, remove_reply,
    sample_reply, save_reply, typed, within_limit, Command, CommandError, Step, Stored, TextError,
    LENGTH_LIMIT,
};
use randregex::parser::ParseError;

fn s(text: &str) -> String {
    text.to_string()
}

#[test]
fn sample_commands_take_the_rest_as_pattern() {
    for name in ["regex", "regexp", "rand", "random", "randregex", "randregexp"] {
        assert_eq!(
            parse_command(&format!("/{} a|b  c", name)),
            Ok(Command::RandRegexp(s("a|b  c")))
        );
        assert_eq!(parse_command(&format!("/{}", name)), Ok(Command::RandRegexp(s(""))));
    }
    assert_eq!(
        parse_command("  \t/rand   [a-c]{3} \n"),
        Ok(Command::RandRegexp(s("[a-c]{3}")))
    );
    assert_eq!(
        parse_command("/rand /rand x"),
        Ok(Command::RandRegexp(s("/rand x")))
    );
    assert_eq!(
        parse_command("/rand\u{3000}あ\u{3000}"),
        Ok(Command::RandRegexp(s("あ")))
    );
}

#[test]
fn save_takes_a_key_and_a_pattern() {
    assert_eq!(
        parse_command("/save dice [1-6]"),
        Ok(Command::Save { key: s("dice"), value: s("[1-6]") })
    );
    assert_eq!(
        parse_command("/memory  k   a b  c  "),
        Ok(Command::Save { key: s("k"), value: s("a b  c") })
    );
    assert_eq!(
        parse_command("/save k"),
        Ok(Command::Save { key: s("k"), value: s("") })
    );
    assert_eq!(
        parse_command("/save ab ab"),
        Ok(Command::Save { key: s("ab"), value: s("ab") })
    );
    assert_eq!(parse_command("/save"), Err(CommandError::MissingKey));
    assert_eq!(parse_command("/memory   "), Err(CommandError::MissingKey));
}

#[test]
fn call_and_remove_take_exactly_one_key() {
    assert_eq!(parse_command("/call dice"), Ok(Command::Call(s("dice"))));
    assert_eq!(parse_command("/load  dice "), Ok(Command::Call(s("dice"))));
    assert_eq!(parse_command("/call"), Err(CommandError::MissingKey));
    assert_eq!(parse_command("/call a b"), Err(CommandError::KeyWithSpace));
    for name in ["remove", "delete", "forget"] {
        assert_eq!(
            parse_command(&format!("/{} dice", name)),
            Ok(Command::Remove(s("dice")))
        );
        assert_eq!(parse_command(&format!("/{}", name)), Err(CommandError::MissingKey));
        assert_eq!(
            parse_command(&format!("/{} a b c", name)),
            Err(CommandError::KeyWithSpace)
        );
    }
}

#[test]
fn join_and_leave_take_anything() {
    assert_eq!(parse_command("/join"), Ok(Command::Join));
    assert_eq!(parse_command("/join now please"), Ok(Command::Join));
    assert_eq!(parse_command("/leave"), Ok(Command::Leave));
    assert_eq!(parse_command(" /bye "), Ok(Command::Leave));
}

#[test]
fn a_message_without_a_slash_is_no_command() {
    assert_eq!(parse_command(""), Err(CommandError::NotACommand));
    assert_eq!(parse_command("   "), Err(CommandError::NotACommand));
    assert_eq!(parse_command("hello /rand a"), Err(CommandError::NotACommand));
    assert_eq!(parse_command("rand a"), Err(CommandError::NotACommand));
}

#[test]
fn unknown_commands_are_named() {
    assert_eq!(parse_command("/dance a"), Err(CommandError::Unknown(s("dance"))));
    assert_eq!(parse_command("/"), Err(CommandError::Unknown(s(""))));
    assert_eq!(parse_command("/rand/rand x"), Err(CommandError::Unknown(s("rand/rand"))));
    assert_eq!(parse_command("/Rand x"), Err(CommandError::Unknown(s("Rand"))));
    assert_eq!(parse_command("/randx"), Err(CommandError::Unknown(s("randx"))));
}

#[test]
fn command_errors_have_their_messages() {
    assert_eq!(CommandError::NotACommand.message(), "/ で始まるコマンドが必須です");
    assert_eq!(CommandError::MissingKey.message(), "key が必須です");
    assert_eq!(
        CommandError::KeyWithSpace.message(),
        "key に空白を含めることはできません"
    );
    assert_eq!(CommandError::Unknown(s("dance")).message(), "unknown command /dance");
    assert!(CommandError::NotACommand.is_optional());
    assert!(!CommandError::MissingKey.is_optional());
    assert!(!CommandError::KeyWithSpace.is_optional());
    assert!(!CommandError::Unknown(s("x")).is_optional());
}

#[test]
fn within_limit_counts_bytes() {
    assert_eq!(within_limit("a".repeat(LENGTH_LIMIT)), Ok("a".repeat(LENGTH_LIMIT)));
    assert_eq!(
        within_limit("a".repeat(LENGTH_LIMIT + 1)),
        Err(TextError::TooLong(LENGTH_LIMIT + 1))
    );
    assert_eq!(within_limit("あ".repeat(1000)), Ok("あ".repeat(1000)));
    assert_eq!(within_limit("あ".repeat(1001)), Err(TextError::TooLong(3003)));
    assert_eq!(within_limit(String::new()), Ok(String::new()));
}

#[test]
fn generate_text_reports_each_failure() {
    let mut rng = StdRng::seed_from_u64(211);
    assert_eq!(generate_text("a{3}", &mut rng), Ok(s("aaa")));
    assert_eq!(
        generate_text("a)", &mut rng),
        Err(TextError::Parse(ParseError { position: 1 }))
    );
    assert_eq!(
        generate_text(r"\a", &mut rng),
        Err(TextError::Generate(GenerationError::InvalidEscape))
    );
    assert_eq!(generate_text("a{3000}", &mut rng), Ok("a".repeat(3000)));
    assert_eq!(generate_text("a{3001}", &mut rng), Err(TextError::TooLong(3001)));
    assert_eq!(
        generate_text("[\u{D7FF}-\u{E000}]{200}", &mut rng),
        Err(TextError::Generate(GenerationError::InvalidCodepoint))
    );
}

#[test]
fn typed_text_drops_mentions_of_the_reader_and_opens_other_marks() {
    let mention = r#"!{"type":"user","raw":"@BOT_x","id":"0a0b"}"#;
    let other = r##"!{"type":"channel","raw":"#general","id":"1234"}"##;
    let text = format!("{} /rand a {}", mention, other);
    assert_eq!(
        typed(&text, true, "BOT_x", "0a0b"),
        Some(" /rand a #general".to_string())
    );
    assert_eq!(
        typed(&text, false, "BOT_x", "0a0b"),
        Some("@BOT_x /rand a #general".to_string())
    );
    assert_eq!(typed("/rand a", true, "BOT_x", "0a0b"), Some("/rand a".to_string()));
    assert_eq!(typed("/rand a", true, "BOT_(", "0a0b"), None);
}

#[test]
fn mention_regex_is_written_around_name_and_identifier() {
    assert_eq!(
        randregex::handler::mention_regex("BOT_x", "0a0b"),
        r#"!\{"type":"user","raw":"@BOT_x","id":"0a0b"\}"#
    );
}

#[test]
fn replies_are_worded_by_outcome() {
    assert_eq!(save_reply("k", "a|b", &Stored::Done), "Saved: k => a|b");
    assert_eq!(save_reply("k", "a|b", &Stored::Duplicate), "Key \"k\" is already exists");
    assert_eq!(
        save_reply("k", "a|b", &Stored::Failed(s("gone"))),
        "Failed to save: gone"
    );
    assert_eq!(remove_reply("k", &Ok(true)), "Removed: k");
    assert_eq!(remove_reply("k", &Ok(false)), "Key \"k\" is not found");
    assert_eq!(remove_reply("k", &Err(s("gone"))), "Failed to remove: gone");
    assert_eq!(not_found_reply("k"), "Key \"k\" is not found");
    let mut rng = StdRng::seed_from_u64(223);
    assert_eq!(call_reply("k", Ok(Some(s("a{2}"))), &mut rng), "aa");
    assert_eq!(call_reply("k", Ok(None), &mut rng), "Key \"k\" is not found");
    assert_eq!(
        call_reply("k", Err(s("gone")), &mut rng),
        "Failed to get from database: gone"
    );
    assert_eq!(
        call_reply("k", Ok(Some(s("a)"))), &mut rng),
        "Failed to parse: ParseError { position: 1 }"
    );
    assert_eq!(sample_reply(Ok(s("x"))), "x");
    assert_eq!(
        sample_reply(Err(TextError::TooLong(3001))),
        "Generated text is too long: 3001 > 3000"
    );
    assert_eq!(
        sample_reply(Err(TextError::Generate(GenerationError::InvalidEscape))),
        "Failed to generate: InvalidEscape"
    );
    assert_eq!(
        sample_reply(Err(TextError::Generate(GenerationError::InvalidCodepoint))),
        "Failed to generate: InvalidCodepoint"
    );
    assert_eq!(
        sample_reply(Err(TextError::Generate(GenerationError::EmptyClass))),
        "Failed to generate: EmptyClass"
    );
    assert_eq!(
        sample_reply(Err(TextError::Parse(ParseError { position: 120 }))),
        format!("Failed to parse: {:?}", ParseError { position: 120 })
    );
    assert_eq!(error_reply(&CommandError::NotACommand, false), None);
    assert_eq!(
        error_reply(&CommandError::NotACommand, true),
        Some(s("/ で始まるコマンドが必須です"))
    );
    assert_eq!(
        error_reply(&CommandError::MissingKey, false),
        Some(s("key が必須です"))
    );
}

#[test]
fn plan_decides_by_command() {
    let mut rng = StdRng::seed_from_u64(227);
    assert_eq!(plan("/rand a{3}", true, true, &mut rng), Step::Ignore);
    assert_eq!(plan("/rand a{3}", false, false, &mut rng), Step::Reply(s("aaa")));
    assert_eq!(
        plan("/rand a)", false, false, &mut rng),
        Step::Reply(s("Failed to parse: ParseError { position: 1 }"))
    );
    assert_eq!(
        plan("/save k a|b", false, false, &mut rng),
        Step::Save { key: s("k"), value: s("a|b") }
    );
    assert_eq!(plan("/call k", false, false, &mut rng), Step::Call(s("k")));
    assert_eq!(plan("/forget k", false, false, &mut rng), Step::Remove(s("k")));
    assert_eq!(plan("/join", false, false, &mut rng), Step::Join);
    assert_eq!(plan("/bye", false, false, &mut rng), Step::Leave);
    assert_eq!(plan("hello", false, false, &mut rng), Step::Ignore);
    assert_eq!(
        plan("hello", false, true, &mut rng),
        Step::Reply(s("/ で始まるコマンドが必須です"))
    );
    assert_eq!(
        plan("/dance", false, false, &mut rng),
        Step::Reply(s("unknown command /dance"))
    );
    assert_eq!(plan("/call", false, false, &mut rng), Step::Reply(s("key が必須です")));
}
