//! Parser behaviour: every command form, whitespace handling, leftover
//! input, and the documented examples.
use escpos2mqtt::printer;
use escpos2mqtt::program::documentation::all_commands;
use escpos2mqtt::program::{Command, Program};
use escpos2mqtt::printer::{Font, JustifyMode, UnderlineMode};

#[test]
fn program_test_add() {
    assert_eq!(
        Command::parse("writeln \"rofl\""),
        Ok(("", Command::Raw(printer::Command::Write(String::from("rofl\n")))))
    );
    assert_eq!(
        Command::parse("bold true"),
        Ok(("", Command::Raw(printer::Command::Bold(true))))
    );
    assert_eq!(
        Command::parse("bold false"),
        Ok(("", Command::Raw(printer::Command::Bold(false))))
    );
    assert_eq!(
        Command::parse("underline none"),
        Ok(("", Command::Raw(printer::Command::Underline(UnderlineMode::Off))))
    );
    assert_eq!(
        Command::parse("underline single"),
        Ok(("", Command::Raw(printer::Command::Underline(UnderlineMode::Single))))
    );
    assert_eq!(
        Command::parse("underline double"),
        Ok(("", Command::Raw(printer::Command::Underline(UnderlineMode::Double))))
    );
    assert_eq!(
        Command::parse("font a"),
        Ok(("", Command::Raw(printer::Command::Font(Font::A))))
    );
    assert_eq!(
        Command::parse("font b"),
        Ok(("", Command::Raw(printer::Command::Font(Font::B))))
    );
    assert_eq!(
        Command::parse("font c"),
        Ok(("", Command::Raw(printer::Command::Font(Font::C))))
    );
    assert_eq!(
        Command::parse("flip true"),
        Ok(("", Command::Raw(printer::Command::Flip(true))))
    );
    assert_eq!(
        Command::parse("flip false"),
        Ok(("", Command::Raw(printer::Command::Flip(false))))
    );
    assert_eq!(
        Command::parse("justify left"),
        Ok(("", Command::Raw(printer::Command::Justify(JustifyMode::Left))))
    );
    assert_eq!(
        Command::parse("justify center"),
        Ok(("", Command::Raw(printer::Command::Justify(JustifyMode::Center))))
    );
    assert_eq!(
        Command::parse("justify right"),
        Ok(("", Command::Raw(printer::Command::Justify(JustifyMode::Right))))
    );
    assert_eq!(
        Command::parse("feed 1"),
        Ok(("", Command::Raw(printer::Command::Feed(1))))
    );
    assert_eq!(
        Command::parse("feed 128"),
        Ok(("", Command::Raw(printer::Command::Feed(128))))
    );
    assert_eq!(
        Command::parse("feed"),
        Ok(("", Command::Raw(printer::Command::Feed(1))))
    );
    assert_eq!(
        Command::parse("ean13 1234567890123"),
        Ok(("", Command::Raw(printer::Command::Ean13(String::from("1234567890123")))))
    );
    assert_eq!(
        Command::parse("ean8 12345678"),
        Ok(("", Command::Raw(printer::Command::Ean8(String::from("12345678")))))
    );
    assert_eq!(
        Command::parse("qr_code \"rofl.de\""),
        Ok(("", Command::Raw(printer::Command::QrCode(String::from("rofl.de")))))
    );

    let string = "write \"asdf\"\n     \twriteln \"rofl\"\ncut";
    let command = Program::parse(&string);
    assert_eq!(
        command,
        Ok((
            "",
            Program {
                commands: vec![
                    Command::Raw(printer::Command::Write(String::from("asdf"))),
                    Command::Raw(printer::Command::Write(String::from("rofl\n"))),
                    Command::Raw(printer::Command::Cut)
                ]
            }
        ))
    );
}

#[test]
fn parser_test_add() {
    let string = "write \"asdf\"\t\n   \n\n\t\n  \twriteln \"rofl\"\ncut";
    let command = Program::parse(&string);
    assert_eq!(
        command,
        Ok((
            "",
            Program {
                commands: vec![
                    Command::Raw(printer::Command::Write(String::from("asdf"))),
                    Command::Raw(printer::Command::Write(String::from("rofl\n"))),
                    Command::Raw(printer::Command::Cut)
                ]
            }
        ))
    );
}

#[test]
fn test_all_documented_examples_parse() {
    let commands = all_commands();
    assert!(
        !commands.is_empty(),
        "No commands registered - parser may not be loaded"
    );

    let mut total_examples = 0;
    let mut failed_examples = Vec::new();
    let num_commands = commands.len();

    for cmd in &commands {
        for example in &cmd.examples {
            total_examples += 1;

            match Command::parse(example) {
                Ok((remaining, _parsed_cmd)) => {
                    if !remaining.is_empty() {
                        failed_examples.push(format!(
                            "Command '{}' example '{}' left unparsed input: '{}'",
                            cmd.name, example, remaining
                        ));
                    }
                }
                Err(e) => {
                    failed_examples.push(format!(
                        "Command '{}' example '{}' failed to parse: {:?}",
                        cmd.name, example, e
                    ));
                }
            }
        }
    }

    if !failed_examples.is_empty() {
        panic!(
            "Failed to parse {} out of {} examples:\n{}",
            failed_examples.len(),
            total_examples,
            failed_examples.join("\n")
        );
    }

    println!(
        "Successfully parsed all {} examples from {} commands",
        total_examples, num_commands
    );
}

#[test]
fn parse_empty_input_gives_empty_program() {
    assert_eq!(Program::parse(""), Ok(("", Program { commands: vec![] })));
}

#[test]
fn parse_handles_escapes() {
    assert_eq!(
        Command::parse("write \"a\\\"b\\\\c\""),
        Ok(("", Command::Raw(printer::Command::Write(String::from("a\"b\\c")))))
    );
}

#[test]
fn parse_rejects_malformed_escape() {
    assert!(Command::parse("write \"a\\x\"").is_err());
}

#[test]
fn parse_rejects_unterminated_string() {
    assert!(Command::parse("write \"abc").is_err());
}

#[test]
fn parse_allows_empty_quoted_string() {
    assert_eq!(
        Command::parse("write \"\""),
        Ok(("", Command::Raw(printer::Command::Write(String::new()))))
    );
}

#[test]
fn parse_size_pair() {
    assert_eq!(
        Command::parse("size 3,1"),
        Ok(("", Command::Raw(printer::Command::Size(3, 1))))
    );
    assert!(Command::parse("size 3").is_err());
}

#[test]
fn parse_rejects_feed_overflow() {
    // the numeric rule rejects the overflowing value, so the bare-feed rule
    // wins and the number is left over; at line level the whole line fails
    assert_eq!(
        Command::parse("feed 300"),
        Ok((" 300", Command::Raw(printer::Command::Feed(1))))
    );
    let (leftover, program) = Program::parse("feed 300").unwrap();
    assert_eq!(leftover, "feed 300");
    assert!(program.commands.is_empty());
}

#[test]
fn parse_ean13_digit_bounds() {
    assert_eq!(
        Command::parse("ean13 123456789012"),
        Ok(("", Command::Raw(printer::Command::Ean13(String::from("123456789012")))))
    );
    // eleven digits are too few for any rule
    assert!(Command::parse("ean13 12345678901").is_err());
    // a fourteenth digit is left over
    assert_eq!(
        Command::parse("ean13 12345678901234"),
        Ok(("4", Command::Raw(printer::Command::Ean13(String::from("1234567890123")))))
    );
}

#[test]
fn parse_case_insensitive_arguments() {
    assert_eq!(
        Command::parse("bold TRUE"),
        Ok(("", Command::Raw(printer::Command::Bold(true))))
    );
    assert_eq!(
        Command::parse("underline Single"),
        Ok(("", Command::Raw(printer::Command::Underline(UnderlineMode::Single))))
    );
}

#[test]
fn parse_stops_at_unknown_keyword() {
    let input = "cut\nnonsense 1\ncut";
    let (leftover, program) = Program::parse(input).unwrap();
    assert_eq!(leftover, "nonsense 1\ncut");
    assert_eq!(
        program,
        Program { commands: vec![Command::Raw(printer::Command::Cut)] }
    );
}

#[test]
fn parse_expandable_directives() {
    let (leftover, program) = Program::parse("sudoku\nminicrossword\ntodo \"Call dentist\"").unwrap();
    assert_eq!(leftover, "");
    assert_eq!(
        program,
        Program {
            commands: vec![
                Command::Sudoku,
                Command::MiniCrossword,
                Command::ToDo(String::from("Call dentist")),
            ]
        }
    );
}

#[test]
fn parse_crlf_line_endings() {
    let (leftover, program) = Program::parse("cut\r\nfeed 2\r\n").unwrap();
    assert_eq!(leftover, "");
    assert_eq!(
        program,
        Program {
            commands: vec![
                Command::Raw(printer::Command::Cut),
                Command::Raw(printer::Command::Feed(2)),
            ]
        }
    );
}
