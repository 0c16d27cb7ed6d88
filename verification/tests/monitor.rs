use panda_plugins::monitor::{
    check_reply, handle_command, labels_reply, memory_tainted_reply, print_help_text,
    register_tainted_reply, trim, unknown_register_reply, unmapped_reply, Command, Expected,
    ParseError, Response, TaintTarget,
};

fn register(name: &str) -> TaintTarget {
    TaintTarget::Register(name.to_string())
}

fn fails(cmd: &str, column: usize, expected: Expected) {
    assert_eq!(Command::parse(cmd), Err(ParseError { column, expected }), "{:?}", cmd);
}

#[test]
fn parses_each_command() {
    assert_eq!(Command::parse("help"), Ok(Command::Help));
    assert_eq!(Command::parse("meminfo"), Ok(Command::MemInfo));
    assert_eq!(Command::parse("taint rax 5"), Ok(Command::Taint(register("rax"), 5)));
    assert_eq!(
        Command::parse("taint *0x1000 0x10"),
        Ok(Command::Taint(TaintTarget::Address(0x1000), 16))
    );
    assert_eq!(Command::parse("check_taint R12"), Ok(Command::CheckTaint(register("R12"))));
    assert_eq!(
        Command::parse("check_taint *4096"),
        Ok(Command::CheckTaint(TaintTarget::Address(4096)))
    );
    assert_eq!(Command::parse("get_taint a0"), Ok(Command::GetTaint(register("a0"))));
    assert_eq!(
        Command::parse("get_taint *0xDeadBeef"),
        Ok(Command::GetTaint(TaintTarget::Address(0xdeadbeef)))
    );
}

#[test]
fn separators_may_be_spaces_tabs_and_newlines() {
    assert_eq!(Command::parse("  help \n"), Ok(Command::Help));
    assert_eq!(Command::parse("\ttaint\t\trax\n7  "), Ok(Command::Taint(register("rax"), 7)));
}

#[test]
fn numbers_at_the_limits() {
    assert_eq!(
        Command::parse("get_taint *0xffffffffffffffff"),
        Ok(Command::GetTaint(TaintTarget::Address(u64::MAX)))
    );
    assert_eq!(
        Command::parse("get_taint *18446744073709551615"),
        Ok(Command::GetTaint(TaintTarget::Address(u64::MAX)))
    );
    fails("get_taint *18446744073709551616", 11, Expected::Number);
    fails("get_taint *0x10000000000000000", 11, Expected::Number);
    assert_eq!(Command::parse("get_taint *0"), Ok(Command::GetTaint(TaintTarget::Address(0))));
    assert_eq!(
        Command::parse("get_taint *0000000000000000000000012"),
        Ok(Command::GetTaint(TaintTarget::Address(12)))
    );
    // a label keeps the low 32 bits
    assert_eq!(Command::parse("taint rax 0x1_0000_0001".replace('_', "").as_str()), Ok(Command::Taint(register("rax"), 1)));
    assert_eq!(Command::parse("taint rax 4294967295"), Ok(Command::Taint(register("rax"), u32::MAX)));
}

#[test]
fn says_where_and_what_is_wrong() {
    fails("", 0, Expected::Command);
    fails("   ", 3, Expected::Command);
    fails("halp", 0, Expected::Command);
    fails("  Help", 2, Expected::Command);
    fails("helpme", 0, Expected::Command);
    fails("help me", 5, Expected::End);
    fails("meminfo  0", 9, Expected::End);
    fails("taint", 5, Expected::Target);
    fails("taint ", 6, Expected::Target);
    fails("taint 5", 6, Expected::Target);
    fails("taint r-x 5", 6, Expected::Target);
    fails("taint * 5", 7, Expected::Number);
    fails("taint *0x 5", 7, Expected::Number);
    fails("taint *0xg 5", 7, Expected::Number);
    fails("taint *12a 5", 7, Expected::Number);
    fails("taint rax", 9, Expected::Number);
    fails("taint rax x", 10, Expected::Number);
    fails("taint rax 0X10", 10, Expected::Number);
    fails("taint rax -1", 10, Expected::Number);
    fails("taint rax 5 6", 12, Expected::End);
    fails("check_taint", 11, Expected::Target);
    fails("check_taint rax 5", 16, Expected::End);
    fails("get_taint *1 *2", 13, Expected::End);
    fails("get_taint é", 10, Expected::Target);
}

#[test]
fn diagnostic_points_at_the_column() {
    let err = Command::parse("taint rax x").unwrap_err();
    assert_eq!(
        err.diagnostic("taint rax x"),
        "\nError:\n    taint rax x\n              ^------ Invalid syntax, expected number\n\n"
    );
    let err = Command::parse("nope").unwrap_err();
    assert_eq!(
        err.diagnostic("nope"),
        "\nError:\n    nope\n    ^------ Invalid syntax, expected one of the following: help, meminfo, taint, check_taint, get_taint\n\n"
    );
    let err = ParseError { column: 2, expected: Expected::Target };
    assert_eq!(
        err.diagnostic("ab"),
        "\nError:\n    ab\n      ^------ Invalid syntax, expected one of the following: *address, register\n\n"
    );
    let err = ParseError { column: 0, expected: Expected::End };
    assert_eq!(
        err.diagnostic(""),
        "\nError:\n    \n    ^------ Invalid syntax, expected end of input\n\n"
    );
}

#[test]
fn help_lists_the_commands() {
    assert_eq!(
        print_help_text(),
        "\nCommands:\n  meminfo - print out the current memory map\n  taint - apply taint to a given register/memory location\n  check_taint - check if a given register/memory location is tainted\n  get_taint - get the taint labels for a given register/memory location\n"
    );
}

#[test]
fn dispatch() {
    assert_eq!(handle_command(" help "), Response::Print(print_help_text()));
    assert_eq!(handle_command("meminfo"), Response::MemInfo);
    assert_eq!(
        handle_command("taint *16 1"),
        Response::Taint(TaintTarget::Address(16), 1)
    );
    assert_eq!(
        handle_command("get_taint"),
        Response::Print(
            "\nError:\n    get_taint\n             ^------ Invalid syntax, expected one of the following: *address, register\n\n"
                .to_string()
        )
    );
}

#[test]
fn dispatch_hands_on_every_command_but_help() {
    assert_eq!(handle_command("get_taint rax"), Response::GetTaint(register("rax")));
    assert_eq!(handle_command("check_taint rax"), Response::CheckTaint(register("rax")));
    assert_eq!(handle_command("taint rax 9"), Response::Taint(register("rax"), 9));
    assert_eq!(handle_command("help"), Response::Print(print_help_text()));
}

#[test]
fn replies() {
    assert_eq!(memory_tainted_reply(0x1f00), "Memory location 0x1f00 tainted.\n");
    assert_eq!(memory_tainted_reply(0), "Memory location 0x0 tainted.\n");
    assert_eq!(
        memory_tainted_reply(u64::MAX),
        "Memory location 0xffffffffffffffff tainted.\n"
    );
    assert_eq!(register_tainted_reply("RAX"), "Register RAX tainted.\n");
    assert_eq!(check_reply(true), "true\n");
    assert_eq!(check_reply(false), "false\n");
    assert_eq!(labels_reply(None), "[]\n");
    assert_eq!(labels_reply(Some(&vec![])), "[]\n");
    assert_eq!(labels_reply(Some(&vec![7])), "[7]\n");
    assert_eq!(labels_reply(Some(&vec![1, 20, 4294967295])), "[1, 20, 4294967295]\n");
}

fn written(command: &Command) -> String {
    let target = |t: &TaintTarget| match t {
        TaintTarget::Address(a) => format!("*{}", a),
        TaintTarget::Register(name) => name.clone(),
    };
    match command {
        Command::Help => "help".to_string(),
        Command::MemInfo => "meminfo".to_string(),
        Command::Taint(t, label) => format!("taint {} {}", target(t), label),
        Command::CheckTaint(t) => format!("check_taint {}", target(t)),
        Command::GetTaint(t) => format!("get_taint {}", target(t)),
    }
}

#[test]
fn a_written_command_is_read_back() {
    let commands = vec![
        Command::Help,
        Command::MemInfo,
        Command::Taint(register("rax"), 0),
        Command::Taint(register("x"), u32::MAX),
        Command::Taint(TaintTarget::Address(u64::MAX), 77),
        Command::CheckTaint(TaintTarget::Address(0)),
        Command::CheckTaint(register("R15")),
        Command::GetTaint(TaintTarget::Address(4096)),
        Command::GetTaint(register("help")),
    ];
    for command in commands {
        assert_eq!(Command::parse(&written(&command)), Ok(command));
    }
}

#[test]
fn expectations_have_their_words() {
    assert_eq!(Expected::Number.describe(), "number");
    assert_eq!(Expected::End.describe(), "end of input");
    assert_eq!(Expected::Target.describe(), "one of the following: *address, register");
    assert_eq!(
        Expected::Command.describe(),
        "one of the following: help, meminfo, taint, check_taint, get_taint"
    );
}

#[test]
fn white_space_around_a_command_is_left_aside() {
    assert_eq!(trim("  help \n"), "help");
    assert_eq!(trim("\u{a0}\u{3000}\t a b \r\n\u{2003}\u{85}"), "a b");
    assert_eq!(trim(""), "");
    assert_eq!(trim(" \t\n"), "");
    assert_eq!(trim("x"), "x");
    assert_eq!(trim("\u{200b}x\u{200b}"), "\u{200b}x\u{200b}");
    for text in ["  taint rax 5 ", "\r\nhelp", "a\u{1680}", "\u{2028}\u{2029}\u{202f}\u{205f}b"] {
        assert_eq!(trim(text), text.trim());
    }
    assert_eq!(
        handle_command(" x"),
        Response::Print(
            "\nError:\n    x\n    ^------ Invalid syntax, expected one of the following: help, meminfo, taint, check_taint, get_taint\n\n"
                .to_string()
        )
    );
    assert_eq!(
        handle_command("\r\n  taint rax x \r\n"),
        Response::Print(
            "\nError:\n    taint rax x\n              ^------ Invalid syntax, expected number\n\n"
                .to_string()
        )
    );
    assert_eq!(
        handle_command("\r\n check_taint *5\r\n"),
        Response::CheckTaint(TaintTarget::Address(5))
    );
}

#[test]
fn an_unknown_register_is_pointed_at() {
    assert_eq!(
        unknown_register_reply("  taint   taint 5 "),
        "\nError:\n    taint   taint 5\n            ^------ Invalid syntax, expected one of the following: *address, register\n\n"
    );
    assert_eq!(
        unknown_register_reply("get_taint xyz"),
        "\nError:\n    get_taint xyz\n              ^------ Invalid syntax, expected one of the following: *address, register\n\n"
    );
}

#[test]
fn an_address_without_mapping_is_reported() {
    assert_eq!(unmapped_reply(0x7fff_0000), "Memory location 0x7fff0000 is not mapped.\n");
}
