use tcp_log_lab::device::{answer, reply_for_command};
use tcp_log_lab::network::{
    apply_command, axis_args, initial_motor_state, invalid_axis_reply, normalize_request, respond, server_address, Command, Response,
    MotorState, DEFAULT_PORT,
};
use tcp_log_lab::text::{contains_chars, split_words, string_from_chars, trim_string, push_zero_padded};

#[test]
fn address_of_the_server() {
    assert_eq!(server_address(), "127.0.0.1:8080");
    assert_eq!(DEFAULT_PORT, 8080);
}

#[test]
fn requests_are_lowercased_and_trimmed() {
    assert_eq!(normalize_request(b"  STATUS\r\n"), "status");
    assert_eq!(normalize_request(b"Axis 1 2 3\n"), "axis 1 2 3");
    assert_eq!(normalize_request(b""), "");
}

#[test]
fn invalid_bytes_are_replaced() {
    assert_eq!(normalize_request(&[b'o', b'n', 0xff]), "on\u{fffd}");
}

#[test]
fn commands_are_recognised() {
    assert_eq!(Command::parse("status"), Command::Status);
    assert_eq!(Command::parse("vers"), Command::Version);
    assert_eq!(Command::parse("on"), Command::Enable);
    assert_eq!(Command::parse("enable"), Command::Enable);
    assert_eq!(Command::parse("off"), Command::Disable);
    assert_eq!(Command::parse("disable"), Command::Disable);
    assert_eq!(Command::parse("axis 1 2 3"), Command::Axis);
    assert_eq!(Command::parse("axisfoo"), Command::Axis);
    assert_eq!(Command::parse("axi"), Command::Unknown);
    assert_eq!(Command::parse("stat"), Command::Unknown);
    assert_eq!(Command::parse(""), Command::Unknown);
    assert_eq!(Command::parse("on please"), Command::Unknown);
}

#[test]
fn commands_change_the_motor_state() {
    let s = initial_motor_state();
    assert_eq!(s, MotorState::Ready);
    let s = apply_command(s, Command::Enable);
    assert_eq!(s, MotorState::On);
    let s = apply_command(s, Command::Status);
    assert_eq!(s, MotorState::On);
    let s = apply_command(s, Command::Disable);
    assert_eq!(s, MotorState::Off);
    assert_eq!(apply_command(s, Command::Axis), MotorState::Off);
    assert_eq!(apply_command(s, Command::Unknown), MotorState::Off);
    assert_eq!(apply_command(s, Command::Version), MotorState::Off);
}

#[test]
fn fixed_replies() {
    assert_eq!(Command::Version.reply(), Some("the version is 1.2".to_string()));
    assert_eq!(Command::Enable.reply(), Some("Motor telemetry modified to ON.".to_string()));
    assert_eq!(Command::Disable.reply(), Some("Motor telemetry modified to OFF.".to_string()));
    assert_eq!(Command::Unknown.reply(), Some("i dont see no command like that ".to_string()));
    assert_eq!(Command::Status.reply(), None);
    assert_eq!(Command::Axis.reply(), None);
    assert_eq!(invalid_axis_reply(), "invalid man ");
}

#[test]
fn axis_arguments() {
    assert_eq!(axis_args("axis 1 2 3"), vec!["1", "2", "3"]);
    assert_eq!(axis_args("axis  1.5\t-2   3e1 9"), vec!["1.5", "-2", "3e1"]);
    assert_eq!(axis_args("axisfoo 7"), vec!["7"]);
    assert_eq!(axis_args("axis"), Vec::<String>::new());
}

#[test]
fn device_replies_from_readme() {
    assert_eq!(answer(b"vers\n"), Some("Version is 1.11\n".to_string()));
    assert_eq!(answer(b"on\n"), Some("System turned ON\n".to_string()));
    assert_eq!(answer(b"off\n"), Some("System turned OFF\n".to_string()));
}

#[test]
fn device_other_input() {
    assert_eq!(answer(b"  VERS "), Some("Unknown command\n".to_string()));
    assert_eq!(answer(b"\toff\r\n"), Some("System turned OFF\n".to_string()));
    assert_eq!(answer(b"hello"), Some("Unknown command\n".to_string()));
    assert_eq!(answer(&[0xff, 0xfe]), None);
    assert_eq!(reply_for_command("vers"), "Version is 1.11\n");
}

#[test]
fn text_helpers() {
    assert_eq!(trim_string("\u{3000} a b \u{85}"), "a b");
    let chars: Vec<char> = " ab  c ".chars().collect();
    let words: Vec<String> = split_words(&chars).iter().map(|w| string_from_chars(w)).collect();
    assert_eq!(words, vec!["ab", "c"]);
    let hay: Vec<char> = "xxstoppyy".chars().collect();
    let pat: Vec<char> = "stopp".chars().collect();
    assert!(contains_chars(&hay, &pat));
    assert!(!contains_chars(&pat, &hay));
    let mut out = Vec::new();
    push_zero_padded(&mut out, 7, 3);
    assert_eq!(out, vec!['0', '0', '7']);
}

#[test]
fn respond_dispatches_requests() {
    let (s, r) = respond(MotorState::Ready, "enable");
    assert_eq!(s, MotorState::On);
    assert!(matches!(r, Response::Text(ref t) if t == "Motor telemetry modified to ON."));
    let (s, r) = respond(s, "status");
    assert_eq!(s, MotorState::On);
    assert!(matches!(r, Response::StatusReport(MotorState::On)));
    let (s, r) = respond(s, "axis 1 2");
    assert_eq!(s, MotorState::On);
    match r {
        Response::AxisWords(w) => assert_eq!(w, vec!["1", "2"]),
        _ => panic!("expected axis words"),
    }
    let (s, r) = respond(s, "disable");
    assert_eq!(s, MotorState::Off);
    assert!(matches!(r, Response::Text(ref t) if t == "Motor telemetry modified to OFF."));
    let (_, r) = respond(s, "vers");
    assert!(matches!(r, Response::Text(ref t) if t == "the version is 1.2"));
    let (_, r) = respond(s, "");
    assert!(matches!(r, Response::Text(ref t) if t == "i dont see no command like that "));
}

#[test]
fn ascii_requests_are_case_insensitive() {
    let upper = normalize_request(b"STATUS");
    assert_eq!(upper, "status");
    assert_eq!(Command::parse(&upper), Command::Status);
    assert_eq!(Command::parse(&normalize_request(b" VeRs \n")), Command::Version);
}
