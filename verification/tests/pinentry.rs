use rbw::error::Error;
use rbw::pinentry::{
    calc_args, command, command_line, confirm, data_end, data_payload, env_changes, getpin,
    confirmed, greeting, hex_digit, percent_decode, process_failed, reply, secure_read_line,
    Dialogue, DialogueStep, EnvChange, Environment, LineStep, ProcessStep, Progress, LINE_CAPACITY,
};

#[test]
fn hex_digit_valid() {
    assert_eq!(hex_digit(b'0'), Some(0));
    assert_eq!(hex_digit(b'9'), Some(9));
    assert_eq!(hex_digit(b'A'), Some(10));
    assert_eq!(hex_digit(b'F'), Some(15));
    assert_eq!(hex_digit(b'a'), Some(10));
    assert_eq!(hex_digit(b'f'), Some(15));
}

#[test]
fn hex_digit_invalid() {
    assert_eq!(hex_digit(b'g'), None);
    assert_eq!(hex_digit(b'G'), None);
    assert_eq!(hex_digit(b'/'), None);
    assert_eq!(hex_digit(b':'), None);
    assert_eq!(hex_digit(b' '), None);
    assert_eq!(hex_digit(b'%'), None);
}

#[test]
fn percent_decode_empty() {
    let mut buf = [];
    assert_eq!(percent_decode(&mut buf), 0);
}

#[test]
fn percent_decode_no_encoding() {
    let mut buf = *b"hello";
    assert_eq!(percent_decode(&mut buf), 5);
    assert_eq!(&buf[..5], b"hello");
}

#[test]
fn percent_decode_simple() {
    let mut buf = *b"%20";
    assert_eq!(percent_decode(&mut buf), 1);
    assert_eq!(&buf[..1], b" ");
}

#[test]
fn percent_decode_uppercase() {
    let mut buf = *b"%4A";
    assert_eq!(percent_decode(&mut buf), 1);
    assert_eq!(&buf[..1], b"J");
}

#[test]
fn percent_decode_lowercase() {
    let mut buf = *b"%4a";
    assert_eq!(percent_decode(&mut buf), 1);
    assert_eq!(&buf[..1], b"J");
}

#[test]
fn percent_decode_mixed() {
    let mut buf = *b"a%20b";
    assert_eq!(percent_decode(&mut buf), 3);
    assert_eq!(&buf[..3], b"a b");
}

#[test]
fn percent_decode_multiple() {
    let mut buf = *b"%20%21";
    assert_eq!(percent_decode(&mut buf), 2);
    assert_eq!(&buf[..2], b" !");
}

#[test]
fn percent_decode_truncated_percent() {
    let mut buf = *b"%";
    assert_eq!(percent_decode(&mut buf), 1);
    assert_eq!(&buf[..1], b"%");
}

#[test]
fn percent_decode_truncated_pair() {
    let mut buf = *b"%2";
    assert_eq!(percent_decode(&mut buf), 2);
    assert_eq!(&buf[..2], b"%2");
}

#[test]
fn percent_decode_invalid_hex() {
    let mut buf = *b"%ZZ";
    assert_eq!(percent_decode(&mut buf), 3);
    assert_eq!(&buf[..3], b"%ZZ");
}

#[test]
fn percent_decode_invalid_second_digit() {
    let mut buf = *b"%0G";
    assert_eq!(percent_decode(&mut buf), 3);
    assert_eq!(&buf[..3], b"%0G");
}

#[test]
fn percent_decode_invalid_first_digit() {
    let mut buf = *b"%G0";
    assert_eq!(percent_decode(&mut buf), 3);
    assert_eq!(&buf[..3], b"%G0");
}

fn read_line(bytes: &[u8]) -> Vec<u8> {
    let mut buf = [0u8; LINE_CAPACITY];
    let mut len = 0;
    for b in bytes {
        match secure_read_line(&mut buf, len, *b) {
            LineStep::More(n) => len = n,
            LineStep::Line(n) => return buf[..n].to_vec(),
        }
    }
    panic!("the line does not end");
}

#[test]
fn test_secure_read_line() {
    assert_eq!(read_line(b"ciao\n"), b"ciao");
}

#[test]
fn only_the_first_line_is_read() {
    assert_eq!(read_line(b"\nrest\n"), b"");
    assert_eq!(read_line(b"OK\nrest\n"), b"OK");
    let mut long = vec![b'x'; LINE_CAPACITY];
    long.push(b'\n');
    assert_eq!(read_line(&long).len(), LINE_CAPACITY);
}

fn lines(list: &[&str]) -> Vec<Vec<u8>> {
    list.iter().map(|line| line.as_bytes().to_vec()).collect()
}

fn message(error: &str) -> Error {
    Error::PinentryErrorMessage {
        error: error.to_string(),
    }
}

#[test]
fn replies_are_told_apart() {
    assert_eq!(reply(b"OK"), Ok(Progress::Finished));
    assert_eq!(reply(b"OKAY then"), Ok(Progress::Finished));
    assert_eq!(reply(b"S PIN_REPEATED"), Ok(Progress::ReadOn));
    assert_eq!(reply(b"D secret"), Ok(Progress::ReadEnd));
    assert_eq!(
        reply(b"ERR 83886179 Operation cancelled"),
        Err(Error::PinentryCancelled)
    );
    assert_eq!(reply(b"ERR 83886179"), Err(Error::PinentryCancelled));
    assert_eq!(reply(b"ERR 1 two three"), Err(message("1 two three")));
    assert_eq!(reply(b"ERR 838861790 x"), Err(message("838861790 x")));
    assert_eq!(reply(b"what"), Err(message("what")));
    assert_eq!(reply(b"OK \xff"), Err(Error::InvalidUtf8));
}

#[test]
fn data_is_confirmed_by_ok_alone() {
    assert_eq!(data_end(b"OK"), Ok(()));
    assert_eq!(data_end(b"OK then"), Err(message("OK then")));
    assert_eq!(data_end(b"\xff"), Err(Error::InvalidUtf8));
}

#[test]
fn data_is_decoded_in_place() {
    let mut line = b"D a%25b".to_vec();
    let end = data_payload(&mut line);
    assert_eq!(&line[2..end], b"a%b");
}

#[test]
fn commands_end_with_their_reply() {
    assert_eq!(command(&lines(&[])), None);
    assert_eq!(command(&lines(&["S x", "S y"])), None);
    assert_eq!(command(&lines(&["S x", "OK done"])), Some(Ok(b"OK done".to_vec())));
    assert_eq!(command(&lines(&["D pass%20word"])), None);
    assert_eq!(
        command(&lines(&["D pass%20word", "OK"])),
        Some(Ok(b"pass word".to_vec()))
    );
    assert_eq!(
        command(&lines(&["D secret", "ERR 1"])),
        Some(Err(message("ERR 1")))
    );
    assert_eq!(
        command(&lines(&["S x", "ERR 83886179 cancelled"])),
        Some(Err(Error::PinentryCancelled))
    );
}

#[test]
fn greeting_starts_with_ok() {
    assert_eq!(greeting(b"OK Pleased to meet you"), Ok(()));
    assert_eq!(greeting(b"ERR 1"), Err(message("ERR 1")));
    assert_eq!(greeting(b"\xff"), Err(Error::InvalidUtf8));
}

#[test]
fn failed_steps_with_the_process() {
    let why = || "why".to_string();
    let text = |message: &str| message.to_string();
    assert_eq!(process_failed(ProcessStep::Spawn, why()), Error::Spawn { message: why() });
    assert_eq!(
        process_failed(ProcessStep::TakeStdin, why()),
        Error::WriteStdin {
            message: text("stdin unavailable")
        }
    );
    assert_eq!(
        process_failed(ProcessStep::TakeStdout, why()),
        Error::PinentryReadOutput {
            message: text("stdout unavailable")
        }
    );
    assert_eq!(
        process_failed(ProcessStep::Write, why()),
        Error::WriteStdin { message: why() }
    );
    assert_eq!(
        process_failed(ProcessStep::Wait, why()),
        Error::PinentryWait { message: why() }
    );
}

#[test]
fn commands_are_lines() {
    assert_eq!(command_line("GETPIN"), "GETPIN\n");
}

#[test]
fn secret_dialogue() {
    assert_eq!(
        getpin("prompt", "desc", None),
        ["SETTITLE rbw", "SETPROMPT prompt", "SETDESC desc", "GETPIN"]
    );
    assert_eq!(
        getpin("prompt", "desc", Some("wrong")),
        [
            "SETTITLE rbw",
            "SETPROMPT prompt",
            "SETDESC desc",
            "SETERROR wrong",
            "GETPIN"
        ]
    );
}

#[test]
fn confirmation_dialogue() {
    assert_eq!(confirm("desc"), ["SETTITLE rbw", "SETDESC desc", "CONFIRM"]);
}

#[test]
fn dialogue_ends_with_its_last_reply() {
    let dialogue = Dialogue::start(confirm("desc"));
    assert_eq!(dialogue.next().map(String::as_str), Some("SETTITLE rbw"));
    let Ok(DialogueStep::More(dialogue)) = dialogue.replied(Ok(b"OK".to_vec())) else {
        panic!("the dialogue is over");
    };
    assert_eq!(dialogue.next().map(String::as_str), Some("SETDESC desc"));
    let refused = dialogue.clone().replied(Err(Error::PinentryCancelled));
    assert_eq!(refused, Err(Error::PinentryCancelled));
    let Ok(DialogueStep::More(dialogue)) = dialogue.replied(Ok(b"OK".to_vec())) else {
        panic!("the dialogue is over");
    };
    assert_eq!(dialogue.next().map(String::as_str), Some("CONFIRM"));
    let last = dialogue.replied(Ok(b"OK yes".to_vec()));
    assert_eq!(last, Ok(DialogueStep::Finished(b"OK yes".to_vec())));
}

#[test]
fn confirmation_is_a_dialogue_without_refusal() {
    assert_eq!(confirmed(Ok(b"OK".to_vec())), Ok(true));
    assert_eq!(
        confirmed(Err(Error::PinentryCancelled)),
        Err(Error::PinentryCancelled)
    );
}

fn environment(tty: Option<&str>, vars: &[(&str, &str)]) -> Environment {
    Environment {
        tty: tty.map(|tty| tty.as_bytes().to_vec()),
        env_vars: vars
            .iter()
            .map(|(name, value)| (name.as_bytes().to_vec(), value.as_bytes().to_vec()))
            .collect(),
    }
}

#[test]
fn arguments_of_pinentry() {
    assert_eq!(
        calc_args(&environment(None, &[]), true),
        lines(&["--timeout", "0"])
    );
    assert_eq!(
        calc_args(&environment(Some("/dev/pts/1"), &[("DISPLAY", ":0")]), false),
        lines(&[
            "--timeout",
            "0",
            "--ttyname",
            "/dev/pts/1",
            "--display",
            ":0",
            "--no-global-grab"
        ])
    );
}

#[test]
fn pinentry_gets_the_environment_of_the_caller() {
    let known = lines(&["DISPLAY", "TERM"]);
    let changes = env_changes(&known, &environment(None, &[("TERM", "vt100"), ("X", "y")]));
    let assign = |name: &str, value: &str| EnvChange::Assign {
        name: name.as_bytes().to_vec(),
        value: value.as_bytes().to_vec(),
    };
    assert_eq!(
        changes,
        [
            EnvChange::Unset {
                name: b"DISPLAY".to_vec()
            },
            assign("TERM", "vt100"),
            assign("TERM", "vt100"),
            assign("X", "y"),
        ]
    );
}
