use ftp_core::command::{Command, ParseError};
use ftp_core::listing::{format_entry, format_listing, last_segment, DirectoryEntry};
use ftp_core::numeric::u64_to_string;
use ftp_core::result_code::ResultCode;
use ftp_core::session::{Action, Session, DATA_PORT};
use ftp_core::wire::{encode, parse_code, take_line};

fn parse(line: &str) -> Command {
    Command::new(line.as_bytes().to_vec()).expect("line should parse")
}

#[test]
fn parse_is_case_insensitive() {
    assert!(matches!(parse("list"), Command::List));
    assert!(matches!(parse("LIST"), Command::List));
    assert!(matches!(parse("LiSt"), Command::List));
}

#[test]
fn parse_recognizes_every_verb() {
    assert!(matches!(parse("AUTH"), Command::Auth));
    assert!(matches!(parse("NOOP"), Command::NoOp));
    assert!(matches!(parse("PASV"), Command::Pasv));
    assert!(matches!(parse("PWD"), Command::Pwd));
    assert!(matches!(parse("SYST"), Command::Syst));
    assert!(matches!(parse("TYPE"), Command::Type));
}

#[test]
fn parse_captures_user_argument() {
    assert_eq!(parse("USER alice"), Command::User(String::from("alice")));
    assert_eq!(parse("USER"), Command::User(String::new()));
}

#[test]
fn parse_keeps_everything_after_first_space() {
    assert_eq!(
        parse("USER alice in chains"),
        Command::User(String::from("alice in chains"))
    );
    assert_eq!(parse("CWD a dir/with spaces"), Command::Cwd(String::from("a dir/with spaces")));
}

#[test]
fn parse_cwd_takes_path() {
    assert_eq!(parse("CWD /tmp"), Command::Cwd(String::from("/tmp")));
}

#[test]
fn parse_cwd_without_argument_is_an_error() {
    assert_eq!(
        Command::new(b"CWD".to_vec()),
        Err(ParseError::MissingArgument)
    );
}

#[test]
fn parse_cwd_with_invalid_encoding_is_an_error() {
    assert_eq!(
        Command::new(vec![b'C', b'W', b'D', b' ', 0xFF, 0xFE]),
        Err(ParseError::InvalidEncoding)
    );
}

#[test]
fn parse_user_with_invalid_encoding_degenerates_to_empty() {
    assert_eq!(
        Command::new(vec![b'U', b'S', b'E', b'R', b' ', 0xFF]),
        Ok(Command::User(String::new()))
    );
}

#[test]
fn parse_decodes_multibyte_names() {
    assert_eq!(parse("USER müller"), Command::User(String::from("müller")));
}

#[test]
fn parse_unknown_echoes_verb() {
    assert_eq!(parse("FOO bar"), Command::Unknown(String::from("FOO")));
}

#[test]
fn parse_unknown_with_invalid_encoding_is_empty() {
    assert_eq!(
        Command::new(vec![0xFF, 0x80]),
        Ok(Command::Unknown(String::new()))
    );
}

#[test]
fn verb_names() {
    assert_eq!(parse("LIST").verb_name(), "LIST");
    assert_eq!(parse("USER x").verb_name(), "USER");
    assert_eq!(parse("FOO").verb_name(), "UNKN");
}

#[test]
fn uppercase_folds_only_ascii_letters() {
    let mut data = b"abz AZ-{".to_vec();
    ftp_core::command::to_uppercase(&mut data);
    assert_eq!(data, b"ABZ AZ-{".to_vec());
}

#[test]
fn decimal_rendering() {
    assert_eq!(u64_to_string(0), "0");
    assert_eq!(u64_to_string(7), "7");
    assert_eq!(u64_to_string(230), "230");
    assert_eq!(u64_to_string(43210), "43210");
}

#[test]
fn result_code_values() {
    assert_eq!(ResultCode::CommandOk.value(), 200);
    assert_eq!(ResultCode::PATHNAMECreated.value(), 212);
    assert_eq!(ResultCode::ServiceReadyForNewUser.value(), 220);
    assert_eq!(ResultCode::ClosingDataConnection.value(), 226);
    assert_eq!(ResultCode::EnteringPassiveMode.value(), 227);
    assert_eq!(ResultCode::UserLoggedIn.value(), 230);
    assert_eq!(ResultCode::ServiceNotAvailable.value(), 425);
    assert_eq!(ResultCode::ConnectionClosed.value(), 426);
    assert_eq!(ResultCode::UnknownCommand.value(), 500);
    assert_eq!(ResultCode::InvalidParameterOrArgument.value(), 501);
    assert_eq!(ResultCode::CommandNotImplemented.value(), 502);
    assert_eq!(ResultCode::FileNotFound.value(), 550);
}

#[test]
fn encode_with_message() {
    let bytes = encode(ResultCode::UserLoggedIn, "Welcome bob!");
    assert_eq!(bytes, b"230 Welcome bob!\r\n".to_vec());
}

#[test]
fn encode_without_message() {
    let bytes = encode(ResultCode::ServiceClosingControlConnection, "");
    assert_eq!(bytes, b"221\r\n".to_vec());
}

#[test]
fn take_line_extracts_first_line() {
    let buf = b"230 Welcome bob!\r\nleftover".to_vec();
    assert_eq!(take_line(&buf), Some(b"230 Welcome bob!".to_vec()));
}

#[test]
fn take_line_strips_leading_spaces() {
    let buf = b"   NOOP\r\n".to_vec();
    assert_eq!(take_line(&buf), Some(b"NOOP".to_vec()));
}

#[test]
fn take_line_needs_a_terminator() {
    let buf = b"230 Welcome".to_vec();
    assert_eq!(take_line(&buf), None);
}

#[test]
fn round_trip_framing() {
    let bytes = encode(ResultCode::UserLoggedIn, "Welcome bob!");
    let line = take_line(&bytes).expect("an encoded reply is one full line");
    assert_eq!(parse_code(&line), 230);
    assert_eq!(&line[4..], b"Welcome bob!");

    let empty = encode(ResultCode::ServiceClosingControlConnection, "");
    let line = take_line(&empty).expect("an encoded reply is one full line");
    assert_eq!(parse_code(&line), 221);
    assert_eq!(line.len(), 3);
}

fn entry(name: &str, is_dir: bool) -> DirectoryEntry {
    DirectoryEntry {
        name: String::from(name),
        is_dir,
        is_readonly: false,
        size: 42,
        month: 5,
        day: 12,
        hour: 9,
        minute: 3,
    }
}

#[test]
fn format_entry_file_record() {
    let record = format_entry(&entry("x.txt", false));
    assert_eq!(
        record,
        "- rw-rw-rw-  1  anonymous anonymous  42  5 12 9:3  x.txt\r\n"
    );
}

#[test]
fn format_entry_directory_record() {
    let mut e = entry("docs", true);
    e.is_readonly = true;
    e.size = 0;
    let record = format_entry(&e);
    assert_eq!(
        record,
        "d r--r--r--  1  anonymous anonymous  0  5 12 9:3  docs/\r\n"
    );
}

#[test]
fn last_segment_of_paths() {
    assert_eq!(last_segment("/a/b.txt"), "b.txt");
    assert_eq!(last_segment("name"), "name");
    assert_eq!(last_segment("dir/"), "");
    assert_eq!(last_segment(""), "");
}

#[test]
fn listing_skips_failed_entries() {
    let entries = vec![
        Some(entry("a.txt", false)),
        None,
        Some(entry("b.txt", false)),
    ];
    let out = format_listing(&entries);
    let records: Vec<&str> = out.split_inclusive("\r\n").collect();
    assert_eq!(records.len(), 2);
    assert_eq!(
        records[0],
        "- rw-rw-rw-  1  anonymous anonymous  42  5 12 9:3  a.txt\r\n"
    );
    assert_eq!(
        records[1],
        "- rw-rw-rw-  1  anonymous anonymous  42  5 12 9:3  b.txt\r\n"
    );
}

#[test]
fn listing_of_nothing_is_empty() {
    let entries: Vec<Option<DirectoryEntry>> = vec![None, None];
    assert_eq!(format_listing(&entries), "");
}

#[test]
fn second_pasv_is_rejected() {
    let mut session = Session::new();
    let first = session.handle_cmd(Command::Pasv);
    assert_eq!(first.code, ResultCode::EnteringPassiveMode);
    assert_eq!(first.action, Action::OpenChannel(DATA_PORT));
    assert!(session.pasv_done(true).is_none());
    assert!(session.data_open);

    let second = session.handle_cmd(Command::Pasv);
    assert_eq!(second.code, ResultCode::DataConnectionAlreadyOpen);
    assert_eq!(second.message, "Already listening...");
    assert_eq!(second.action, Action::DoNothing);
    assert!(session.data_open);
}

#[test]
fn pasv_accept_failure_reports_and_stays_closed() {
    let mut session = Session::new();
    let step = session.handle_cmd(Command::Pasv);
    assert_eq!(step.code, ResultCode::EnteringPassiveMode);
    let follow = session.pasv_done(false).expect("a failed accept is reported");
    assert_eq!(follow.code, ResultCode::ServiceNotAvailable);
    assert_eq!(follow.message, "bad things happen to good servers...");
    assert!(!session.data_open);
}

#[test]
fn list_without_channel_is_refused() {
    let mut session = Session::new();
    let step = session.handle_cmd(Command::List);
    assert_eq!(step.code, ResultCode::ConnectionClosed);
    assert_eq!(step.message, "No opened data connection");
    assert_eq!(step.action, Action::DoNothing);
}

#[test]
fn empty_username_is_invalid() {
    let mut session = Session::new();
    let step = session.handle_cmd(Command::User(String::new()));
    assert_eq!(step.code, ResultCode::InvalidParameterOrArgument);
    assert_eq!(step.message, "Invalid username");
    assert_eq!(session.username, None);
}

#[test]
fn unknown_dispatch_names_the_verb() {
    let mut session = Session::new();
    let cmd = parse("FOO bar");
    let step = session.handle_cmd(cmd);
    assert_eq!(step.code, ResultCode::UnknownCommand);
    assert_eq!(step.message, "Unknown command FOO");
    assert!(step.message.contains("FOO"));
}

#[test]
fn end_to_end_scenario() {
    let mut session = Session::new();

    let step = session.handle_cmd(parse("USER bob"));
    assert_eq!(step.code, ResultCode::UserLoggedIn);
    assert_eq!(encode(step.code, &step.message), b"230 Welcome bob!\r\n".to_vec());
    assert_eq!(session.username, Some(String::from("bob")));

    let step = session.handle_cmd(parse("PWD"));
    assert_eq!(step.code, ResultCode::PATHNAMECreated);
    assert_eq!(encode(step.code, &step.message), b"212 \"/\" \r\n".to_vec());

    let step = session.handle_cmd(parse("PASV"));
    assert_eq!(step.action, Action::OpenChannel(43210));
    assert_eq!(
        encode(step.code, &step.message),
        b"227 127,0,0,1,168,202\r\n".to_vec()
    );
    assert!(session.pasv_done(true).is_none());

    let step = session.handle_cmd(parse("LIST"));
    assert_eq!(step.code, ResultCode::DataConnectionAlreadyOpen);
    assert_eq!(step.action, Action::SendListing);
    let step = session.finish_list();
    assert!(!session.data_open);
    assert_eq!(encode(step.code, &step.message), b"226 Transfer done\r\n".to_vec());
}

#[test]
fn greeting_and_fixed_replies() {
    let step = Session::greeting();
    assert_eq!(step.code, ResultCode::ServiceReadyForNewUser);
    assert_eq!(step.message, "Welcome to this FTP server!");

    let mut session = Session::new();
    assert_eq!(session.handle_cmd(Command::Auth).code, ResultCode::CommandNotImplemented);
    assert_eq!(session.handle_cmd(Command::NoOp).message, "Doing nothing...");
    assert_eq!(session.handle_cmd(Command::Syst).message, "No");
    assert_eq!(
        session.handle_cmd(Command::Type).message,
        "Transfer type changed successfully"
    );
    assert_eq!(
        session.handle_cmd(Command::Cwd(String::from("/tmp"))).code,
        ResultCode::CommandOk
    );
}

#[test]
fn pwd_with_empty_directory_is_not_found() {
    let mut session = Session::new();
    session.working_directory = String::new();
    let step = session.handle_cmd(Command::Pwd);
    assert_eq!(step.code, ResultCode::FileNotFound);
    assert_eq!(step.message, "No such file or directory");
}
