//! Parsing one raw command line into a typed command.
//!
//! A line is split on its first space byte into a verb and an optional
//! remainder. The verb is folded to upper case byte by byte (only the
//! ASCII letters move) and matched against the fixed verb table; the
//! remainder, when a verb takes one, is decoded as UTF-8 text.

use vstd::prelude::*;
use vstd::utf8::{decode_utf8, valid_utf8};

verus! {

/// A parsed control-channel command, one variant per protocol verb.
#[derive(Clone, Debug, PartialEq, Eq)]
pub enum Command {
    Auth,
    Cwd(String),
    List,
    NoOp,
    Pwd,
    Pasv,
    Syst,
    Type,
    User(String),
    Unknown(String),
}

/// The mathematical shape of a command: each text payload as its
/// character sequence.
pub ghost enum SpecCommand {
    Auth,
    Cwd(Seq<char>),
    List,
    NoOp,
    Pwd,
    Pasv,
    Syst,
    Type,
    User(Seq<char>),
    Unknown(Seq<char>),
}

impl View for Command {
    type V = SpecCommand;

    open spec fn view(&self) -> SpecCommand {
        match self {
            Command::Auth => SpecCommand::Auth,
            Command::Cwd(p) => SpecCommand::Cwd(p@),
            Command::List => SpecCommand::List,
            Command::NoOp => SpecCommand::NoOp,
            Command::Pwd => SpecCommand::Pwd,
            Command::Pasv => SpecCommand::Pasv,
            Command::Syst => SpecCommand::Syst,
            Command::Type => SpecCommand::Type,
            Command::User(n) => SpecCommand::User(n@),
            Command::Unknown(v) => SpecCommand::Unknown(v@),
        }
    }
}

/// Why a line could not be turned into a command.
#[derive(Clone, Copy, Debug, PartialEq, Eq, Structural)]
pub enum ParseError {
    /// The verb needs an argument and the line has none.
    MissingArgument,
    /// The argument is not valid UTF-8 text.
    InvalidEncoding,
}

/// ASCII upper-case fold of one byte: `a`..`z` move to `A`..`Z`,
/// every other byte passes through unchanged.
pub open spec fn upper_byte(b: u8) -> u8 {
    if 97 <= b && b <= 122 {
        (b - 32) as u8
    } else {
        b
    }
}

/// ASCII upper-case fold of a byte sequence.
pub open spec fn upper_bytes(s: Seq<u8>) -> Seq<u8> {
    s.map_values(|b: u8| upper_byte(b))
}

/// Index of the first space byte, or the length when there is none.
pub open spec fn first_space(s: Seq<u8>) -> int
    decreases s.len(),
{
    if s.len() == 0 {
        0
    } else if s[0] == 32 {
        0
    } else {
        1 + first_space(s.drop_first())
    }
}

/// The first-space index is the unique position with no space before it
/// and a space (or the end) at it.
pub proof fn lemma_first_space_unique(s: Seq<u8>, i: int)
    requires
        0 <= i <= s.len(),
        forall|j: int| 0 <= j < i ==> s[j] != 32,
        i < s.len() ==> s[i] == 32,
    ensures
        first_space(s) == i,
    decreases s.len(),
{
    if s.len() == 0 {
    } else if s[0] == 32 {
        assert(i == 0);
    } else {
        assert(s[0 as int] != 32);
        assert(i >= 1);
        let t = s.drop_first();
        assert forall|j: int| 0 <= j < i - 1 implies t[j] != 32 by {
            assert(s[j + 1] != 32);
        }
        lemma_first_space_unique(t, i - 1);
    }
}

/// The verb token: everything before the first space.
pub open spec fn verb_of(s: Seq<u8>) -> Seq<u8> {
    s.subrange(0, first_space(s))
}

/// The remainder: everything after the first space, when there is one.
pub open spec fn arg_of(s: Seq<u8>) -> Option<Seq<u8>> {
    if first_space(s) < s.len() {
        Some(s.subrange(first_space(s) + 1, s.len() as int))
    } else {
        None
    }
}

/// The text a byte payload decodes to: its UTF-8 decoding when valid,
/// the empty text otherwise.
pub open spec fn decoded_or_empty(bytes: Seq<u8>) -> Seq<char> {
    if valid_utf8(bytes) {
        decode_utf8(bytes)
    } else {
        Seq::empty()
    }
}

/// The command a raw line parses to. The verb is folded to upper case
/// and matched against the fixed table; `CWD` demands an argument and
/// `USER` degenerates to the empty name without one.
pub open spec fn parse_result(input: Seq<u8>) -> Result<SpecCommand, ParseError> {
    let verb = upper_bytes(verb_of(input));
    let arg = arg_of(input);
    if verb == seq![65u8, 85u8, 84u8, 72u8] {
        Ok(SpecCommand::Auth)
    } else if verb == seq![67u8, 87u8, 68u8] {
        match arg {
            Some(bytes) => if valid_utf8(bytes) {
                Ok(SpecCommand::Cwd(decode_utf8(bytes)))
            } else {
                Err(ParseError::InvalidEncoding)
            },
            None => Err(ParseError::MissingArgument),
        }
    } else if verb == seq![76u8, 73u8, 83u8, 84u8] {
        Ok(SpecCommand::List)
    } else if verb == seq![78u8, 79u8, 79u8, 80u8] {
        Ok(SpecCommand::NoOp)
    } else if verb == seq![80u8, 65u8, 83u8, 86u8] {
        Ok(SpecCommand::Pasv)
    } else if verb == seq![80u8, 87u8, 68u8] {
        Ok(SpecCommand::Pwd)
    } else if verb == seq![83u8, 89u8, 83u8, 84u8] {
        Ok(SpecCommand::Syst)
    } else if verb == seq![84u8, 89u8, 80u8, 69u8] {
        Ok(SpecCommand::Type)
    } else if verb == seq![85u8, 83u8, 69u8, 82u8] {
        match arg {
            Some(bytes) => Ok(SpecCommand::User(decoded_or_empty(bytes))),
            None => Ok(SpecCommand::User(Seq::empty())),
        }
    } else {
        Ok(SpecCommand::Unknown(decoded_or_empty(verb)))
    }
}

/// Law: parsing is case-insensitive in the verb. Two lines whose verbs
/// agree up to ASCII case and whose remainders are equal parse to the
/// same command.
pub proof fn lemma_parse_case_insensitive(a: Seq<u8>, b: Seq<u8>)
    requires
        upper_bytes(verb_of(a)) == upper_bytes(verb_of(b)),
        arg_of(a) == arg_of(b),
    ensures
        parse_result(a) == parse_result(b),
{
}

/// Law: argument capture. A `USER` line takes everything after the
/// first space as the login name, and a bare `USER` the empty name.
pub proof fn lemma_user_argument(arg: Seq<u8>)
    ensures
        parse_result(seq![85u8, 83u8, 69u8, 82u8, 32u8] + arg) == Ok::<SpecCommand, ParseError>(
            SpecCommand::User(decoded_or_empty(arg)),
        ),
        parse_result(seq![85u8, 83u8, 69u8, 82u8]) == Ok::<SpecCommand, ParseError>(
            SpecCommand::User(Seq::empty()),
        ),
{
    let with_arg = seq![85u8, 83u8, 69u8, 82u8, 32u8] + arg;
    lemma_first_space_unique(with_arg, 4);
    assert(verb_of(with_arg) =~= seq![85u8, 83u8, 69u8, 82u8]);
    assert(upper_bytes(seq![85u8, 83u8, 69u8, 82u8]) =~= seq![85u8, 83u8, 69u8, 82u8]);
    assert(arg_of(with_arg)->Some_0 =~= arg);
    let bare = seq![85u8, 83u8, 69u8, 82u8];
    lemma_first_space_unique(bare, 4);
    assert(verb_of(bare) =~= bare);
    assert(arg_of(bare) is None);
}

/// Folds a byte buffer to ASCII upper case in place.
pub fn to_uppercase(data: &mut Vec<u8>)
    ensures
        final(data)@ == upper_bytes(old(data)@),
{
    let mut i: usize = 0;
    while i < data.len()
        invariant
            i <= data@.len(),
            data@.len() == old(data)@.len(),
            forall|j: int| 0 <= j < i ==> data@[j] == upper_byte(old(data)@[j]),
            forall|j: int| i <= j < data@.len() ==> data@[j] == old(data)@[j],
        decreases data@.len() - i,
    {
        let b = data[i];
        if b >= 97 && b <= 122 {
            data[i] = b - 32;
        }
        i += 1;
    }
    proof {
        assert(data@ =~= upper_bytes(old(data)@));
    }
}

/// Relies on `String::from_utf8`: it succeeds exactly on valid UTF-8
/// input and returns the decoded text.
#[verifier::external_body]
fn bytes_to_string(bytes: Vec<u8>) -> (r: Option<String>)
    ensures
        r is Some <==> valid_utf8(bytes@),
        r is Some ==> r->Some_0@ == decode_utf8(bytes@),
{
    String::from_utf8(bytes).ok()
}

fn decode_or_empty(bytes: Vec<u8>) -> (r: String)
    ensures
        r@ == decoded_or_empty(bytes@),
{
    match bytes_to_string(bytes) {
        Some(s) => s,
        None => String::new(),
    }
}

fn eq3(v: &Vec<u8>, a: u8, b: u8, c: u8) -> (r: bool)
    ensures
        r == (v@ == seq![a, b, c]),
{
    let r = v.len() == 3 && v[0] == a && v[1] == b && v[2] == c;
    proof {
        if r {
            assert(v@ =~= seq![a, b, c]);
        } else {
            assert(v@ != seq![a, b, c]);
        }
    }
    r
}

fn eq4(v: &Vec<u8>, a: u8, b: u8, c: u8, d: u8) -> (r: bool)
    ensures
        r == (v@ == seq![a, b, c, d]),
{
    let r = v.len() == 4 && v[0] == a && v[1] == b && v[2] == c && v[3] == d;
    proof {
        if r {
            assert(v@ =~= seq![a, b, c, d]);
        } else {
            assert(v@ != seq![a, b, c, d]);
        }
    }
    r
}

/// The canonical verb of a command; an unrecognized one shows as
/// `UNKN`.
pub open spec fn verb_name_of(c: SpecCommand) -> Seq<char> {
    match c {
        SpecCommand::Auth => "AUTH"@,
        SpecCommand::Cwd(_) => "CWD"@,
        SpecCommand::List => "LIST"@,
        SpecCommand::NoOp => "NOOP"@,
        SpecCommand::Pasv => "PASV"@,
        SpecCommand::Pwd => "PWD"@,
        SpecCommand::Syst => "SYST"@,
        SpecCommand::Type => "TYPE"@,
        SpecCommand::User(_) => "USER"@,
        SpecCommand::Unknown(_) => "UNKN"@,
    }
}

impl Command {
    /// The canonical verb this command answers to.
    pub fn verb_name(&self) -> (r: &'static str)
        ensures
            r@ == verb_name_of(self@),
    {
        match self {
            Command::Auth => "AUTH",
            Command::Cwd(_) => "CWD",
            Command::List => "LIST",
            Command::NoOp => "NOOP",
            Command::Pasv => "PASV",
            Command::Pwd => "PWD",
            Command::Syst => "SYST",
            Command::Type => "TYPE",
            Command::User(_) => "USER",
            Command::Unknown(_) => "UNKN",
        }
    }

    /// Parses one raw command line (without its line terminator) into a
    /// typed command, exactly as `parse_result` describes.
    pub fn new(input: Vec<u8>) -> (r: Result<Command, ParseError>)
        ensures
            match r {
                Ok(c) => parse_result(input@) == Ok::<SpecCommand, ParseError>(c@),
                Err(e) => parse_result(input@) == Err::<SpecCommand, ParseError>(e),
            },
    {
        // Find the first space: everything before it is the verb.
        let mut split: usize = 0;
        while split < input.len() && input[split] != 32
            invariant
                split <= input@.len(),
                forall|j: int| 0 <= j < split ==> input@[j] != 32,
            decreases input@.len() - split,
        {
            split += 1;
        }
        proof {
            lemma_first_space_unique(input@, split as int);
        }
        let mut verb: Vec<u8> = Vec::new();
        let mut i: usize = 0;
        while i < split
            invariant
                i <= split <= input@.len(),
                verb@ =~= input@.subrange(0, i as int),
            decreases split - i,
        {
            verb.push(input[i]);
            i += 1;
        }
        to_uppercase(&mut verb);
        proof {
            assert(verb@ == upper_bytes(verb_of(input@)));
        }
        let arg: Option<Vec<u8>> = if split < input.len() {
            let mut rest: Vec<u8> = Vec::new();
            let mut k: usize = split + 1;
            while k < input.len()
                invariant
                    split + 1 <= k <= input@.len(),
                    rest@ =~= input@.subrange(split + 1, k as int),
                decreases input@.len() - k,
            {
                rest.push(input[k]);
                k += 1;
            }
            proof {
                assert(rest@ =~= arg_of(input@)->Some_0);
            }
            Some(rest)
        } else {
            None
        };
        if eq4(&verb, 65u8, 85u8, 84u8, 72u8) {
            Ok(Command::Auth)
        } else if eq3(&verb, 67u8, 87u8, 68u8) {
            match arg {
                Some(bytes) => match bytes_to_string(bytes) {
                    Some(path) => Ok(Command::Cwd(path)),
                    None => Err(ParseError::InvalidEncoding),
                },
                None => Err(ParseError::MissingArgument),
            }
        } else if eq4(&verb, 76u8, 73u8, 83u8, 84u8) {
            Ok(Command::List)
        } else if eq4(&verb, 78u8, 79u8, 79u8, 80u8) {
            Ok(Command::NoOp)
        } else if eq4(&verb, 80u8, 65u8, 83u8, 86u8) {
            Ok(Command::Pasv)
        } else if eq3(&verb, 80u8, 87u8, 68u8) {
            Ok(Command::Pwd)
        } else if eq4(&verb, 83u8, 89u8, 83u8, 84u8) {
            Ok(Command::Syst)
        } else if eq4(&verb, 84u8, 89u8, 80u8, 69u8) {
            Ok(Command::Type)
        } else if eq4(&verb, 85u8, 83u8, 69u8, 82u8) {
            match arg {
                Some(bytes) => Ok(Command::User(decode_or_empty(bytes))),
                None => Ok(Command::User(String::new())),
            }
        } else {
            Ok(Command::Unknown(decode_or_empty(verb)))
        }
    }
}

} // verus!
