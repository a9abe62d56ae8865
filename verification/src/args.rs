//! The command line: three options that each take a value, and one flag.
use vstd::prelude::*;
use crate::reconcile::{Settings, SettingsView};
use crate::text::string_views;

verus! {

/// What the command line asks for.
#[derive(Clone, Debug, PartialEq, Eq)]
pub struct Args {
    /// API token generated on the "My Account" page
    pub auth_token: String,
    /// Zone ID from domain "Overview" page, "API" section
    pub zone_id: String,
    /// DNS record "name" from domain "DNS" page
    pub record_name: String,
    /// Enable verbose logging
    pub verbose: bool,
}

/// [`Args`] with their text as sequences of characters.
pub struct ArgsView {
    pub auth_token: Seq<char>,
    pub zone_id: Seq<char>,
    pub record_name: Seq<char>,
    pub verbose: bool,
}

impl View for Args {
    type V = ArgsView;

    open spec fn view(&self) -> ArgsView {
        ArgsView {
            auth_token: self.auth_token@,
            zone_id: self.zone_id@,
            record_name: self.record_name@,
            verbose: self.verbose,
        }
    }
}

/// The three options that take a value; each is required.
#[derive(Clone, Copy, Debug, PartialEq, Eq, Structural)]
pub enum Opt {
    AuthToken,
    ZoneId,
    RecordName,
}

/// Why a command line was not accepted.
#[derive(Clone, Debug, PartialEq, Eq)]
pub enum ArgsError {
    /// Nothing follows the program's name.
    NoArguments,
    /// The option stands last, with no value after it.
    MissingValue(Opt),
    /// The option is given a second time.
    Repeated(Opt),
    /// The verbose flag is given a second time.
    RepeatedVerbose,
    /// The argument is no option and no flag.
    Unexpected(String),
    /// The option is not given at all.
    MissingOption(Opt),
}

/// An [`ArgsError`] with its text as a sequence of characters.
pub enum ArgsErrorView {
    NoArguments,
    MissingValue(Opt),
    Repeated(Opt),
    RepeatedVerbose,
    Unexpected(Seq<char>),
    MissingOption(Opt),
}

impl View for ArgsError {
    type V = ArgsErrorView;

    open spec fn view(&self) -> ArgsErrorView {
        match *self {
            ArgsError::NoArguments => ArgsErrorView::NoArguments,
            ArgsError::MissingValue(opt) => ArgsErrorView::MissingValue(opt),
            ArgsError::Repeated(opt) => ArgsErrorView::Repeated(opt),
            ArgsError::RepeatedVerbose => ArgsErrorView::RepeatedVerbose,
            ArgsError::Unexpected(argument) => ArgsErrorView::Unexpected(argument@),
            ArgsError::MissingOption(opt) => ArgsErrorView::MissingOption(opt),
        }
    }
}

/// The view of the result of reading a command line.
pub open spec fn parsed_view(r: Result<Args, ArgsError>) -> Result<ArgsView, ArgsErrorView> {
    match r {
        Ok(args) => Ok(args@),
        Err(e) => Err(e@),
    }
}

/// The option that `argument` names, if it names one.
pub open spec fn option_named(argument: Seq<char>) -> Option<Opt> {
    if argument == "--auth-token"@ {
        Some(Opt::AuthToken)
    } else if argument == "--zone-id"@ {
        Some(Opt::ZoneId)
    } else if argument == "--record-name"@ {
        Some(Opt::RecordName)
    } else {
        None
    }
}

/// Whether `argument` is the verbose flag, short or long.
pub open spec fn is_verbose_flag(argument: Seq<char>) -> bool {
    argument == "-v"@ || argument == "--verbose"@
}

/// What has been read of a command line so far.
pub struct Partial {
    pub auth_token: Option<Seq<char>>,
    pub zone_id: Option<Seq<char>>,
    pub record_name: Option<Seq<char>>,
    pub verbose: bool,
}

impl Partial {
    /// Nothing read yet.
    pub open spec fn nothing() -> Partial {
        Partial { auth_token: None, zone_id: None, record_name: None, verbose: false }
    }

    /// The value read for `opt`, if one was.
    pub open spec fn value(self, opt: Opt) -> Option<Seq<char>> {
        match opt {
            Opt::AuthToken => self.auth_token,
            Opt::ZoneId => self.zone_id,
            Opt::RecordName => self.record_name,
        }
    }

    /// The same with `value` read for `opt`.
    pub open spec fn with(self, opt: Opt, value: Seq<char>) -> Partial {
        match opt {
            Opt::AuthToken => Partial { auth_token: Some(value), ..self },
            Opt::ZoneId => Partial { zone_id: Some(value), ..self },
            Opt::RecordName => Partial { record_name: Some(value), ..self },
        }
    }

    /// The arguments, once each of the three options has its value; else the
    /// first option, in the order token, zone, name, that has none.
    pub open spec fn complete(self) -> Result<ArgsView, ArgsErrorView> {
        match self.auth_token {
            None => Err(ArgsErrorView::MissingOption(Opt::AuthToken)),
            Some(auth_token) => match self.zone_id {
                None => Err(ArgsErrorView::MissingOption(Opt::ZoneId)),
                Some(zone_id) => match self.record_name {
                    None => Err(ArgsErrorView::MissingOption(Opt::RecordName)),
                    Some(record_name) => Ok(
                        ArgsView { auth_token, zone_id, record_name, verbose: self.verbose },
                    ),
                },
            },
        }
    }
}

/// Reads the arguments from place `at` on, from left to right. An option's
/// name is followed by its value, which is taken as it stands, whatever it
/// looks like; the verbose flag stands alone; anything else is refused, and
/// so is a second use of an option or of the flag.
pub open spec fn scan(arguments: Seq<Seq<char>>, at: int, got: Partial) -> Result<
    Partial,
    ArgsErrorView,
>
    decreases arguments.len() - at,
{
    if at < 0 || at >= arguments.len() {
        Ok(got)
    } else {
        match option_named(arguments[at]) {
            Some(opt) => if got.value(opt) is Some {
                Err(ArgsErrorView::Repeated(opt))
            } else if at + 1 >= arguments.len() {
                Err(ArgsErrorView::MissingValue(opt))
            } else {
                scan(arguments, at + 2, got.with(opt, arguments[at + 1]))
            },
            None => if is_verbose_flag(arguments[at]) {
                if got.verbose {
                    Err(ArgsErrorView::RepeatedVerbose)
                } else {
                    scan(arguments, at + 1, Partial { verbose: true, ..got })
                }
            } else {
                Err(ArgsErrorView::Unexpected(arguments[at]))
            },
        }
    }
}

/// What a command line means. Its first entry is the program's name and is
/// not read; a command line with nothing after it is refused.
pub open spec fn parse_spec(argv: Seq<Seq<char>>) -> Result<ArgsView, ArgsErrorView> {
    if argv.len() <= 1 {
        Err(ArgsErrorView::NoArguments)
    } else {
        match scan(argv, 1, Partial::nothing()) {
            Ok(got) => got.complete(),
            Err(e) => Err(e),
        }
    }
}

/// The view of a value that may be missing.
pub open spec fn text_view(value: Option<String>) -> Option<Seq<char>> {
    match value {
        Some(text) => Some(text@),
        None => None,
    }
}

/// The option that `argument` names, if it names one.
fn name_option(argument: &String) -> (r: Option<Opt>)
    ensures
        r == option_named(argument@),
{
    if *argument == String::from_str("--auth-token") {
        Some(Opt::AuthToken)
    } else if *argument == String::from_str("--zone-id") {
        Some(Opt::ZoneId)
    } else if *argument == String::from_str("--record-name") {
        Some(Opt::RecordName)
    } else {
        None
    }
}

/// Reads a command line, the program's name first.
pub fn parse_args(argv: &Vec<String>) -> (r: Result<Args, ArgsError>)
    ensures
        parsed_view(r) == parse_spec(string_views(argv@)),
{
    let ghost arguments = string_views(argv@);
    if argv.len() <= 1 {
        return Err(ArgsError::NoArguments);
    }
    let mut auth_token: Option<String> = None;
    let mut zone_id: Option<String> = None;
    let mut record_name: Option<String> = None;
    let mut verbose = false;
    let mut at: usize = 1;
    while at < argv.len()
        invariant
            1 <= at <= argv.len(),
            arguments == string_views(argv@),
            scan(arguments, 1, Partial::nothing()) == scan(
                arguments,
                at as int,
                Partial {
                    auth_token: text_view(auth_token),
                    zone_id: text_view(zone_id),
                    record_name: text_view(record_name),
                    verbose,
                },
            ),
        decreases argv.len() - at,
    {
        let ghost got = Partial {
            auth_token: text_view(auth_token),
            zone_id: text_view(zone_id),
            record_name: text_view(record_name),
            verbose,
        };
        assert(arguments[at as int] == argv[at as int]@);
        match name_option(&argv[at]) {
            Some(opt) => {
                let taken = match opt {
                    Opt::AuthToken => auth_token.is_some(),
                    Opt::ZoneId => zone_id.is_some(),
                    Opt::RecordName => record_name.is_some(),
                };
                assert(taken == (got.value(opt) is Some));
                if taken {
                    return Err(ArgsError::Repeated(opt));
                }
                if at + 1 >= argv.len() {
                    return Err(ArgsError::MissingValue(opt));
                }
                let value = argv[at + 1].clone();
                assert(value@ == arguments[at + 1]);
                match opt {
                    Opt::AuthToken => {
                        auth_token = Some(value);
                    },
                    Opt::ZoneId => {
                        zone_id = Some(value);
                    },
                    Opt::RecordName => {
                        record_name = Some(value);
                    },
                }
                at += 2;
            },
            None => {
                if argv[at] == String::from_str("-v") || argv[at] == String::from_str("--verbose") {
                    if verbose {
                        return Err(ArgsError::RepeatedVerbose);
                    }
                    verbose = true;
                    at += 1;
                } else {
                    return Err(ArgsError::Unexpected(argv[at].clone()));
                }
            },
        }
    }
    let auth_token = match auth_token {
        Some(value) => value,
        None => {
            return Err(ArgsError::MissingOption(Opt::AuthToken));
        },
    };
    let zone_id = match zone_id {
        Some(value) => value,
        None => {
            return Err(ArgsError::MissingOption(Opt::ZoneId));
        },
    };
    let record_name = match record_name {
        Some(value) => value,
        None => {
            return Err(ArgsError::MissingOption(Opt::RecordName));
        },
    };
    Ok(Args { auth_token, zone_id, record_name, verbose })
}

impl Opt {
    /// The option's name as it is written on the command line.
    pub open spec fn flag_spec(self) -> Seq<char> {
        match self {
            Opt::AuthToken => "--auth-token"@,
            Opt::ZoneId => "--zone-id"@,
            Opt::RecordName => "--record-name"@,
        }
    }

    /// The option's name as it is written on the command line.
    pub fn flag(&self) -> (name: &'static str)
        ensures
            name@ == self.flag_spec(),
    {
        match self {
            Opt::AuthToken => "--auth-token",
            Opt::ZoneId => "--zone-id",
            Opt::RecordName => "--record-name",
        }
    }
}

impl ArgsErrorView {
    /// The sentence that tells the operator what is wrong with the command
    /// line.
    pub open spec fn message(self) -> Seq<char> {
        match self {
            ArgsErrorView::NoArguments => "no arguments were given"@,
            ArgsErrorView::MissingValue(opt) => "no value was given for "@ + opt.flag_spec(),
            ArgsErrorView::Repeated(opt) => opt.flag_spec() + " was given more than once"@,
            ArgsErrorView::RepeatedVerbose => "--verbose was given more than once"@,
            ArgsErrorView::Unexpected(argument) => "unexpected argument: "@ + argument,
            ArgsErrorView::MissingOption(opt) => opt.flag_spec() + " is required"@,
        }
    }
}

impl ArgsError {
    /// The sentence that tells the operator what is wrong with the command
    /// line.
    pub fn message(&self) -> (text: String)
        ensures
            text@ == self@.message(),
    {
        match self {
            ArgsError::NoArguments => String::from_str("no arguments were given"),
            ArgsError::MissingValue(opt) => {
                let mut text = String::from_str("no value was given for ");
                text.append(opt.flag());
                text
            },
            ArgsError::Repeated(opt) => {
                let mut text = String::from_str(opt.flag());
                text.append(" was given more than once");
                text
            },
            ArgsError::RepeatedVerbose => String::from_str("--verbose was given more than once"),
            ArgsError::Unexpected(argument) => {
                let mut text = String::from_str("unexpected argument: ");
                text.append(argument.as_str());
                text
            },
            ArgsError::MissingOption(opt) => {
                let mut text = String::from_str(opt.flag());
                text.append(" is required");
                text
            },
        }
    }
}

/// What follows the program's name in the usage line: the three options with
/// their values, then the flag.
pub open spec fn usage_tail() -> Seq<char> {
    " --auth-token <auth-token> --zone-id <zone-id> --record-name <record-name> [-v|--verbose]"@
}

/// The line that shows how `program` is to be called.
pub open spec fn usage_spec(program: Seq<char>) -> Seq<char> {
    "Usage: "@ + program + usage_tail()
}

/// The line that shows how `program` is to be called.
pub fn usage(program: &str) -> (text: String)
    ensures
        text@ == usage_spec(program@),
{
    let mut text = String::from_str("Usage: ");
    text.append(program);
    text.append(
        " --auth-token <auth-token> --zone-id <zone-id> --record-name <record-name> [-v|--verbose]",
    );
    text
}

impl ArgsView {
    /// What the reconciliation is told of the arguments: all but the token.
    pub open spec fn settings(self) -> SettingsView {
        SettingsView {
            zone_id: self.zone_id,
            record_name: self.record_name,
            verbose: self.verbose,
        }
    }
}

impl Args {
    /// Parts the token from what the reconciliation is told. The token goes
    /// to whoever sends the requests, and to nobody else.
    pub fn into_parts(self) -> (parts: (String, Settings))
        ensures
            parts.0@ == self@.auth_token,
            parts.1@ == self@.settings(),
    {
        (
            self.auth_token,
            Settings {
                zone_id: self.zone_id,
                record_name: self.record_name,
                verbose: self.verbose,
            },
        )
    }
}

/// A value is taken as it stands, whatever its first character: the three
/// options in this order, each followed by any text at all, give that text
/// as the option's value, also where it begins with a hyphen.
pub proof fn law_values_taken_verbatim(
    program: Seq<char>,
    auth_token: Seq<char>,
    zone_id: Seq<char>,
    record_name: Seq<char>,
)
    ensures
        parse_spec(
            seq![
                program,
                "--auth-token"@,
                auth_token,
                "--zone-id"@,
                zone_id,
                "--record-name"@,
                record_name,
            ],
        ) == Ok::<ArgsView, ArgsErrorView>(
            ArgsView { auth_token, zone_id, record_name, verbose: false },
        ),
{
    reveal_strlit("--auth-token");
    reveal_strlit("--zone-id");
    reveal_strlit("--record-name");
    assert("--auth-token"@.len() == 12);
    assert("--zone-id"@.len() == 9);
    assert("--record-name"@.len() == 13);
    let argv = seq![
        program,
        "--auth-token"@,
        auth_token,
        "--zone-id"@,
        zone_id,
        "--record-name"@,
        record_name,
    ];
    let got0 = Partial::nothing();
    let got1 = got0.with(Opt::AuthToken, auth_token);
    let got2 = got1.with(Opt::ZoneId, zone_id);
    let got3 = got2.with(Opt::RecordName, record_name);
    assert(scan(argv, 7, got3) == Ok::<Partial, ArgsErrorView>(got3));
    assert(option_named(argv[5]) == Some(Opt::RecordName));
    assert(scan(argv, 5, got2) == scan(argv, 7, got3));
    assert(option_named(argv[3]) == Some(Opt::ZoneId));
    assert(scan(argv, 3, got1) == scan(argv, 5, got2));
    assert(option_named(argv[1]) == Some(Opt::AuthToken));
    assert(scan(argv, 1, got0) == scan(argv, 3, got1));
}

} // verus!
