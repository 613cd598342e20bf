//! The options of the solver's command line: where the puzzle comes from,
//! which heuristic guides the search, and whether the usage message is due.
//!
//! The command line is parsed by `getopts`, reached through the functions of
//! [`crate::cli`]. What is decided from the result of the parse is decided
//! here, by functions that take that result as plain values.

use crate::cli::{
    add_optflag, add_optopt, all_named, declared_options, failure_message, first_value, free_count,
    is_declared, new_options, opt_present, opt_str, parse, parse_outcome, text_of, usage,
    usage_text, Declared, Found,
};
use crate::text::{lowercase_of, parse_size, same_text, to_lowercase, written_size};
use getopts::Options as Parser;
use vstd::prelude::*;
use vstd::string::*;

verus! {

/// Where the puzzle to solve comes from.
#[derive(Debug, Clone, PartialEq, Eq)]
pub enum Input {
    /// It is read from the standard input.
    Stdin,
    /// It is drawn at random, with the given side.
    Random(usize),
    /// It is read from the named file.
    File(String),
}

/// An [`Input`] as a mathematical value.
pub enum InputView {
    Stdin,
    Random(nat),
    File(Seq<char>),
}

impl View for Input {
    type V = InputView;

    open spec fn view(&self) -> InputView {
        match self {
            Input::Stdin => InputView::Stdin,
            Input::Random(size) => InputView::Random(*size as nat),
            Input::File(name) => InputView::File(name@),
        }
    }
}

/// The heuristic that guides the search.
#[derive(Debug, Clone, Copy, PartialEq, Eq, Structural)]
pub enum Heuristic {
    Manhattan,
    MisplacedTiles,
    TilesOut,
}

/// Why a command line gives no options.
#[derive(Debug, Clone, PartialEq, Eq)]
pub enum OptionsError {
    /// The arguments do not even hold the name of the program.
    NoProgramName,
    /// The arguments do not conform to the declared options; the sentence
    /// is the parser's.
    Parse(String),
    /// The side given for a random puzzle is not a number.
    InvalidRandomSize,
    /// The heuristic asked for does not exist.
    NoSuchHeuristic,
}

/// The options of a run.
#[derive(Debug)]
pub struct Options {
    pub input: Input,
    pub help: bool,
    pub heuristic: Heuristic,
    pub usage: String,
    /// Whether some arguments of the command line belong to no option.
    has_free: bool,
}

/// [`Options`] as a mathematical value.
pub struct OptionsView {
    pub input: InputView,
    pub help: bool,
    pub heuristic: Heuristic,
    pub usage: Seq<char>,
    pub has_free: bool,
}

impl View for Options {
    type V = OptionsView;

    closed spec fn view(&self) -> OptionsView {
        OptionsView {
            input: self.input@,
            help: self.help,
            heuristic: self.heuristic,
            usage: self.usage@,
            has_free: self.has_free,
        }
    }
}

/// The heuristic that goes by `name`, written in lowercase.
pub open spec fn heuristic_named(name: Seq<char>) -> Option<Heuristic> {
    if name == "manhattan"@ {
        Some(Heuristic::Manhattan)
    } else if name == "misplaced_tiles"@ {
        Some(Heuristic::MisplacedTiles)
    } else if name == "tiles_out"@ {
        Some(Heuristic::TilesOut)
    } else {
        None
    }
}

/// The input that the options `file` and `random` ask for. A file comes
/// before a random puzzle, and the side of a random puzzle is read only
/// where no file is given.
pub open spec fn input_for(file: Option<Seq<char>>, random: Option<Seq<char>>) -> Result<
    InputView,
    OptionsError,
> {
    match file {
        Some(name) => Ok(InputView::File(name)),
        None => match random {
            Some(side) => match written_size(side) {
                Some(size) => Ok(InputView::Random(size as nat)),
                None => Err(OptionsError::InvalidRandomSize),
            },
            None => Ok(InputView::Stdin),
        },
    }
}

/// The heuristic that the option `heuristic` asks for: the Manhattan
/// distance where it is not given, else the one it names, in whatever case
/// the name is written.
pub open spec fn heuristic_for(name: Option<Seq<char>>) -> Result<Heuristic, OptionsError> {
    match name {
        None => Ok(Heuristic::Manhattan),
        Some(name) => match heuristic_named(lowercase_of(name)) {
            Some(heuristic) => Ok(heuristic),
            None => Err(OptionsError::NoSuchHeuristic),
        },
    }
}

/// The options that the values found on a command line make. A side that is
/// no number is reported in preference to a heuristic that does not exist.
pub open spec fn options_for(
    file: Option<Seq<char>>,
    random: Option<Seq<char>>,
    heuristic: Option<Seq<char>>,
    help: bool,
    has_free: bool,
    usage: Seq<char>,
) -> Result<OptionsView, OptionsError> {
    match input_for(file, random) {
        Err(e) => Err(e),
        Ok(input) => match heuristic_for(heuristic) {
            Err(e) => Err(e),
            Ok(heuristic) => Ok(OptionsView { input, help, heuristic, usage, has_free }),
        },
    }
}

/// The options that the solver declares to the parser.
pub open spec fn cli_declarations() -> Seq<Declared> {
    seq![
        Declared {
            short: "f"@,
            long: "file"@,
            desc: "set intput file name"@,
            hint: "NAME"@,
            takes_value: true,
        },
        Declared {
            short: "r"@,
            long: "random"@,
            desc: "create random npuzzle of size SIZE"@,
            hint: "SIZE"@,
            takes_value: true,
        },
        Declared {
            short: "h"@,
            long: "help"@,
            desc: "print this help menu"@,
            hint: Seq::empty(),
            takes_value: false,
        },
        Declared {
            short: "e"@,
            long: "heuristic"@,
            desc: "heuristic to use with A*. Available: manhattan, misplaced_tiles, tiles_out"@,
            hint: "NAME"@,
            takes_value: true,
        },
    ]
}

/// The heading of the usage message of `program`.
pub open spec fn usage_brief(program: Seq<char>) -> Seq<char> {
    "Usage: "@ + program + " [options]"@
}

/// The options that what a parse found makes, under the usage message
/// `usage`.
pub open spec fn options_found(found: Found, free: Seq<Seq<char>>, usage: Seq<char>) -> Result<
    OptionsView,
    OptionsError,
> {
    options_for(
        first_value(found["f"@]),
        first_value(found["r"@]),
        first_value(found["e"@]),
        found["h"@].len() > 0,
        free.len() > 0,
        usage,
    )
}

impl Heuristic {
    /// The heuristic that goes by exactly `name`.
    pub fn from_name(name: &str) -> (heuristic: Option<Heuristic>)
        ensures
            heuristic == heuristic_named(name@),
    {
        if same_text(name, "manhattan") {
            Some(Heuristic::Manhattan)
        } else if same_text(name, "misplaced_tiles") {
            Some(Heuristic::MisplacedTiles)
        } else if same_text(name, "tiles_out") {
            Some(Heuristic::TilesOut)
        } else {
            None
        }
    }

    /// The heuristic that goes by `s`, in whatever case `s` is written.
    pub fn from_str(s: &str) -> (heuristic: Result<Heuristic, &'static str>)
        ensures
            match heuristic {
                Ok(h) => heuristic_named(lowercase_of(s@)) == Some(h),
                Err(message) => heuristic_named(lowercase_of(s@)) is None && message@
                    == "No such heuristic."@,
            },
    {
        let lower = to_lowercase(s);
        match Heuristic::from_name(lower.as_str()) {
            Some(h) => Ok(h),
            None => Err("No such heuristic."),
        }
    }
}

impl Options {
    /// Declare the options of the solver to the parser.
    fn cli_collect() -> (opts: Parser)
        ensures
            declared_options(opts) == cli_declarations(),
    {
        proof {
            reveal_strlit("f");
            reveal_strlit("file");
            reveal_strlit("r");
            reveal_strlit("random");
            reveal_strlit("h");
            reveal_strlit("help");
            reveal_strlit("e");
            reveal_strlit("heuristic");
        }
        let mut opts = new_options();
        add_optopt(&mut opts, "f", "file", "set intput file name", "NAME");
        add_optopt(&mut opts, "r", "random", "create random npuzzle of size SIZE", "SIZE");
        add_optflag(&mut opts, "h", "help", "print this help menu");
        add_optopt(
            &mut opts,
            "e",
            "heuristic",
            "heuristic to use with A*. Available: manhattan, misplaced_tiles, tiles_out",
            "NAME",
        );
        assert(declared_options(opts) =~= cli_declarations());
        opts
    }

    /// Decide where the puzzle comes from, given the values of the options
    /// `file` and `random`.
    pub fn extract_input(file: Option<String>, random: Option<String>) -> (input: Result<
        Input,
        OptionsError,
    >)
        ensures
            match input {
                Ok(i) => input_for(text_of(file), text_of(random)) == Ok::<_, OptionsError>(i@),
                Err(e) => input_for(text_of(file), text_of(random)) == Err::<InputView, _>(e),
            },
    {
        match file {
            Some(name) => Ok(Input::File(name)),
            None => match random {
                Some(side) => match parse_size(side.as_str()) {
                    Some(size) => Ok(Input::Random(size)),
                    None => Err(OptionsError::InvalidRandomSize),
                },
                None => Ok(Input::Stdin),
            },
        }
    }

    /// Decide which heuristic guides the search, given the value of the
    /// option `heuristic`.
    pub fn extract_heuri(name: Option<String>) -> (heuristic: Result<Heuristic, OptionsError>)
        ensures
            heuristic == heuristic_for(text_of(name)),
    {
        match name {
            None => Ok(Heuristic::Manhattan),
            Some(name) => match Heuristic::from_str(name.as_str()) {
                Ok(heuristic) => Ok(heuristic),
                Err(_) => Err(OptionsError::NoSuchHeuristic),
            },
        }
    }

    /// The usage message of `program`.
    fn generate_usage(program: &String, opts: &Parser) -> (text: String)
        ensures
            text@ == usage_text(declared_options(*opts), usage_brief(program@)),
    {
        let mut brief = "Usage: ".to_owned();
        brief.append(program.as_str());
        brief.append(" [options]");
        usage(opts, brief.as_str())
    }

    /// The options that the values found on a command line make.
    pub fn from_matched(
        file: Option<String>,
        random: Option<String>,
        heuristic: Option<String>,
        help: bool,
        has_free: bool,
        usage: String,
    ) -> (options: Result<Options, OptionsError>)
        ensures
            match options {
                Ok(o) => options_for(
                    text_of(file),
                    text_of(random),
                    text_of(heuristic),
                    help,
                    has_free,
                    usage@,
                ) == Ok::<_, OptionsError>(o@),
                Err(e) => options_for(
                    text_of(file),
                    text_of(random),
                    text_of(heuristic),
                    help,
                    has_free,
                    usage@,
                ) == Err::<OptionsView, _>(e),
            },
    {
        let input = match Options::extract_input(file, random) {
            Ok(input) => input,
            Err(e) => {
                return Err(e);
            },
        };
        let heuristic = match Options::extract_heuri(heuristic) {
            Ok(heuristic) => heuristic,
            Err(e) => {
                return Err(e);
            },
        };
        Ok(Options { input, help, heuristic, usage, has_free })
    }

    /// The options that the command line `args` asks for; `args` starts with
    /// the name of the program.
    pub fn new(args: Vec<String>) -> (options: Result<Options, OptionsError>)
        ensures
            args@.len() == 0 ==> options == Err::<Options, _>(OptionsError::NoProgramName),
            args@.len() > 0 ==> match parse_outcome(cli_declarations(), args.deep_view().skip(1)) {
                None => options matches Err(OptionsError::Parse(_)),
                Some((found, free)) => {
                    let expected = options_found(
                        found,
                        free,
                        usage_text(cli_declarations(), usage_brief(args@[0]@)),
                    );
                    match options {
                        Ok(o) => expected == Ok::<_, OptionsError>(o@),
                        Err(e) => expected == Err::<OptionsView, _>(e),
                    }
                },
            },
    {
        if args.len() == 0 {
            return Err(OptionsError::NoProgramName);
        }
        let opts = Options::cli_collect();
        let mut rest: Vec<String> = Vec::new();
        let mut i: usize = 1;
        while i < args.len()
            invariant
                1 <= i <= args@.len(),
                rest@.len() == i - 1,
                forall|k: int| 0 <= k < rest@.len() ==> rest@[k]@ == args@[k + 1]@,
            decreases args@.len() - i,
        {
            rest.push(args[i].clone());
            i += 1;
        }
        assert(rest.deep_view() =~= args.deep_view().skip(1));
        proof {
            lemma_cli_declarations();
        }
        let matches = match parse(&opts, &rest) {
            Ok(matches) => matches,
            Err(failure) => {
                return Err(OptionsError::Parse(failure_message(&failure)));
            },
        };
        let file = opt_str(&matches, "f");
        let random = opt_str(&matches, "r");
        let help = opt_present(&matches, "h");
        let has_free = free_count(&matches) > 0;
        let heuristic = opt_str(&matches, "e");
        let usage = Options::generate_usage(&args[0], &opts);
        Options::from_matched(file, random, heuristic, help, has_free, usage)
    }

    /// Whether the usage message is due: help was asked for, or some
    /// arguments of the command line belong to no option.
    pub fn check_options(&self) -> (due: bool)
        ensures
            due == (self@.help || self@.has_free),
    {
        self.help || self.has_free
    }
}

/// Every option of the solver has a name, and the four short names are
/// declared.
proof fn lemma_cli_declarations()
    ensures
        all_named(cli_declarations()),
        is_declared(cli_declarations(), "f"@),
        is_declared(cli_declarations(), "r"@),
        is_declared(cli_declarations(), "h"@),
        is_declared(cli_declarations(), "e"@),
{
    reveal_strlit("f");
    reveal_strlit("r");
    reveal_strlit("h");
    reveal_strlit("e");
    let declared = cli_declarations();
    assert(declared[0].short == "f"@);
    assert(declared[1].short == "r"@);
    assert(declared[2].short == "h"@);
    assert(declared[3].short == "e"@);
}

} // verus!
