//! The command-line parser, `getopts`, as the options module sees it.
//!
//! Nothing in this file is proved. Each function below makes one call into
//! `getopts` and states what that call does over a model of the parser's
//! values: the options that were declared, and what a parse found for each
//! of them. The doc comment of each says what is taken on trust.

use getopts::Options as Parser;
use vstd::prelude::*;

verus! {

/// A set of declared options. Nothing is known of a value of this type but
/// what [`declared_options`] names.
#[verifier::external_type_specification]
#[verifier::external_body]
pub struct ExParser(Parser);

/// The result of a successful parse. Nothing is known of a value of this
/// type but what [`occurrences`] and [`free_arguments`] name.
#[verifier::external_type_specification]
#[verifier::external_body]
pub struct ExMatches(getopts::Matches);

/// The reason for which a parse failed.
#[verifier::external_type_specification]
#[verifier::external_body]
pub struct ExFail(getopts::Fail);

/// One option as it was declared: its two names, either of which may be
/// empty, the texts shown in the usage message, and whether the option
/// takes a value.
pub struct Declared {
    pub short: Seq<char>,
    pub long: Seq<char>,
    pub desc: Seq<char>,
    pub hint: Seq<char>,
    pub takes_value: bool,
}

/// For each name under which an option can be looked up, what the command
/// line held for that option: one entry for each time it was given, in
/// order, with the value given to it that time, if any.
pub type Found = Map<Seq<char>, Seq<Option<Seq<char>>>>;

/// The options declared so far, in the order of their declaration.
pub uninterp spec fn declared_options(options: Parser) -> Seq<Declared>;

/// What a parse found for each declared option.
pub uninterp spec fn occurrences(matches: getopts::Matches) -> Found;

/// The arguments of the command line that belong to no option, in order.
pub uninterp spec fn free_arguments(matches: getopts::Matches) -> Seq<Seq<char>>;

/// What parsing `args` against `declared` gives: nothing where the
/// arguments do not conform, else what was found for each option and the
/// free arguments.
pub uninterp spec fn parse_outcome(declared: Seq<Declared>, args: Seq<Seq<char>>) -> Option<
    (Found, Seq<Seq<char>>),
>;

/// The usage message for `declared` under the heading `brief`.
pub uninterp spec fn usage_text(declared: Seq<Declared>, brief: Seq<char>) -> Seq<char>;

/// The names that the parser accepts for an option: a short name is empty
/// or one ASCII character, a long name is empty or longer than one
/// character.
pub open spec fn names_accepted(short: Seq<char>, long: Seq<char>) -> bool {
    &&& short.len() == 0 || (short.len() == 1 && short[0] as u32 <= 0x7f)
    &&& long.len() == 0 || long.len() >= 2
}

/// Every declared option has a name.
pub open spec fn all_named(declared: Seq<Declared>) -> bool {
    forall|i: int|
        0 <= i < declared.len() ==> (#[trigger] declared[i]).short.len() > 0 || declared[i].long.len()
            > 0
}

/// `name` is the short or the long name of a declared option.
pub open spec fn is_declared(declared: Seq<Declared>, name: Seq<char>) -> bool {
    name.len() > 0 && exists|i: int|
        0 <= i < declared.len() && ((#[trigger] declared[i]).short == name || declared[i].long
            == name)
}

/// The value given to an option the first time it was given.
pub open spec fn first_value(given: Seq<Option<Seq<char>>>) -> Option<Seq<char>> {
    if given.len() > 0 {
        given[0]
    } else {
        None
    }
}

/// The text of a string that may be missing.
pub open spec fn text_of(s: Option<String>) -> Option<Seq<char>> {
    match s {
        Some(s) => Some(s@),
        None => None,
    }
}

/// `getopts::Options::new`: a set of options in which nothing is declared.
#[verifier::external_body]
pub(crate) fn new_options() -> (options: Parser)
    ensures
        declared_options(options) == Seq::<Declared>::empty(),
{
    Parser::new()
}

/// `getopts::Options::optopt`: declares, after those already declared, an
/// option that may be given once and takes a value. The call panics on
/// names it does not accept, which `requires` leaves out.
#[verifier::external_body]
pub(crate) fn add_optopt(
    options: &mut Parser,
    short: &str,
    long: &str,
    desc: &str,
    hint: &str,
)
    requires
        names_accepted(short@, long@),
    ensures
        declared_options(*final(options)) == declared_options(*old(options)).push(
            Declared { short: short@, long: long@, desc: desc@, hint: hint@, takes_value: true },
        ),
{
    options.optopt(short, long, desc, hint);
}

/// `getopts::Options::optflag`: declares, after those already declared, an
/// option that may be given once and takes no value; its hint is empty. The
/// call panics on names it does not accept, which `requires` leaves out.
#[verifier::external_body]
pub(crate) fn add_optflag(options: &mut Parser, short: &str, long: &str, desc: &str)
    requires
        names_accepted(short@, long@),
    ensures
        declared_options(*final(options)) == declared_options(*old(options)).push(
            Declared {
                short: short@,
                long: long@,
                desc: desc@,
                hint: Seq::empty(),
                takes_value: false,
            },
        ),
{
    options.optflag(short, long, desc);
}

/// `getopts::Options::parse`: the result depends on the declared options
/// and on the arguments alone, and is named by [`parse_outcome`]. After a
/// success an option can be looked up under each of its names and under no
/// other. The call panics where a declared option has no name at all, which
/// `requires` leaves out.
#[verifier::external_body]
pub(crate) fn parse(options: &Parser, args: &Vec<String>) -> (result: Result<
    getopts::Matches,
    getopts::Fail,
>)
    requires
        all_named(declared_options(*options)),
    ensures
        match result {
            Ok(matches) => {
                &&& parse_outcome(declared_options(*options), args.deep_view()) == Some(
                    (occurrences(matches), free_arguments(matches)),
                )
                &&& forall|name: Seq<char>|
                    occurrences(matches).dom().contains(name) <==> is_declared(
                        declared_options(*options),
                        name,
                    )
            },
            Err(_) => parse_outcome(declared_options(*options), args.deep_view()) is None,
        },
{
    options.parse(args)
}

/// `getopts::Matches::opt_present`: whether the option was given at least
/// once. The call panics on a name under which no option was declared,
/// which `requires` leaves out.
#[verifier::external_body]
pub(crate) fn opt_present(matches: &getopts::Matches, name: &str) -> (present: bool)
    requires
        occurrences(*matches).dom().contains(name@),
    ensures
        present == (occurrences(*matches)[name@].len() > 0),
{
    matches.opt_present(name)
}

/// `getopts::Matches::opt_str`: the value given to the option the first
/// time it was given, if it was given and had a value then. The call panics
/// on a name under which no option was declared, which `requires` leaves
/// out.
#[verifier::external_body]
pub(crate) fn opt_str(matches: &getopts::Matches, name: &str) -> (value: Option<String>)
    requires
        occurrences(*matches).dom().contains(name@),
    ensures
        text_of(value) == first_value(occurrences(*matches)[name@]),
{
    matches.opt_str(name)
}

/// The field `free` of `getopts::Matches`: how many free arguments the
/// command line held.
#[verifier::external_body]
pub(crate) fn free_count(matches: &getopts::Matches) -> (count: usize)
    ensures
        count == free_arguments(*matches).len(),
{
    matches.free.len()
}

/// `getopts::Options::usage`: the result depends on the declared options
/// and on the heading alone, and is named by [`usage_text`].
#[verifier::external_body]
pub(crate) fn usage(options: &Parser, brief: &str) -> (text: String)
    ensures
        text@ == usage_text(declared_options(*options), brief@),
{
    options.usage(brief)
}

/// The `Display` of `getopts::Fail`: the reason of a failure as a sentence.
/// Nothing is claimed of the sentence.
#[verifier::external_body]
pub(crate) fn failure_message(failure: &getopts::Fail) -> String {
    failure.to_string()
}

} // verus!
