//! The command line of the harness.
//!
//! The options are declared to `getopts`, which reads the arguments. What it
//! finds is taken out as plain texts, one for each option that holds a value,
//! so that the rest of the library never sees the parser.

use vstd::prelude::*;
use vstd::string::*;
use vstd::utf8::is_ascii_chars;
use getopts::{Fail, Matches, Options};
use crate::errors::ConfigError;
use crate::text::texts;

verus! {

/// `getopts::Options`: a set of declared options.
#[verifier::external_type_specification]
#[verifier::external_body]
pub struct ExOptions(Options);

/// `getopts::Matches`: what a command line held for each declared option.
#[verifier::external_type_specification]
#[verifier::external_body]
pub struct ExMatches(Matches);

/// `getopts::Fail`: why a command line did not fit the declared options.
#[verifier::external_type_specification]
#[verifier::external_body]
pub struct ExFail(Fail);

/// One declared option.
pub struct Declared {
    /// The name after a single dash: one character, or empty for none.
    pub short: Seq<char>,
    /// The name after a double dash: two characters or more, or empty for
    /// none.
    pub long: Seq<char>,
    /// What the usage text says of the option.
    pub description: Seq<char>,
    /// What the usage text writes for the option's value.
    pub hint: Seq<char>,
    /// Whether the option takes a value; one that takes none is a flag.
    pub takes_value: bool,
}

/// The options that an option set holds, in the order in which they were
/// declared.
pub uninterp spec fn declared(options: Options) -> Seq<Declared>;

/// Whether an option set is as `Options::new` made it but for options that
/// `optopt` and `optflag` added, each with a name: free arguments may stand
/// anywhere, a long name needs its double dash, and every option may be given
/// at most once.
pub uninterp spec fn is_plain(options: Options) -> bool;

/// For each name that the option set defines, what the command line gave for
/// that option, occurrence by occurrence: the value, or `None` where the
/// option stood without one.
pub uninterp spec fn matched(matches: Matches) -> Map<Seq<char>, Seq<Option<Seq<char>>>>;

/// What `getopts` finds in the arguments `args` for a plain option set with
/// the options `options`; `None` where the arguments do not fit them.
pub uninterp spec fn parse_outcome(options: Seq<Declared>, args: Seq<Seq<char>>) -> Option<
    Map<Seq<char>, Seq<Option<Seq<char>>>>,
>;

/// The usage text that `getopts` writes for a plain option set with the
/// options `options` under the heading `brief`.
pub uninterp spec fn usage_text(options: Seq<Declared>, brief: Seq<char>) -> Seq<char>;

/// The names that the options `options` can be asked for by: every short and
/// every long name that is not empty.
pub open spec fn names_of(options: Seq<Declared>) -> Set<Seq<char>> {
    Set::new(
        |name: Seq<char>|
            name.len() > 0 && exists|i: int|
                0 <= i < options.len() && ((#[trigger] options[i]).short == name
                    || options[i].long == name),
    )
}

/// Names that `getopts` takes for an option: a short name of at most one
/// character, a long name of none or of two or more, not both empty, in ASCII.
pub open spec fn valid_names(short: Seq<char>, long: Seq<char>) -> bool {
    &&& short.len() <= 1
    &&& long.len() != 1
    &&& short.len() + long.len() > 0
    &&& is_ascii_chars(short)
    &&& is_ascii_chars(long)
}

/// The value that an option was first given, if it was given with one.
pub open spec fn first_value(occurrences: Seq<Option<Seq<char>>>) -> Option<Seq<char>> {
    if occurrences.len() > 0 {
        occurrences[0]
    } else {
        None
    }
}

/// `getopts::Options::new`: an option set with nothing declared.
#[verifier::external_body]
fn new_options() -> (options: Options)
    ensures
        declared(options) == Seq::<Declared>::empty(),
        is_plain(options),
{
    Options::new()
}

/// `getopts::Options::optopt`: declares one more option, which takes a value
/// and may be given at most once. The names have to be `valid_names`, else the
/// crate panics here or when it parses.
#[verifier::external_body]
fn declare_value(options: &mut Options, short: &str, long: &str, description: &str, hint: &str)
    requires
        valid_names(short@, long@),
    ensures
        declared(*final(options)) == declared(*old(options)).push(
            (Declared {
                short: short@,
                long: long@,
                description: description@,
                hint: hint@,
                takes_value: true,
            }),
        ),
        is_plain(*final(options)) == is_plain(*old(options)),
{
    options.optopt(short, long, description, hint);
}

/// `getopts::Options::optflag`: declares one more option, which takes no value
/// and may be given at most once. The names have to be `valid_names`, else the
/// crate panics here or when it parses.
#[verifier::external_body]
fn declare_flag(options: &mut Options, short: &str, long: &str, description: &str)
    requires
        valid_names(short@, long@),
    ensures
        declared(*final(options)) == declared(*old(options)).push(
            (Declared {
                short: short@,
                long: long@,
                description: description@,
                hint: Seq::<char>::empty(),
                takes_value: false,
            }),
        ),
        is_plain(*final(options)) == is_plain(*old(options)),
{
    options.optflag(short, long, description);
}

/// `getopts::Options::parse`: reads the arguments against the option set. On
/// success the result can be asked for exactly the names of the declared
/// options.
#[verifier::external_body]
fn parse_arguments(options: &Options, args: &Vec<String>) -> (r: Result<Matches, Fail>)
    requires
        is_plain(*options),
    ensures
        match r {
            Ok(matches) => {
                &&& parse_outcome(declared(*options), texts(args@)) == Some(matched(matches))
                &&& matched(matches).dom() == names_of(declared(*options))
            },
            Err(_) => parse_outcome(declared(*options), texts(args@)) is None,
        },
{
    options.parse(args)
}

/// `getopts::Matches::opt_present`: whether the option was given at all. The
/// crate panics on a name that the option set does not define.
#[verifier::external_body]
fn is_present(matches: &Matches, name: &str) -> (yes: bool)
    requires
        matched(*matches).dom().contains(name@),
    ensures
        yes == (matched(*matches)[name@].len() > 0),
{
    matches.opt_present(name)
}

/// `getopts::Matches::opt_str`: the value of the option's first occurrence,
/// where it was given and with a value. The crate panics on a name that the
/// option set does not define.
#[verifier::external_body]
fn value_of(matches: &Matches, name: &str) -> (value: Option<String>)
    requires
        matched(*matches).dom().contains(name@),
    ensures
        match value {
            Some(text) => first_value(matched(*matches)[name@]) == Some(text@),
            None => first_value(matched(*matches)[name@]) is None,
        },
{
    matches.opt_str(name)
}

/// `getopts::Options::usage`: the usage text for the declared options under
/// the heading `brief`.
#[verifier::external_body]
fn usage_of(options: &Options, brief: &str) -> (text: String)
    requires
        is_plain(*options),
    ensures
        text@ == usage_text(declared(*options), brief@),
{
    options.usage(brief)
}

/// `getopts::Fail`'s `Display`: the failure in words.
#[verifier::external_body]
fn fail_text(fail: &Fail) -> (text: String) {
    fail.to_string()
}

/// The text that a string holds, if there is one.
pub open spec fn text_of(s: Option<String>) -> Option<Seq<char>> {
    match s {
        Some(t) => Some(t@),
        None => None,
    }
}

/// The options of the harness, in the order of their declaration.
pub open spec fn harness_options() -> Seq<Declared> {
    seq![
        Declared {
            short: "o"@,
            long: ""@,
            description: "set output file name"@,
            hint: "NAME"@,
            takes_value: true,
        },
        Declared {
            short: "p"@,
            long: "port"@,
            description: "lowest port (the required number will be allocated above)"@,
            hint: "PORT"@,
            takes_value: true,
        },
        Declared {
            short: "n"@,
            long: "iterations"@,
            description: "number of iterations"@,
            hint: "ITERS"@,
            takes_value: true,
        },
        Declared {
            short: "a"@,
            long: "addresses"@,
            description: "comma-delimited list of IP Addresses"@,
            hint: "IP"@,
            takes_value: true,
        },
        Declared {
            short: "h"@,
            long: "help"@,
            description: "print this help menu"@,
            hint: Seq::<char>::empty(),
            takes_value: false,
        },
        Declared {
            short: "T"@,
            long: "threshold"@,
            description: "size of threshold"@,
            hint: "THRES"@,
            takes_value: true,
        },
        Declared {
            short: "N"@,
            long: "size"@,
            description: "number of parties"@,
            hint: "SIZE"@,
            takes_value: true,
        },
        Declared {
            short: "P"@,
            long: "party"@,
            description: "party number"@,
            hint: "PARTY"@,
            takes_value: true,
        },
    ]
}

/// Every option of the harness can be asked for by its short name.
pub proof fn lemma_short_names_defined()
    ensures
        names_of(harness_options()).contains("o"@),
        names_of(harness_options()).contains("p"@),
        names_of(harness_options()).contains("n"@),
        names_of(harness_options()).contains("a"@),
        names_of(harness_options()).contains("h"@),
        names_of(harness_options()).contains("T"@),
        names_of(harness_options()).contains("N"@),
        names_of(harness_options()).contains("P"@),
{
    reveal_strlit("o");
    reveal_strlit("p");
    reveal_strlit("n");
    reveal_strlit("a");
    reveal_strlit("h");
    reveal_strlit("T");
    reveal_strlit("N");
    reveal_strlit("P");
    assert(harness_options()[0].short == "o"@);
    assert(harness_options()[1].short == "p"@);
    assert(harness_options()[2].short == "n"@);
    assert(harness_options()[3].short == "a"@);
    assert(harness_options()[4].short == "h"@);
    assert(harness_options()[5].short == "T"@);
    assert(harness_options()[6].short == "N"@);
    assert(harness_options()[7].short == "P"@);
}

/// The heading of the usage text for the program `program`.
pub open spec fn usage_heading(program: Seq<char>) -> Seq<char> {
    "Usage: "@ + program + " [options]"@
}

/// The values of a command line, as texts; `None` for an option that was not
/// given.
pub struct CommandLine {
    /// `-o`, the name of an output file.
    pub output: Option<String>,
    /// `-p`, the lowest port.
    pub port: Option<String>,
    /// `-n`, the iteration count.
    pub iterations: Option<String>,
    /// `-a`, the peers' addresses, separated by commas.
    pub addresses: Option<String>,
    /// `-T`, the signing threshold.
    pub threshold: Option<String>,
    /// `-N`, the party count.
    pub size: Option<String>,
    /// `-P`, the local party's index.
    pub party: Option<String>,
}

/// A command line as plain texts.
pub struct CommandLineView {
    pub output: Option<Seq<char>>,
    pub port: Option<Seq<char>>,
    pub iterations: Option<Seq<char>>,
    pub addresses: Option<Seq<char>>,
    pub threshold: Option<Seq<char>>,
    pub size: Option<Seq<char>>,
    pub party: Option<Seq<char>>,
}

impl CommandLine {
    /// The command line as plain texts.
    pub open spec fn view(&self) -> CommandLineView {
        CommandLineView {
            output: text_of(self.output),
            port: text_of(self.port),
            iterations: text_of(self.iterations),
            addresses: text_of(self.addresses),
            threshold: text_of(self.threshold),
            size: text_of(self.size),
            party: text_of(self.party),
        }
    }

    /// The command line on which no option is given.
    pub fn empty() -> (line: CommandLine)
        ensures
            line@ == (CommandLineView {
                output: None,
                port: None,
                iterations: None,
                addresses: None,
                threshold: None,
                size: None,
                party: None,
            }),
    {
        CommandLine {
            output: None,
            port: None,
            iterations: None,
            addresses: None,
            threshold: None,
            size: None,
            party: None,
        }
    }
}

/// The command line that `found` stands for: for each option its first value.
pub open spec fn command_line_of(found: Map<Seq<char>, Seq<Option<Seq<char>>>>) -> CommandLineView {
    CommandLineView {
        output: first_value(found["o"@]),
        port: first_value(found["p"@]),
        iterations: first_value(found["n"@]),
        addresses: first_value(found["a"@]),
        threshold: first_value(found["T"@]),
        size: first_value(found["N"@]),
        party: first_value(found["P"@]),
    }
}

/// What a command line asks for.
pub enum Invocation {
    /// `-h`: the usage text is to be shown, and nothing run.
    Help { usage: String },
    /// A run, with these values.
    Run { line: CommandLine },
}

/// Reads the arguments `args` of the program `program`, the program's own
/// name not among them.
///
/// Arguments that do not fit the options are a `ConfigError::Usage`. With `-h`
/// among them the result is the usage text. Otherwise it is what each option
/// was given.
pub fn process_options(program: &str, args: &Vec<String>) -> (r: Result<Invocation, ConfigError>)
    ensures
        match r {
            Ok(Invocation::Help { usage }) => {
                &&& parse_outcome(harness_options(), texts(args@)) matches Some(found)
                &&& found["h"@].len() > 0
                &&& usage@ == usage_text(harness_options(), usage_heading(program@))
            },
            Ok(Invocation::Run { line }) => {
                &&& parse_outcome(harness_options(), texts(args@)) matches Some(found)
                &&& found["h"@].len() == 0
                &&& line@ == command_line_of(found)
            },
            Err(e) => parse_outcome(harness_options(), texts(args@)) is None && e is Usage,
        },
{
    let mut options = new_options();
    proof {
        reveal_strlit("o");
        reveal_strlit("");
        reveal_strlit("p");
        reveal_strlit("port");
        reveal_strlit("n");
        reveal_strlit("iterations");
        reveal_strlit("a");
        reveal_strlit("addresses");
        reveal_strlit("h");
        reveal_strlit("help");
        reveal_strlit("T");
        reveal_strlit("threshold");
        reveal_strlit("N");
        reveal_strlit("size");
        reveal_strlit("P");
        reveal_strlit("party");
    }
    declare_value(&mut options, "o", "", "set output file name", "NAME");
    declare_value(
        &mut options,
        "p",
        "port",
        "lowest port (the required number will be allocated above)",
        "PORT",
    );
    declare_value(&mut options, "n", "iterations", "number of iterations", "ITERS");
    declare_value(&mut options, "a", "addresses", "comma-delimited list of IP Addresses", "IP");
    declare_flag(&mut options, "h", "help", "print this help menu");
    declare_value(&mut options, "T", "threshold", "size of threshold", "THRES");
    declare_value(&mut options, "N", "size", "number of parties", "SIZE");
    declare_value(&mut options, "P", "party", "party number", "PARTY");
    assert(declared(options) =~= harness_options());
    let matches = match parse_arguments(&options, args) {
        Ok(matches) => matches,
        Err(fail) => {
            return Err(ConfigError::Usage(fail_text(&fail)));
        },
    };
    proof {
        lemma_short_names_defined();
    }
    if is_present(&matches, "h") {
        let mut brief = String::from_str("Usage: ");
        brief.append(program);
        brief.append(" [options]");
        let usage = usage_of(&options, brief.as_str());
        return Ok(Invocation::Help { usage });
    }
    let line = CommandLine {
        output: value_of(&matches, "o"),
        port: value_of(&matches, "p"),
        iterations: value_of(&matches, "n"),
        addresses: value_of(&matches, "a"),
        threshold: value_of(&matches, "T"),
        size: value_of(&matches, "N"),
        party: value_of(&matches, "P"),
    };
    Ok(Invocation::Run { line })
}

} // verus!
