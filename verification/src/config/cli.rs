//! The command line of the tool.
//!
//! [`args`] declares the arguments that the tool takes and has the parser
//! read a command line against them. [`read_arguments`] takes the texts out
//! of what the parser accepted, and [`IntoConfig::to_config`] makes a
//! [`Config`] of them; [`config`] does all of it.
use crate::config::configured;
use crate::config::optional_text;
use crate::config::Arguments;
use crate::config::Config;
use crate::config::ConfigError;
use crate::config::IntoConfig;
use crate::package::texts;
use clap::App;
use clap::Arg;
use clap::ArgMatches;
use vstd::prelude::*;

verus! {

#[verifier::external_type_specification]
#[verifier::external_body]
pub struct ExApp<'a, 'b>(App<'a, 'b>) where 'a: 'b;

#[verifier::external_type_specification]
#[verifier::external_body]
pub struct ExArg<'a, 'b>(Arg<'a, 'b>) where 'a: 'b;

#[verifier::external_type_specification]
#[verifier::external_body]
pub struct ExArgMatches<'a>(ArgMatches<'a>);

#[verifier::external_type_specification]
#[verifier::external_body]
pub struct ExClapError(clap::Error);

/// The values that the parser recorded, by argument name and in the order
/// given; bytes that are no text stand in them as U+FFFD.
pub uninterp spec fn matched_values(matches: ArgMatches<'static>) -> Map<Seq<char>, Seq<Seq<char>>>;

/// What an argument is declared with, as far as the parser's own checks of a
/// declaration go.
pub struct ArgDeclaration {
    pub name: Seq<char>,
    /// The one-letter name.
    pub short: Option<char>,
    /// The long name.
    pub long: Option<Seq<char>>,
    /// The position, where one was set.
    pub index: Option<u64>,
    /// The argument must be given.
    pub required: bool,
    /// The argument may be given more than once.
    pub multiple: bool,
    /// The argument has nothing that is not told here but a help text,
    /// value names, a default value, a validator and the setting that it
    /// takes a value: it is not global, not last, in no group, and has no
    /// limit on the number of its values.
    pub plain: bool,
}

/// A positional argument of a command line.
pub struct PositionalDeclaration {
    pub index: nat,
    pub required: bool,
    pub multiple: bool,
}

/// What a command line has declared, as far as the parser's own checks of a
/// declaration go.
pub struct AppDeclaration {
    /// The names of all its arguments.
    pub names: Set<Seq<char>>,
    /// The one-letter names of its flags and options.
    pub shorts: Set<char>,
    /// The long names of its flags and options.
    pub longs: Set<Seq<char>>,
    /// Its positional arguments, by rising index.
    pub positionals: Seq<PositionalDeclaration>,
    /// It has no groups and no positional argument that is last.
    pub plain: bool,
}

/// What an argument is declared with.
pub uninterp spec fn arg_declaration(arg: Arg<'static, 'static>) -> ArgDeclaration;

/// What a command line has declared.
pub uninterp spec fn app_declaration(app: App<'static, 'static>) -> AppDeclaration;

/// What the parser records when it reads `words`, of which the first is the
/// name of the program, against a command line; nothing where it refuses
/// the words or is asked for help or for the version.
pub uninterp spec fn parsed_values(app: App<'static, 'static>, words: Seq<Seq<char>>) -> Option<
    Map<Seq<char>, Seq<Seq<char>>>,
>;

/// The argument is read by its position: it has an index, or neither a
/// one-letter nor a long name.
pub open spec fn is_positional(arg: ArgDeclaration) -> bool {
    arg.index is Some || (arg.short is None && arg.long is None)
}

/// The declaration passes the checks that the parser makes before it reads:
/// the positions are 1, 2, 3 and so on without a gap, only the last
/// positional argument may be given more than once, and every positional
/// argument before a required one is required.
pub open spec fn well_declared(app: AppDeclaration) -> bool {
    &&& app.plain
    &&& forall|k: int|
        0 <= k < app.positionals.len() ==> (#[trigger] app.positionals[k]).index == k + 1
    &&& forall|k: int|
        0 <= k < app.positionals.len() - 1 ==> !(#[trigger] app.positionals[k]).multiple
    &&& forall|j: int, k: int|
        0 <= j < k < app.positionals.len() && (#[trigger] app.positionals[k]).required ==> (
        #[trigger] app.positionals[j]).required
}

/// The argument can be added to the command line: its name, its one-letter
/// name and its long name are new; where it is positional, its index, if it
/// has one, is the next free position, no positional argument before it may
/// be given more than once, and all of them are required if it is.
pub open spec fn may_declare(app: AppDeclaration, arg: ArgDeclaration) -> bool {
    &&& well_declared(app)
    &&& arg.plain
    &&& !app.names.contains(arg.name)
    &&& arg.short matches Some(c) ==> !app.shorts.contains(c)
    &&& arg.long matches Some(l) ==> !app.longs.contains(l)
    &&& is_positional(arg) ==> {
        &&& arg.index matches Some(i) ==> i == app.positionals.len() + 1
        &&& forall|k: int|
            0 <= k < app.positionals.len() ==> !(#[trigger] app.positionals[k]).multiple
        &&& arg.required ==> forall|k: int|
            0 <= k < app.positionals.len() ==> (#[trigger] app.positionals[k]).required
    }
}

/// What the command line has declared once the argument is added: its name
/// in any case; its position where it is positional; its one-letter and its
/// long name where it is a flag or an option.
pub open spec fn declared_with(app: AppDeclaration, arg: ArgDeclaration) -> AppDeclaration {
    if is_positional(arg) {
        AppDeclaration {
            names: app.names.insert(arg.name),
            positionals: app.positionals.push(
                PositionalDeclaration {
                    index: app.positionals.len() + 1,
                    required: arg.required,
                    multiple: arg.multiple,
                },
            ),
            ..app
        }
    } else {
        AppDeclaration {
            names: app.names.insert(arg.name),
            shorts: match arg.short {
                Some(c) => app.shorts.insert(c),
                None => app.shorts,
            },
            longs: match arg.long {
                Some(l) => app.longs.insert(l),
                None => app.longs,
            },
            ..app
        }
    }
}

/// An argument that can be added leaves a declaration that passes the
/// checks.
pub proof fn lemma_declared_with_is_well_declared(app: AppDeclaration, arg: ArgDeclaration)
    requires
        may_declare(app, arg),
    ensures
        well_declared(declared_with(app, arg)),
{
    let after = declared_with(app, arg);
    if is_positional(arg) {
        let count = app.positionals.len() as int;
        assert forall|k: int| 0 <= k < after.positionals.len() implies (
        #[trigger] after.positionals[k]).index == k + 1 by {
            if k < count {
                assert(after.positionals[k] == app.positionals[k]);
            }
        }
        assert forall|k: int| 0 <= k < after.positionals.len() - 1 implies !(
        #[trigger] after.positionals[k]).multiple by {
            assert(after.positionals[k] == app.positionals[k]);
        }
        assert forall|j: int, k: int|
            0 <= j < k < after.positionals.len() && (
            #[trigger] after.positionals[k]).required implies (
        #[trigger] after.positionals[j]).required by {
            assert(after.positionals[j] == app.positionals[j]);
            if k < count {
                assert(after.positionals[k] == app.positionals[k]);
            }
        }
    }
}

/// `App::new` begins the declaration of a command line: with no argument
/// yet, no group and no subcommand.
#[verifier::external_body]
fn app_new(name: &'static str) -> (app: App<'static, 'static>)
    ensures
        app_declaration(app) == (AppDeclaration {
            names: Set::empty(),
            shorts: Set::empty(),
            longs: Set::empty(),
            positionals: Seq::empty(),
            plain: true,
        }),
{
    App::new(name)
}

/// `App::version` sets the version that `--version` prints and leaves what
/// is declared as it is.
#[verifier::external_body]
fn app_version(app: App<'static, 'static>, version: &'static str) -> (out: App<'static, 'static>)
    ensures
        app_declaration(out) == app_declaration(app),
{
    app.version(version)
}

/// `App::author` sets the author that the help names and leaves what is
/// declared as it is.
#[verifier::external_body]
fn app_author(app: App<'static, 'static>, author: &'static str) -> (out: App<'static, 'static>)
    ensures
        app_declaration(out) == app_declaration(app),
{
    app.author(author)
}

/// `App::arg` adds an argument to a command line. The parser stops on a
/// name, a one-letter name, a long name or a position that the command line
/// already has; the argument must be one that can be added. The command
/// line then declares it as well.
#[verifier::external_body]
fn app_arg(app: App<'static, 'static>, arg: Arg<'static, 'static>) -> (out: App<'static, 'static>)
    requires
        may_declare(app_declaration(app), arg_declaration(arg)),
    ensures
        app_declaration(out) == declared_with(app_declaration(app), arg_declaration(arg)),
{
    app.arg(arg)
}

/// `Arg::with_name` begins the declaration of an argument: it has the name
/// and nothing else.
#[verifier::external_body]
fn arg_with_name(name: &'static str) -> (arg: Arg<'static, 'static>)
    ensures
        arg_declaration(arg) == (ArgDeclaration {
            name: name@,
            short: None,
            long: None,
            index: None,
            required: false,
            multiple: false,
            plain: true,
        }),
{
    Arg::with_name(name)
}

/// `Arg::index` sets the position of an argument and keeps the rest.
#[verifier::external_body]
fn arg_index(arg: Arg<'static, 'static>, index: u64) -> (out: Arg<'static, 'static>)
    ensures
        arg_declaration(out) == (ArgDeclaration { index: Some(index), ..arg_declaration(arg) }),
{
    arg.index(index)
}

/// `Arg::help` sets the help text of an argument and keeps what it is
/// declared with.
#[verifier::external_body]
fn arg_help(arg: Arg<'static, 'static>, help: &'static str) -> (out: Arg<'static, 'static>)
    ensures
        arg_declaration(out) == arg_declaration(arg),
{
    arg.help(help)
}

/// `Arg::required` says whether an argument must be given and keeps the
/// rest.
#[verifier::external_body]
fn arg_required(arg: Arg<'static, 'static>, required: bool) -> (out: Arg<'static, 'static>)
    ensures
        arg_declaration(out) == (ArgDeclaration { required, ..arg_declaration(arg) }),
{
    arg.required(required)
}

/// `Arg::short` sets the one-letter name of an argument, which is the first
/// character of `name` after leading hyphens, and keeps the rest. Here
/// `name` is that one character.
#[verifier::external_body]
fn arg_short(arg: Arg<'static, 'static>, name: &'static str) -> (out: Arg<'static, 'static>)
    requires
        name@.len() == 1,
        name@[0] != '-',
    ensures
        arg_declaration(out) == (ArgDeclaration { short: Some(name@[0]), ..arg_declaration(arg) }),
{
    arg.short(name)
}

/// `Arg::long` sets the long name of an argument, which is `name` without
/// leading hyphens, and keeps the rest. Here `name` has none.
#[verifier::external_body]
fn arg_long(arg: Arg<'static, 'static>, name: &'static str) -> (out: Arg<'static, 'static>)
    requires
        name@.len() > 0 ==> name@[0] != '-',
    ensures
        arg_declaration(out) == (ArgDeclaration { long: Some(name@), ..arg_declaration(arg) }),
{
    arg.long(name)
}

/// `Arg::value_name` names the value of an argument in the help, has the
/// argument take a value, and keeps what it is declared with.
#[verifier::external_body]
fn arg_value_name(arg: Arg<'static, 'static>, name: &'static str) -> (out: Arg<'static, 'static>)
    ensures
        arg_declaration(out) == arg_declaration(arg),
{
    arg.value_name(name)
}

/// `Arg::takes_value` says whether an argument has a value and keeps what
/// it is declared with.
#[verifier::external_body]
fn arg_takes_value(arg: Arg<'static, 'static>, takes: bool) -> (out: Arg<'static, 'static>)
    ensures
        arg_declaration(out) == arg_declaration(arg),
{
    arg.takes_value(takes)
}

/// `Arg::default_value` sets the value of an argument that is not given,
/// has the argument take a value, and keeps what it is declared with.
#[verifier::external_body]
fn arg_default_value(arg: Arg<'static, 'static>, value: &'static str) -> (out: Arg<
    'static,
    'static,
>)
    ensures
        arg_declaration(out) == arg_declaration(arg),
{
    arg.default_value(value)
}

/// `Arg::multiple` says whether an argument may be given more than once and
/// keeps the rest.
#[verifier::external_body]
fn arg_multiple(arg: Arg<'static, 'static>, multiple: bool) -> (out: Arg<'static, 'static>)
    ensures
        arg_declaration(out) == (ArgDeclaration { multiple, ..arg_declaration(arg) }),
{
    arg.multiple(multiple)
}

/// `Arg::validator` has the parser ask [`validate_architecture`] about each
/// value of an argument and keeps what the argument is declared with.
#[verifier::external_body]
fn arg_validate_architecture(arg: Arg<'static, 'static>) -> (out: Arg<'static, 'static>)
    ensures
        arg_declaration(out) == arg_declaration(arg),
{
    arg.validator(validate_architecture)
}

/// `App::get_matches_from_safe` reads a command line, whose first text is
/// the name of the program. Before it reads, the parser stops on a
/// declaration that does not pass its checks. What it records, and whether
/// it records anything, depends on the command line declared and on the
/// words alone.
#[verifier::external_body]
fn app_get_matches_from_safe(app: App<'static, 'static>, argv: Vec<String>) -> (result: Result<
    ArgMatches<'static>,
    clap::Error,
>)
    requires
        well_declared(app_declaration(app)),
    ensures
        match result {
            Ok(matches) => parsed_values(app, texts(argv@)) == Some(matched_values(matches)),
            Err(_) => parsed_values(app, texts(argv@)) is None,
        },
{
    app.get_matches_from_safe(argv)
}

/// `ArgMatches::value_of_lossy` gives the first value recorded for an
/// argument, if there is one.
#[verifier::external_body]
fn value_of_lossy(matches: &ArgMatches<'static>, name: &str) -> (value: Option<String>)
    ensures
        match value {
            Some(text) => matched_values(*matches).contains_key(name@) && matched_values(
                *matches,
            )[name@].len() > 0 && text@ == matched_values(*matches)[name@][0],
            None => !matched_values(*matches).contains_key(name@) || matched_values(
                *matches,
            )[name@].len() == 0,
        },
{
    matches.value_of_lossy(name).map(|value| value.into_owned())
}

/// `ArgMatches::values_of_lossy` gives all values recorded for an argument,
/// if the argument was recorded.
#[verifier::external_body]
fn values_of_lossy(matches: &ArgMatches<'static>, name: &str) -> (values: Option<Vec<String>>)
    ensures
        match values {
            Some(list) => matched_values(*matches).contains_key(name@) && texts(list@)
                == matched_values(*matches)[name@],
            None => !matched_values(*matches).contains_key(name@),
        },
{
    matches.values_of_lossy(name)
}

/// The field `message` of a `clap::Error`. Nothing is claimed of it.
#[verifier::external_body]
fn error_message(error: &clap::Error) -> String {
    error.message.clone()
}

/// `clap::Error::use_stderr` says whether the message is an error message,
/// not help or a version. Nothing is claimed of it.
#[verifier::external_body]
fn error_use_stderr(error: &clap::Error) -> bool {
    error.use_stderr()
}

/// `num_cpus::get` gives the number of processors that the process may
/// use, which depends on the machine and on the moment. It is at least 1.
#[verifier::external_body]
fn cpu_count() -> (count: usize)
    ensures
        count >= 1,
{
    num_cpus::get()
}

/// Whether the tool knows an architecture.
pub open spec fn known_architecture(arch: Seq<char>) -> bool {
    arch == "x86_64"@ || arch == "i686"@
}

/// Accepts the architectures that the tool knows, and says of any other
/// that it is unknown.
pub fn validate_architecture(arch: String) -> (result: Result<(), String>)
    ensures
        result is Ok <==> known_architecture(arch@),
        result matches Err(message) ==> message@ == "Unknown architecture: \""@ + arch@ + "\""@,
{
    if arch == String::from_str("x86_64") || arch == String::from_str("i686") {
        Ok(())
    } else {
        Err(String::from_str("Unknown architecture: \"").concat(arch.as_str()).concat("\""))
    }
}

/// The declaration is that of the tool: a required positional argument
/// `package`, and seven options with their one-letter and long names.
pub open spec fn tool_declaration(app: AppDeclaration) -> bool {
    &&& app.plain
    &&& app.names =~= set![
        "package"@,
        "repository"@,
        "repository-name"@,
        "output"@,
        "parallelism"@,
        "exclude"@,
        "include"@,
        "architecture"@,
    ]
    &&& app.shorts =~= set!['r', 'n', 'o', 'p', 'e', 'i', 'a']
    &&& app.longs =~= set!["repository"@, "reponame"@, "output"@, "arch"@]
    &&& app.positionals =~= seq![
        PositionalDeclaration { index: 1, required: true, multiple: false },
    ]
}

/// `result` is what the reading of `words` against the command line `app`,
/// which declares what the tool declares, gives: what the parser recorded,
/// or an error of the command line where it recorded nothing.
pub open spec fn command_line_read(
    app: App<'static, 'static>,
    words: Seq<Seq<char>>,
    result: Result<Box<ArgMatches<'static>>, ConfigError>,
) -> bool {
    &&& tool_declaration(app_declaration(app))
    &&& match result {
        Ok(matches) => parsed_values(app, words) == Some(matched_values(*matches)),
        Err(error) => error is CommandLine && parsed_values(app, words) is None,
    }
}

/// Declares the command line of the tool and reads `argv` against it; the
/// first text of `argv` is the name of the program. The parser decides what
/// is accepted; what it did not accept, and a request for help or for the
/// version, come back as [`ConfigError::CommandLine`].
pub fn args(argv: Vec<String>) -> (result: Result<Box<ArgMatches<'static>>, ConfigError>)
    ensures
        exists|app: App<'static, 'static>| #[trigger] command_line_read(app, texts(argv@), result),
{
    let ghost words = texts(argv@);
    proof {
        reveal_strlit("package");
        reveal_strlit("repository");
        reveal_strlit("repository-name");
        reveal_strlit("output");
        reveal_strlit("parallelism");
        reveal_strlit("exclude");
        reveal_strlit("include");
        reveal_strlit("architecture");
        reveal_strlit("reponame");
        reveal_strlit("arch");
        reveal_strlit("r");
        reveal_strlit("n");
        reveal_strlit("o");
        reveal_strlit("p");
        reveal_strlit("e");
        reveal_strlit("i");
        reveal_strlit("a");
        assert("package"@.len() == 7 && "package"@[0] == 'p');
        assert("repository"@.len() == 10);
        assert("repository-name"@.len() == 15);
        assert("output"@.len() == 6);
        assert("parallelism"@.len() == 11);
        assert("exclude"@.len() == 7 && "exclude"@[0] == 'e');
        assert("include"@.len() == 7 && "include"@[0] == 'i');
        assert("architecture"@.len() == 12);
        assert("reponame"@.len() == 8);
        assert("arch"@.len() == 4);
    }
    let package = arg_required(
        arg_help(arg_index(arg_with_name("package"), 1), "Package name"),
        true,
    );
    let repository = arg_default_value(
        arg_takes_value(
            arg_help(
                arg_value_name(
                    arg_long(arg_short(arg_with_name("repository"), "r"), "repository"),
                    "REPOSITORY",
                ),
                "Address to package repository",
            ),
            true,
        ),
        "http://repo.msys2.org/mingw",
    );
    let repository_name = arg_default_value(
        arg_takes_value(
            arg_help(
                arg_value_name(
                    arg_long(arg_short(arg_with_name("repository-name"), "n"), "reponame"),
                    "REPOSITORY_NAME",
                ),
                "Package repository name",
            ),
            true,
        ),
        "mingw64",
    );
    let output = arg_default_value(
        arg_takes_value(
            arg_help(
                arg_value_name(
                    arg_long(arg_short(arg_with_name("output"), "o"), "output"),
                    "OUTPUT",
                ),
                "Output folder",
            ),
            true,
        ),
        "./",
    );
    let parallelism = arg_takes_value(
        arg_help(
            arg_value_name(arg_short(arg_with_name("parallelism"), "p"), "PARALLELISM"),
            "Download/extract thread pool parallelism",
        ),
        true,
    );
    let exclude = arg_takes_value(
        arg_multiple(
            arg_help(
                arg_value_name(arg_short(arg_with_name("exclude"), "e"), "EXCLUDE"),
                "Exclude files or folders by regex",
            ),
            true,
        ),
        true,
    );
    let include_only = arg_takes_value(
        arg_multiple(
            arg_help(
                arg_value_name(arg_short(arg_with_name("include"), "i"), "INCLUDE"),
                "Include files or folders by regex. Only files which matches regex will be included. All files which matches include and exclude regex will *not* be included",
            ),
            true,
        ),
        true,
    );
    let architecture = arg_validate_architecture(
        arg_default_value(
            arg_takes_value(
                arg_help(
                    arg_value_name(
                        arg_long(arg_short(arg_with_name("architecture"), "a"), "arch"),
                        "ARCH",
                    ),
                    "Package architecture",
                ),
                true,
            ),
            "x86_64",
        ),
    );
    let app = app_author(
        app_version(app_new("windows-toolchain-builder"), "0.1.0"),
        "Aleksei Arsenev <alesharik4@gmail.com>",
    );
    proof {
        lemma_declared_with_is_well_declared(app_declaration(app), arg_declaration(package));
    }
    let app = app_arg(app, package);
    proof {
        lemma_declared_with_is_well_declared(app_declaration(app), arg_declaration(repository));
    }
    let app = app_arg(app, repository);
    proof {
        lemma_declared_with_is_well_declared(
            app_declaration(app),
            arg_declaration(repository_name),
        );
    }
    let app = app_arg(app, repository_name);
    proof {
        lemma_declared_with_is_well_declared(app_declaration(app), arg_declaration(output));
    }
    let app = app_arg(app, output);
    proof {
        lemma_declared_with_is_well_declared(app_declaration(app), arg_declaration(parallelism));
    }
    let app = app_arg(app, parallelism);
    proof {
        lemma_declared_with_is_well_declared(app_declaration(app), arg_declaration(exclude));
    }
    let app = app_arg(app, exclude);
    proof {
        lemma_declared_with_is_well_declared(
            app_declaration(app),
            arg_declaration(include_only),
        );
    }
    let app = app_arg(app, include_only);
    proof {
        lemma_declared_with_is_well_declared(
            app_declaration(app),
            arg_declaration(architecture),
        );
    }
    let app = app_arg(app, architecture);
    let ghost declared = app;
    assert(tool_declaration(app_declaration(declared)));
    let result = match app_get_matches_from_safe(app, argv) {
        Ok(matches) => Ok(Box::new(matches)),
        Err(error) => Err(
            ConfigError::CommandLine {
                message: error_message(&error),
                use_stderr: error_use_stderr(&error),
            },
        ),
    };
    assert(command_line_read(declared, words, result));
    result
}

/// The first value recorded under `name`.
pub open spec fn first_value(values: Map<Seq<char>, Seq<Seq<char>>>, name: Seq<char>) -> Option<
    Seq<char>,
> {
    if values.contains_key(name) && values[name].len() > 0 {
        Some(values[name][0])
    } else {
        None
    }
}

/// All values recorded under `name`; none where nothing was recorded.
pub open spec fn all_values(values: Map<Seq<char>, Seq<Seq<char>>>, name: Seq<char>) -> Seq<
    Seq<char>,
> {
    if values.contains_key(name) {
        values[name]
    } else {
        Seq::empty()
    }
}

/// The first of the arguments that a run needs and that has no value, in
/// the order package, repository, repository name, architecture, output.
pub open spec fn first_missing(values: Map<Seq<char>, Seq<Seq<char>>>) -> Option<Seq<char>> {
    if first_value(values, "package"@) is None {
        Some("package"@)
    } else if first_value(values, "repository"@) is None {
        Some("repository"@)
    } else if first_value(values, "repository-name"@) is None {
        Some("repository-name"@)
    } else if first_value(values, "architecture"@) is None {
        Some("architecture"@)
    } else if first_value(values, "output"@) is None {
        Some("output"@)
    } else {
        None
    }
}

/// `result` is what is read out of the recorded `values`: the texts of a
/// run where every argument that a run needs has a value, and otherwise the
/// name of the first that has none.
pub open spec fn arguments_read(
    values: Map<Seq<char>, Seq<Seq<char>>>,
    result: Result<Arguments, ConfigError>,
) -> bool {
    match result {
        Ok(arguments) => {
            &&& first_missing(values) is None
            &&& first_value(values, "package"@) == Some(arguments.package@)
            &&& first_value(values, "repository"@) == Some(arguments.repository@)
            &&& first_value(values, "repository-name"@) == Some(arguments.repository_name@)
            &&& first_value(values, "architecture"@) == Some(arguments.architecture@)
            &&& first_value(values, "output"@) == Some(arguments.output@)
            &&& first_value(values, "parallelism"@) == optional_text(arguments.parallelism)
            &&& all_values(values, "exclude"@) == texts(arguments.exclude@)
            &&& all_values(values, "include"@) == texts(arguments.include_only@)
        },
        Err(ConfigError::MissingArgument(name)) => first_missing(values) == Some(name@),
        Err(_) => false,
    }
}

/// `result` is what the recorded `values` configure on a machine with
/// `cpu_count` processors: the error of the reading where an argument is
/// missing, and otherwise what the texts that were read configure.
pub open spec fn configured_by(
    values: Map<Seq<char>, Seq<Seq<char>>>,
    cpu_count: usize,
    result: Result<Config, ConfigError>,
) -> bool {
    exists|read: Result<Arguments, ConfigError>| #[trigger]
        arguments_read(values, read) && match read {
            Ok(arguments) => configured(arguments, cpu_count, result),
            Err(error) => result == Err::<Config, ConfigError>(error),
        }
}

/// The first value that the parser recorded for an argument that a run
/// needs.
fn needed(matches: &ArgMatches<'static>, name: &str) -> (result: Result<String, ConfigError>)
    ensures
        match result {
            Ok(text) => first_value(matched_values(*matches), name@) == Some(text@),
            Err(ConfigError::MissingArgument(missing)) => first_value(
                matched_values(*matches),
                name@,
            ) is None && missing@ == name@,
            Err(_) => false,
        },
{
    match value_of_lossy(matches, name) {
        Some(text) => Ok(text),
        None => Err(ConfigError::MissingArgument(name.to_owned())),
    }
}

/// Takes the texts of a run out of what the parser recorded. An argument
/// that a run needs and that has no value is an error.
pub fn read_arguments(matches: &ArgMatches<'static>) -> (result: Result<Arguments, ConfigError>)
    ensures
        arguments_read(matched_values(*matches), result),
{
    let package = match needed(matches, "package") {
        Ok(text) => text,
        Err(error) => {
            return Err(error);
        },
    };
    let repository = match needed(matches, "repository") {
        Ok(text) => text,
        Err(error) => {
            return Err(error);
        },
    };
    let repository_name = match needed(matches, "repository-name") {
        Ok(text) => text,
        Err(error) => {
            return Err(error);
        },
    };
    let architecture = match needed(matches, "architecture") {
        Ok(text) => text,
        Err(error) => {
            return Err(error);
        },
    };
    let output = match needed(matches, "output") {
        Ok(text) => text,
        Err(error) => {
            return Err(error);
        },
    };
    let parallelism = value_of_lossy(matches, "parallelism");
    let exclude = match values_of_lossy(matches, "exclude") {
        Some(list) => list,
        None => Vec::new(),
    };
    let include_only = match values_of_lossy(matches, "include") {
        Some(list) => list,
        None => Vec::new(),
    };
    proof {
        assert(texts(Seq::<String>::empty()) =~= Seq::<Seq<char>>::empty());
    }
    Ok(
        Arguments {
            package,
            repository,
            repository_name,
            architecture,
            parallelism,
            exclude,
            include_only,
            output,
        },
    )
}

impl IntoConfig for ArgMatches<'static> {
    /// Makes the configuration that the recorded values ask for on this
    /// machine. Where no parallelism was given, the number of processors is
    /// taken, which is at least 1 and is the one thing that the values do
    /// not decide.
    fn to_config(&self) -> (result: Result<Config, ConfigError>)
        ensures
            exists|cpu_count: usize|
                cpu_count >= 1 && #[trigger] configured_by(
                    matched_values(*self),
                    cpu_count,
                    result,
                ),
            first_missing(matched_values(*self)) matches Some(name) ==> result matches Err(
                ConfigError::MissingArgument(missing),
            ) && missing@ == name,
            result matches Ok(made) ==> made.parallelism > 0,
    {
        let read = read_arguments(self);
        let processors = cpu_count();
        let result = match read {
            Ok(arguments) => Config::from_arguments(arguments, processors),
            Err(error) => Err(error),
        };
        assert(configured_by(matched_values(*self), processors, result)) by {
            assert(arguments_read(matched_values(*self), read));
        }
        result
    }
}

/// `result` is what the reading of `words` against the command line `app`
/// configures on a machine with `cpu_count` processors: an error of the
/// command line where the parser records nothing, and otherwise what the
/// recorded values configure.
pub open spec fn command_line_configured(
    app: App<'static, 'static>,
    cpu_count: usize,
    words: Seq<Seq<char>>,
    result: Result<Config, ConfigError>,
) -> bool {
    &&& tool_declaration(app_declaration(app))
    &&& cpu_count >= 1
    &&& match parsed_values(app, words) {
        Some(values) => configured_by(values, cpu_count, result),
        None => result matches Err(ConfigError::CommandLine { .. }),
    }
}

/// Reads a command line, whose first text is the name of the program, and
/// makes the configuration that it asks for on this machine.
pub fn config(argv: Vec<String>) -> (result: Result<Config, ConfigError>)
    ensures
        exists|app: App<'static, 'static>, cpu_count: usize| #[trigger]
            command_line_configured(app, cpu_count, texts(argv@), result),
        result matches Ok(made) ==> made.parallelism > 0,
{
    let ghost words = texts(argv@);
    let read = args(argv);
    let ghost app = choose|app: App<'static, 'static>| #[trigger]
        command_line_read(app, words, read);
    match read {
        Ok(matches) => {
            let result = matches.to_config();
            proof {
                let cpu_count = choose|cpu_count: usize|
                    cpu_count >= 1 && #[trigger] configured_by(
                        matched_values(*matches),
                        cpu_count,
                        result,
                    );
                assert(command_line_configured(app, cpu_count, words, result));
            }
            result
        },
        Err(error) => {
            let result = Err(error);
            assert(command_line_configured(app, 1, words, result));
            result
        },
    }
}

} // verus!
