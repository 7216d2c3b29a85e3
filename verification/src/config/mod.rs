//! What a run is configured with.
//!
//! A [`Config`] is made from the texts that the command line gave
//! ([`Arguments`]): the parallelism is read as a decimal number, or taken
//! from the number of processors where none was given, and the patterns are
//! compiled into rules.
use crate::filter::pattern_language;
use crate::filter::regex_language;
use crate::package::texts;
use regex::Regex;
use vstd::prelude::*;

pub mod cli;

verus! {

/// The configuration of a run.
#[derive(Clone, Debug)]
pub struct Config {
    /// Name of the package that is fetched with all it depends on.
    pub package: String,
    /// Base URL of the repository; the architecture is appended to it.
    pub repository: String,
    /// Name of the repository, which names its database file.
    pub repository_name: String,
    /// Architecture to fetch packages for.
    pub architecture: String,
    /// How many packages are fetched and unpacked at once; never zero.
    pub parallelism: u32,
    /// Entries that match one of these rules are not written.
    pub exclude: Vec<Regex>,
    /// Where there are any, only entries that match one of these rules are
    /// written. Exclusion comes first.
    pub include_only: Vec<Regex>,
    /// Folder under which the entries are written.
    pub output_folder: String,
}

/// The texts that a command line gave for a run.
#[derive(Clone, Debug, PartialEq, Eq)]
pub struct Arguments {
    pub package: String,
    pub repository: String,
    pub repository_name: String,
    pub architecture: String,
    /// The parallelism as written, where it was given.
    pub parallelism: Option<String>,
    /// Patterns of the exclude rules, in the order given.
    pub exclude: Vec<String>,
    /// Patterns of the include rules, in the order given.
    pub include_only: Vec<String>,
    pub output: String,
}

/// Why no configuration could be made.
#[derive(Clone, Debug, PartialEq, Eq)]
pub enum ConfigError {
    /// The command line was not accepted, or asked for help or for the
    /// version. `use_stderr` says where the message belongs.
    CommandLine { message: String, use_stderr: bool },
    /// An argument that a configuration needs has no value. Holds its name.
    MissingArgument(String),
    /// The parallelism is not a positive number that fits 32 bits. Holds the
    /// text that was given, if one was.
    InvalidParallelism(Option<String>),
    /// A pattern is not accepted as a rule. Holds the pattern.
    InvalidPattern(String),
}

/// What can be turned into a configuration.
pub trait IntoConfig {
    /// Makes the configuration, or says why there is none.
    fn to_config(&self) -> Result<Config, ConfigError>;
}

/// The value of a decimal digit.
pub open spec fn digit_value(c: char) -> Option<nat> {
    if '0' as u32 <= c as u32 <= '9' as u32 {
        Some((c as u32 - '0' as u32) as nat)
    } else {
        None
    }
}

/// The number that a sequence of decimal digits writes, most significant
/// digit first; nothing where a character is no digit.
pub open spec fn digits_value(digits: Seq<char>) -> Option<nat>
    decreases digits.len(),
{
    if digits.len() == 0 {
        Some(0)
    } else {
        match (digits_value(digits.drop_last()), digit_value(digits.last())) {
            (Some(value), Some(digit)) => Some(10 * value + digit),
            _ => None,
        }
    }
}

/// The number that a text writes: an optional `+`, then one or more decimal
/// digits whose value fits 32 bits.
pub open spec fn parse_u32_spec(text: Seq<char>) -> Option<u32> {
    let digits = if text.len() > 0 && text[0] == '+' {
        text.skip(1)
    } else {
        text
    };
    match digits_value(digits) {
        Some(value) => if digits.len() > 0 && value <= u32::MAX {
            Some(value as u32)
        } else {
            None
        },
        None => None,
    }
}

/// The digits before a position of a number write a number that is no
/// greater.
proof fn lemma_digits_prefix(digits: Seq<char>, k: int)
    requires
        0 <= k <= digits.len(),
        digits_value(digits) is Some,
    ensures
        digits_value(digits.take(k)) is Some,
        digits_value(digits.take(k))->0 <= digits_value(digits)->0,
    decreases digits.len(),
{
    if k < digits.len() {
        lemma_digits_prefix(digits.drop_last(), k);
        assert(digits.drop_last().take(k) =~= digits.take(k));
    } else {
        assert(digits.take(k) =~= digits);
    }
}

/// Reads a text as a decimal number of 32 bits.
pub fn parse_u32(text: &str) -> (number: Option<u32>)
    ensures
        number == parse_u32_spec(text@),
{
    let length: usize = text.unicode_len();
    let start: usize = if length > 0 && text.get_char(0) == '+' {
        1
    } else {
        0
    };
    let ghost digits = text@.skip(start as int);
    proof {
        assert(text@.skip(0) =~= text@);
    }
    assert(digits == if text@.len() > 0 && text@[0] == '+' {
        text@.skip(1)
    } else {
        text@
    });
    if start == length {
        assert(digits.len() == 0);
        return None;
    }
    let mut value: u32 = 0;
    let mut i: usize = start;
    assert(digits.take(0) =~= Seq::<char>::empty());
    while i < length
        invariant
            start <= i <= length,
            length == text@.len(),
            digits == text@.skip(start as int),
            digits.len() > 0,
            digits == if text@.len() > 0 && text@[0] == '+' {
                text@.skip(1)
            } else {
                text@
            },
            digits_value(digits.take(i - start)) == Some(value as nat),
        decreases length - i,
    {
        let c: char = text.get_char(i);
        let ghost upto = digits.take(i + 1 - start);
        proof {
            assert(upto.drop_last() =~= digits.take(i - start));
            assert(upto.last() == c);
        }
        if c < '0' || c > '9' {
            proof {
                assert(digit_value(c) is None);
                assert(digits_value(upto) is None);
                if digits_value(digits) is Some {
                    lemma_digits_prefix(digits, i + 1 - start);
                }
            }
            return None;
        }
        let digit: u32 = c as u32 - '0' as u32;
        if value > (u32::MAX - digit) / 10 {
            proof {
                assert(digits_value(upto) == Some(10 * (value as nat) + digit as nat));
                if digits_value(digits) is Some {
                    lemma_digits_prefix(digits, i + 1 - start);
                }
            }
            return None;
        }
        value = value * 10 + digit;
        i += 1;
    }
    assert(digits.take(length - start) =~= digits);
    Some(value)
}

/// Every pattern is accepted as a rule.
pub open spec fn all_valid(patterns: Seq<Seq<char>>) -> bool {
    forall|i: int| 0 <= i < patterns.len() ==> pattern_language(#[trigger] patterns[i]) is Some
}

/// The pattern at position `i` is the first that is not accepted.
pub open spec fn is_first_invalid(patterns: Seq<Seq<char>>, i: int) -> bool {
    &&& 0 <= i < patterns.len()
    &&& pattern_language(patterns[i]) is None
    &&& forall|j: int| 0 <= j < i ==> pattern_language(#[trigger] patterns[j]) is Some
}

/// `rules` are the patterns compiled, one for one and in order.
pub open spec fn compiled_from(patterns: Seq<Seq<char>>, rules: Seq<Regex>) -> bool {
    &&& rules.len() == patterns.len()
    &&& forall|i: int|
        0 <= i < patterns.len() ==> pattern_language(#[trigger] patterns[i]) == Some(
            regex_language(rules[i]),
        )
}

/// The parallelism of a run: the number given, or the number of processors
/// where none was given; nothing where that is no positive number of 32
/// bits.
pub open spec fn wanted_parallelism(given: Option<Seq<char>>, cpu_count: usize) -> Option<u32> {
    let number = match given {
        Some(text) => parse_u32_spec(text),
        None => if cpu_count <= u32::MAX {
            Some(cpu_count as u32)
        } else {
            None
        },
    };
    match number {
        Some(n) => if n > 0 {
            Some(n)
        } else {
            None
        },
        None => None,
    }
}

/// The text of an optional string.
pub open spec fn optional_text(given: Option<String>) -> Option<Seq<char>> {
    match given {
        Some(text) => Some(text@),
        None => None,
    }
}

/// `result` is what the given texts configure on a machine with `cpu_count`
/// processors. It is a configuration if and only if the parallelism is a
/// positive number and every pattern is accepted; the configuration then
/// holds the texts, the parallelism and the rules compiled from the
/// patterns. Otherwise it is the first of these errors: the parallelism,
/// the first exclude pattern that is refused, the first include pattern that
/// is refused.
pub open spec fn configured(
    arguments: Arguments,
    cpu_count: usize,
    result: Result<Config, ConfigError>,
) -> bool {
    let wanted = wanted_parallelism(optional_text(arguments.parallelism), cpu_count);
    let exclude = texts(arguments.exclude@);
    let include_only = texts(arguments.include_only@);
    &&& result is Ok <==> wanted is Some && all_valid(exclude) && all_valid(include_only)
    &&& match result {
        Ok(config) => {
            &&& config.package@ == arguments.package@
            &&& config.repository@ == arguments.repository@
            &&& config.repository_name@ == arguments.repository_name@
            &&& config.architecture@ == arguments.architecture@
            &&& config.output_folder@ == arguments.output@
            &&& config.parallelism > 0
            &&& wanted == Some(config.parallelism)
            &&& compiled_from(exclude, config.exclude@)
            &&& compiled_from(include_only, config.include_only@)
        },
        Err(ConfigError::InvalidParallelism(given)) => {
            &&& wanted is None
            &&& optional_text(given) == optional_text(arguments.parallelism)
        },
        Err(ConfigError::InvalidPattern(pattern)) => {
            &&& wanted is Some
            &&& if all_valid(exclude) {
                exists|i: int|
                    is_first_invalid(include_only, i) && pattern@ == #[trigger] include_only[i]
            } else {
                exists|i: int| is_first_invalid(exclude, i) && pattern@ == #[trigger] exclude[i]
            }
        },
        Err(_) => false,
    }
}

/// Compiles patterns into rules, in order. The first pattern that is not
/// accepted ends the work and is returned in the error.
pub fn compile_rules(patterns: &Vec<String>) -> (result: Result<Vec<Regex>, ConfigError>)
    ensures
        result is Ok <==> all_valid(texts(patterns@)),
        match result {
            Ok(rules) => compiled_from(texts(patterns@), rules@),
            Err(ConfigError::InvalidPattern(pattern)) => exists|i: int|
                is_first_invalid(texts(patterns@), i) && pattern@ == #[trigger] texts(
                    patterns@,
                )[i],
            Err(_) => false,
        },
{
    let ghost given = texts(patterns@);
    let mut rules: Vec<Regex> = Vec::new();
    let mut i: usize = 0;
    while i < patterns.len()
        invariant
            i <= patterns.len(),
            given == texts(patterns@),
            rules.len() == i,
            forall|k: int|
                0 <= k < i ==> pattern_language(#[trigger] given[k]) == Some(
                    regex_language(rules@[k]),
                ),
        decreases patterns.len() - i,
    {
        assert(given[i as int] == patterns@[i as int]@);
        match Regex::new(patterns[i].as_str()) {
            Ok(rule) => {
                rules.push(rule);
            },
            Err(_) => {
                assert(is_first_invalid(given, i as int));
                return Err(ConfigError::InvalidPattern(patterns[i].clone()));
            },
        }
        i += 1;
    }
    Ok(rules)
}

impl Config {
    /// The URL of the repository for the configured architecture.
    pub fn repository_url(&self) -> (url: String)
        ensures
            url@ == self.repository@ + seq!['/'] + self.architecture@,
    {
        proof {
            reveal_strlit("/");
            assert("/"@ =~= seq!['/']);
        }
        self.repository.clone().concat("/").concat(self.architecture.as_str())
    }

    /// Makes the configuration that the given texts ask for, on a machine
    /// with `cpu_count` processors. The parallelism is checked first, then
    /// the exclude patterns, then the include patterns.
    pub fn from_arguments(arguments: Arguments, cpu_count: usize) -> (result: Result<
        Config,
        ConfigError,
    >)
        ensures
            configured(arguments, cpu_count, result),
    {
        let number: Option<u32> = match &arguments.parallelism {
            Some(text) => parse_u32(text.as_str()),
            None => if cpu_count <= u32::MAX as usize {
                Some(cpu_count as u32)
            } else {
                None
            },
        };
        let parallelism: u32 = match number {
            Some(n) => {
                if n == 0 {
                    return Err(ConfigError::InvalidParallelism(arguments.parallelism));
                }
                n
            },
            None => {
                return Err(ConfigError::InvalidParallelism(arguments.parallelism));
            },
        };
        let exclude = match compile_rules(&arguments.exclude) {
            Ok(rules) => rules,
            Err(error) => {
                return Err(error);
            },
        };
        let include_only = match compile_rules(&arguments.include_only) {
            Ok(rules) => rules,
            Err(error) => {
                return Err(error);
            },
        };
        Ok(
            Config {
                package: arguments.package,
                repository: arguments.repository,
                repository_name: arguments.repository_name,
                architecture: arguments.architecture,
                parallelism,
                exclude,
                include_only,
                output_folder: arguments.output,
            },
        )
    }
}

} // verus!
