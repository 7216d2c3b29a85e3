use windows_toolchain_builder::config::cli::args;
use windows_toolchain_builder::config::cli::config;
use windows_toolchain_builder::config::cli::read_arguments;
use windows_toolchain_builder::config::cli::validate_architecture;
use windows_toolchain_builder::config::compile_rules;
use windows_toolchain_builder::config::parse_u32;
use windows_toolchain_builder::config::Arguments;
use windows_toolchain_builder::config::Config;
use windows_toolchain_builder::config::ConfigError;
use windows_toolchain_builder::config::IntoConfig;

fn command_line(words: &[&str]) -> Vec<String> {
    let mut line = vec!["windows-toolchain-builder".to_string()];
    line.extend(words.iter().map(|w| w.to_string()));
    line
}

fn arguments() -> Arguments {
    Arguments {
        package: "gtk3".to_string(),
        repository: "http://repo.msys2.org/mingw".to_string(),
        repository_name: "mingw64".to_string(),
        architecture: "x86_64".to_string(),
        parallelism: Some("3".to_string()),
        exclude: vec!["^exclude/".to_string()],
        include_only: vec![],
        output: "./out".to_string(),
    }
}

#[test]
fn parse_u32_reads_decimal_numbers() {
    assert_eq!(parse_u32("0"), Some(0));
    assert_eq!(parse_u32("7"), Some(7));
    assert_eq!(parse_u32("007"), Some(7));
    assert_eq!(parse_u32("+12"), Some(12));
    assert_eq!(parse_u32("4294967295"), Some(4294967295));
    assert_eq!(parse_u32("0000000004294967295"), Some(4294967295));
}

#[test]
fn parse_u32_refuses_what_is_no_number_of_32_bits() {
    assert_eq!(parse_u32(""), None);
    assert_eq!(parse_u32("+"), None);
    assert_eq!(parse_u32("-1"), None);
    assert_eq!(parse_u32("++1"), None);
    assert_eq!(parse_u32("1+"), None);
    assert_eq!(parse_u32(" 1"), None);
    assert_eq!(parse_u32("1 "), None);
    assert_eq!(parse_u32("12a"), None);
    assert_eq!(parse_u32("0x10"), None);
    assert_eq!(parse_u32("\u{663}"), None);
    assert_eq!(parse_u32("4294967296"), None);
    assert_eq!(parse_u32("42949672950"), None);
    assert_eq!(parse_u32("99999999999999999999999"), None);
}

#[test]
fn parse_u32_agrees_with_the_standard_library() {
    for text in ["", "+", "-", "0", "+0", "-0", "10", "4294967295", "4294967296", "1_000", "٣"] {
        assert_eq!(parse_u32(text), text.parse::<u32>().ok(), "{:?}", text);
    }
}

#[test]
fn compile_rules_keeps_the_order_of_the_patterns() {
    let patterns = vec!["^a".to_string(), "b$".to_string()];
    let rules = compile_rules(&patterns).unwrap();
    assert_eq!(rules.len(), 2);
    assert_eq!(rules[0].as_str(), "^a");
    assert_eq!(rules[1].as_str(), "b$");
    assert!(rules[0].is_match("ab"));
    assert!(!rules[0].is_match("ba"));
    assert!(rules[1].is_match("ab"));
    assert!(compile_rules(&Vec::new()).unwrap().is_empty());
}

#[test]
fn compile_rules_names_the_first_pattern_that_is_refused() {
    let patterns = vec!["ok".to_string(), "(".to_string(), "[".to_string()];
    assert_eq!(
        compile_rules(&patterns).err(),
        Some(ConfigError::InvalidPattern("(".to_string()))
    );
}

#[test]
fn configuration_is_made_of_the_arguments() {
    let made = Config::from_arguments(arguments(), 8).unwrap();
    assert_eq!(made.package, "gtk3");
    assert_eq!(made.repository, "http://repo.msys2.org/mingw");
    assert_eq!(made.repository_name, "mingw64");
    assert_eq!(made.architecture, "x86_64");
    assert_eq!(made.parallelism, 3);
    assert_eq!(made.output_folder, "./out");
    assert_eq!(made.exclude.len(), 1);
    assert_eq!(made.exclude[0].as_str(), "^exclude/");
    assert!(made.include_only.is_empty());
}

#[test]
fn parallelism_defaults_to_the_number_of_processors() {
    let mut given = arguments();
    given.parallelism = None;
    assert_eq!(Config::from_arguments(given, 6).unwrap().parallelism, 6);
}

#[test]
fn parallelism_must_be_a_positive_number() {
    for text in ["0", "", "many", "-2", "4294967296"] {
        let mut given = arguments();
        given.parallelism = Some(text.to_string());
        assert_eq!(
            Config::from_arguments(given, 4).err(),
            Some(ConfigError::InvalidParallelism(Some(text.to_string())))
        );
    }
    let mut given = arguments();
    given.parallelism = None;
    assert_eq!(
        Config::from_arguments(given, 0).err(),
        Some(ConfigError::InvalidParallelism(None))
    );
}

#[test]
fn parallelism_is_checked_before_the_patterns_and_exclude_before_include() {
    let mut given = arguments();
    given.parallelism = Some("0".to_string());
    given.exclude = vec!["(".to_string()];
    assert_eq!(
        Config::from_arguments(given, 4).err(),
        Some(ConfigError::InvalidParallelism(Some("0".to_string())))
    );
    let mut given = arguments();
    given.exclude = vec!["fine".to_string(), "(".to_string()];
    given.include_only = vec!["[".to_string()];
    assert_eq!(
        Config::from_arguments(given, 4).err(),
        Some(ConfigError::InvalidPattern("(".to_string()))
    );
    let mut given = arguments();
    given.include_only = vec!["[".to_string()];
    assert_eq!(
        Config::from_arguments(given, 4).err(),
        Some(ConfigError::InvalidPattern("[".to_string()))
    );
}

#[test]
fn repository_url_joins_repository_and_architecture() {
    let made = Config::from_arguments(arguments(), 1).unwrap();
    assert_eq!(made.repository_url(), "http://repo.msys2.org/mingw/x86_64");
    let mut given = arguments();
    given.repository = "".to_string();
    given.architecture = "i686".to_string();
    assert_eq!(Config::from_arguments(given, 1).unwrap().repository_url(), "/i686");
}

#[test]
fn architecture_is_validated() {
    assert_eq!(validate_architecture("x86_64".to_string()), Ok(()));
    assert_eq!(validate_architecture("i686".to_string()), Ok(()));
    assert_eq!(
        validate_architecture("arm".to_string()),
        Err("Unknown architecture: \"arm\"".to_string())
    );
    assert_eq!(
        validate_architecture("".to_string()),
        Err("Unknown architecture: \"\"".to_string())
    );
}

#[test]
fn command_line_with_package_only_takes_the_defaults() {
    let matches = args(command_line(&["gtk3"])).unwrap();
    let read = read_arguments(&matches).unwrap();
    assert_eq!(
        read,
        Arguments {
            package: "gtk3".to_string(),
            repository: "http://repo.msys2.org/mingw".to_string(),
            repository_name: "mingw64".to_string(),
            architecture: "x86_64".to_string(),
            parallelism: None,
            exclude: vec![],
            include_only: vec![],
            output: "./".to_string(),
        }
    );
}

#[test]
fn command_line_options_are_read() {
    let matches = args(command_line(&[
        "gtk3", "-r", "http://mirror/mingw", "-n", "mingw32", "-a", "i686", "-p", "2", "-o",
        "out", "-e", "^share/", "-e", "\\.a$", "-i", "\\.dll$",
    ]))
    .unwrap();
    let read = read_arguments(&matches).unwrap();
    assert_eq!(read.package, "gtk3");
    assert_eq!(read.repository, "http://mirror/mingw");
    assert_eq!(read.repository_name, "mingw32");
    assert_eq!(read.architecture, "i686");
    assert_eq!(read.parallelism, Some("2".to_string()));
    assert_eq!(read.output, "out");
    assert_eq!(read.exclude, vec!["^share/", "\\.a$"]);
    assert_eq!(read.include_only, vec!["\\.dll$"]);
}

#[test]
fn long_options_are_read() {
    let matches = args(command_line(&[
        "--repository", "http://mirror", "--reponame", "msys", "--arch", "i686", "--output",
        "/tmp/x", "pkg",
    ]))
    .unwrap();
    let read = read_arguments(&matches).unwrap();
    assert_eq!(read.package, "pkg");
    assert_eq!(read.repository, "http://mirror");
    assert_eq!(read.repository_name, "msys");
    assert_eq!(read.architecture, "i686");
    assert_eq!(read.output, "/tmp/x");
}

#[test]
fn command_line_without_package_is_refused() {
    match args(command_line(&[])) {
        Err(ConfigError::CommandLine { use_stderr, message }) => {
            assert!(use_stderr);
            assert!(!message.is_empty());
        }
        other => panic!("{:?}", other.map(|_| ())),
    }
}

#[test]
fn unknown_architecture_is_refused_by_the_command_line() {
    match args(command_line(&["gtk3", "-a", "arm"])) {
        Err(ConfigError::CommandLine { use_stderr, message }) => {
            assert!(use_stderr);
            assert!(message.contains("Unknown architecture: \"arm\""));
        }
        other => panic!("{:?}", other.map(|_| ())),
    }
}

#[test]
fn unknown_option_is_refused() {
    assert!(matches!(
        args(command_line(&["gtk3", "--nothing"])),
        Err(ConfigError::CommandLine { use_stderr: true, .. })
    ));
}

#[test]
fn help_and_version_are_no_errors_of_the_user() {
    match args(command_line(&["--help"])) {
        Err(ConfigError::CommandLine { use_stderr, message }) => {
            assert!(!use_stderr);
            assert!(message.contains("windows-toolchain-builder"));
            assert!(message.contains("Exclude files or folders by regex"));
        }
        other => panic!("{:?}", other.map(|_| ())),
    }
    assert!(matches!(
        args(command_line(&["--version"])),
        Err(ConfigError::CommandLine { use_stderr: false, .. })
    ));
}

#[test]
fn to_config_makes_the_configuration_of_a_command_line() {
    let matches = args(command_line(&["gtk3", "-p", "5", "-e", "^exclude/"])).unwrap();
    let made = matches.to_config().unwrap();
    assert_eq!(made.package, "gtk3");
    assert_eq!(made.parallelism, 5);
    assert_eq!(made.exclude.len(), 1);
    assert!(made.exclude[0].is_match("exclude/bar.txt"));
    assert!(!made.exclude[0].is_match("include/foo.txt"));
    assert_eq!(made.repository_url(), "http://repo.msys2.org/mingw/x86_64");
}

#[test]
fn to_config_takes_the_processors_where_no_parallelism_is_given() {
    let matches = args(command_line(&["gtk3"])).unwrap();
    let made = matches.to_config().unwrap();
    assert!(made.parallelism >= 1);
}

#[test]
fn config_reads_and_makes_in_one() {
    let made = config(command_line(&["gtk3", "-p", "2", "-i", "a", "-i", "b"])).unwrap();
    assert_eq!(made.parallelism, 2);
    assert_eq!(made.include_only.len(), 2);
    assert_eq!(made.include_only[1].as_str(), "b");
    assert_eq!(
        config(command_line(&["gtk3", "-p", "0"])).err(),
        Some(ConfigError::InvalidParallelism(Some("0".to_string())))
    );
    assert_eq!(
        config(command_line(&["gtk3", "-e", "("])).err(),
        Some(ConfigError::InvalidPattern("(".to_string()))
    );
    assert!(matches!(
        config(command_line(&[])),
        Err(ConfigError::CommandLine { .. })
    ));
}

#[test]
fn to_config_names_the_first_argument_that_has_no_value() {
    let nothing = clap::ArgMatches::new();
    assert_eq!(
        nothing.to_config().err(),
        Some(ConfigError::MissingArgument("package".to_string()))
    );
    assert_eq!(
        read_arguments(&nothing).err(),
        Some(ConfigError::MissingArgument("package".to_string()))
    );
}
