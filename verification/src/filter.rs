//! Which archive entries are written to disk.
//!
//! An entry is written unless its path names a directory (it ends in `/`),
//! is hidden (it begins with `.`), matches an exclude rule, or, where there
//! are include rules, matches none of them. Exclusion is decided before
//! inclusion, so an exclude rule always wins.
use crate::package::texts;
use regex::Regex;
use vstd::prelude::*;

verus! {

#[verifier::external_type_specification]
#[verifier::external_body]
pub struct ExRegex(Regex);

/// The texts in which a compiled rule finds a match.
pub uninterp spec fn regex_language(rule: Regex) -> Set<Seq<char>>;

/// `Regex::is_match` says whether the rule finds a match anywhere in the
/// text: whether the text is in the rule's language.
pub assume_specification[ Regex::is_match ](rule: &Regex, haystack: &str) -> (found: bool)
    ensures
        found == regex_language(*rule).contains(haystack@),
;

#[verifier::external_type_specification]
#[verifier::external_body]
pub struct ExRegexError(regex::Error);

/// What a pattern compiles to: the language of the rule it gives, or
/// nothing where the pattern is not accepted.
pub uninterp spec fn pattern_language(pattern: Seq<char>) -> Option<Set<Seq<char>>>;

/// `Regex::new` compiles a pattern. Whether it is accepted, and what the
/// rule matches, depends on the pattern alone.
pub assume_specification[ Regex::new ](re: &str) -> (compiled: Result<Regex, regex::Error>)
    ensures
        match compiled {
            Ok(rule) => pattern_language(re@) == Some(regex_language(rule)),
            Err(_) => pattern_language(re@) is None,
        },
;

/// The path names a directory: it ends in `/`.
pub open spec fn is_directory_path(path: Seq<char>) -> bool {
    path.len() > 0 && path.last() == '/'
}

/// The path is hidden: it begins with `.`.
pub open spec fn is_hidden_path(path: Seq<char>) -> bool {
    path.len() > 0 && path.first() == '.'
}

/// Some rule of `rules` finds a match in `path`.
pub open spec fn matches_any(rules: Seq<Regex>, path: Seq<char>) -> bool {
    exists|i: int| 0 <= i < rules.len() && regex_language(#[trigger] rules[i]).contains(path)
}

/// The policy on what was found out about a path: `unwritable` says that it
/// names a directory or is hidden, `excluded` that an exclude rule matches
/// it, `include_count` how many include rules there are, and `included` that
/// one of them matches it.
pub open spec fn verdict(unwritable: bool, excluded: bool, include_count: nat, included: bool) -> bool {
    !unwritable && !excluded && (include_count == 0 || included)
}

/// Whether the entry at `path` is written under the given rules.
pub open spec fn should_extract_spec(path: Seq<char>, exclude: Seq<Regex>, include_only: Seq<Regex>) -> bool {
    verdict(
        is_directory_path(path) || is_hidden_path(path),
        matches_any(exclude, path),
        include_only.len(),
        matches_any(include_only, path),
    )
}

/// Whether the path names a directory.
pub fn names_directory(path: &str) -> (directory: bool)
    ensures
        directory == is_directory_path(path@),
{
    let length: usize = path.unicode_len();
    length > 0 && path.get_char(length - 1) == '/'
}

/// Whether the path is hidden.
pub fn is_hidden(path: &str) -> (hidden: bool)
    ensures
        hidden == is_hidden_path(path@),
{
    let length: usize = path.unicode_len();
    length > 0 && path.get_char(0) == '.'
}

/// Whether some rule of `rules` finds a match in `path`.
pub fn matches_any_rule(rules: &Vec<Regex>, path: &str) -> (found: bool)
    ensures
        found == matches_any(rules@, path@),
{
    let mut i: usize = 0;
    while i < rules.len()
        invariant
            i <= rules.len(),
            forall|k: int| 0 <= k < i ==> !regex_language(#[trigger] rules@[k]).contains(path@),
        decreases rules.len() - i,
    {
        if rules[i].is_match(path) {
            return true;
        }
        i += 1;
    }
    false
}

/// Applies the policy to what was found out about a path.
pub fn filter_verdict(unwritable: bool, excluded: bool, include_count: usize, included: bool) -> (extract: bool)
    ensures
        extract == verdict(unwritable, excluded, include_count as nat, included),
{
    if unwritable {
        false
    } else if excluded {
        false
    } else {
        include_count == 0 || included
    }
}

/// Decides whether the entry at `path` is written. The rules are consulted
/// only as far as the decision needs them.
pub fn should_extract(path: &str, exclude: &Vec<Regex>, include_only: &Vec<Regex>) -> (extract: bool)
    ensures
        extract == should_extract_spec(path@, exclude@, include_only@),
        is_directory_path(path@) || is_hidden_path(path@) ==> !extract,
        matches_any(exclude@, path@) ==> !extract,
        include_only@.len() > 0 && !matches_any(include_only@, path@) ==> !extract,
{
    let unwritable = names_directory(path) || is_hidden(path);
    let excluded = !unwritable && matches_any_rule(exclude, path);
    let included = !unwritable && !excluded && include_only.len() > 0 && matches_any_rule(include_only, path);
    filter_verdict(unwritable, excluded, include_only.len(), included)
}

/// The entries of a listing that are written, in the order of the listing.
pub open spec fn selected(
    files: Seq<Seq<char>>,
    exclude: Seq<Regex>,
    include_only: Seq<Regex>,
) -> Seq<Seq<char>> {
    files.filter(|path: Seq<char>| should_extract_spec(path, exclude, include_only))
}

/// Chooses, from the entry paths that an archive lists, the ones to decode
/// and write: those that [`should_extract`] accepts, in the order listed.
pub fn select_entries(files: &Vec<String>, exclude: &Vec<Regex>, include_only: &Vec<Regex>) -> (chosen:
    Vec<String>)
    ensures
        texts(chosen@) == selected(texts(files@), exclude@, include_only@),
{
    let ghost listed = texts(files@);
    let ghost wanted = |path: Seq<char>| should_extract_spec(path, exclude@, include_only@);
    let mut chosen: Vec<String> = Vec::new();
    let mut i: usize = 0;
    proof {
        reveal(Seq::filter);
        assert(listed.take(0) =~= Seq::<Seq<char>>::empty());
        assert(texts(chosen@) =~= listed.take(0).filter(wanted));
    }
    while i < files.len()
        invariant
            i <= files.len(),
            listed == texts(files@),
            wanted == (|path: Seq<char>| should_extract_spec(path, exclude@, include_only@)),
            texts(chosen@) == listed.take(i as int).filter(wanted),
        decreases files.len() - i,
    {
        let ghost before = texts(chosen@);
        proof {
            reveal(Seq::filter);
            assert(listed.take(i + 1).drop_last() =~= listed.take(i as int));
            assert(listed.take(i + 1).last() == files@[i as int]@);
        }
        if should_extract(files[i].as_str(), exclude, include_only) {
            chosen.push(files[i].clone());
            assert(texts(chosen@) =~= before.push(files@[i as int]@));
        }
        i += 1;
    }
    assert(listed.take(files.len() as int) =~= listed);
    chosen
}

} // verus!
