//! Path patterns: globs compiled by `globset`, and the regular expressions that `regex-lite` makes
//! of them for rewrites and redirects.

use vstd::prelude::*;

use crate::text::{chars_of, replace_text, replaced, trim_start_text, without_leading};

verus! {

/// Declares the compiled glob of `globset`.
#[verifier::external_type_specification]
#[verifier::external_body]
pub struct ExGlobMatcher(globset::GlobMatcher);

/// Declares the error of `globset` for text that is no glob.
#[verifier::external_type_specification]
#[verifier::external_body]
pub struct ExGlobError(globset::Error);

/// Declares the compiled regular expression of `regex-lite`.
#[verifier::external_type_specification]
#[verifier::external_body]
pub struct ExRegex(regex_lite::Regex);

/// Declares the error of `regex-lite` for text that is no regular expression.
#[verifier::external_type_specification]
#[verifier::external_body]
pub struct ExRegexError(regex_lite::Error);

/// The longest pattern that is compiled, in characters.
pub const MAX_PATTERN_LEN: usize = 32768;

/// The deepest nesting of alternations in a pattern that is compiled. In the regular expression each
/// alternation nests a group, a choice and a sequence, and no more than 250 levels are accepted there.
pub const MAX_DEPTH: usize = 80;

/// Where in a pattern a reader stands.
#[derive(Clone, Copy, Debug, PartialEq, Eq, Structural)]
pub enum Reading {
    /// Outside of escapes and classes.
    Plain,
    /// Behind a backslash that escapes.
    Escaped,
    /// Behind the bracket that opens a class.
    ClassStart,
    /// Before the first character of a class, behind a negation.
    ClassFirst,
    /// Inside a class.
    Class,
}

/// How deep alternations are nested in what has been read of a pattern.
#[verifier::ext_equal]
pub struct Nesting {
    /// Open alternations.
    pub depth: nat,
    /// The most that were open at a time.
    pub deepest: nat,
    /// Where the reader stands.
    pub reading: Reading,
}

/// Where the reader stands behind `c`; a backslash escapes where `escapes` is true.
pub open spec fn read_on(reading: Reading, c: char, escapes: bool) -> Reading {
    match reading {
        Reading::Plain => if c == '\\' && escapes {
            Reading::Escaped
        } else if c == '[' {
            Reading::ClassStart
        } else {
            Reading::Plain
        },
        Reading::Escaped => Reading::Plain,
        Reading::ClassStart => if c == '!' || c == '^' {
            Reading::ClassFirst
        } else {
            Reading::Class
        },
        Reading::ClassFirst => Reading::Class,
        Reading::Class => if c == ']' {
            Reading::Plain
        } else {
            Reading::Class
        },
    }
}

/// The nesting behind `c`.
pub open spec fn nested(n: Nesting, c: char, escapes: bool) -> Nesting {
    let depth: nat = if n.reading is Plain && c == '{' {
        n.depth + 1
    } else if n.reading is Plain && c == '}' && n.depth > 0 {
        (n.depth - 1) as nat
    } else {
        n.depth
    };
    Nesting {
        depth,
        deepest: if depth > n.deepest {
            depth
        } else {
            n.deepest
        },
        reading: read_on(n.reading, c, escapes),
    }
}

/// How deep alternations are nested in a pattern.
pub open spec fn nesting(pattern: Seq<char>, escapes: bool) -> Nesting
    decreases pattern.len(),
{
    if pattern.len() == 0 {
        Nesting { depth: 0, deepest: 0, reading: Reading::Plain }
    } else {
        nested(nesting(pattern.drop_last(), escapes), pattern.last(), escapes)
    }
}

/// `pattern` stays within the size and nesting that the regular expression behind a compiled glob
/// may have, whether or not a backslash escapes on the target that the crate is built for.
pub open spec fn fits(pattern: Seq<char>) -> bool {
    &&& pattern.len() <= MAX_PATTERN_LEN
    &&& nesting(pattern, true).deepest <= MAX_DEPTH
    &&& nesting(pattern, false).deepest <= MAX_DEPTH
}

/// Measures how deep alternations are nested in a pattern.
fn deepest_nesting(pattern: &Vec<char>, escapes: bool) -> (r: usize)
    ensures
        r == nesting(pattern@, escapes).deepest,
{
    let mut depth: usize = 0;
    let mut deepest: usize = 0;
    let mut reading = Reading::Plain;
    let mut i: usize = 0;
    assert(pattern@.take(0) =~= Seq::empty());
    while i < pattern.len()
        invariant
            i <= pattern.len(),
            depth <= i,
            deepest <= i,
            nesting(pattern@.take(i as int), escapes) == (Nesting {
                depth: depth as nat,
                deepest: deepest as nat,
                reading,
            }),
        decreases pattern.len() - i,
    {
        let c = pattern[i];
        assert(pattern@.take(i + 1).drop_last() =~= pattern@.take(i as int));
        match reading {
            Reading::Plain => {
                if c == '{' {
                    depth += 1;
                    if depth > deepest {
                        deepest = depth;
                    }
                } else if c == '}' && depth > 0 {
                    depth -= 1;
                } else if c == '[' {
                    reading = Reading::ClassStart;
                } else if c == '\\' && escapes {
                    reading = Reading::Escaped;
                }
            },
            Reading::Escaped => {
                reading = Reading::Plain;
            },
            Reading::ClassStart => {
                reading = if c == '!' || c == '^' {
                    Reading::ClassFirst
                } else {
                    Reading::Class
                };
            },
            Reading::ClassFirst => {
                reading = Reading::Class;
            },
            Reading::Class => {
                if c == ']' {
                    reading = Reading::Plain;
                }
            },
        }
        i += 1;
    }
    assert(pattern@.take(i as int) =~= pattern@);
    deepest
}

/// Whether `pattern` is small enough to be compiled.
pub fn glob_fits(pattern: &str) -> (r: bool)
    ensures
        r == fits(pattern@),
{
    let chars = chars_of(pattern);
    chars.len() <= MAX_PATTERN_LEN && deepest_nesting(&chars, true) <= MAX_DEPTH
        && deepest_nesting(&chars, false) <= MAX_DEPTH
}

/// The paths that a compiled glob matches.
pub uninterp spec fn matched_paths(matcher: globset::GlobMatcher) -> Set<Seq<char>>;

/// The paths that `globset::Glob::new` and `Glob::compile_matcher` make `pattern` stand for, or
/// nothing where the pattern is rejected. Which characters separate the parts of a path is fixed by
/// the target that the crate is built for.
pub uninterp spec fn glob_paths(pattern: Seq<char>) -> Option<Set<Seq<char>>>;

/// The regular expression, as text, that `globset` makes of `pattern` when `*` and `?` stop at a
/// slash, or nothing where the pattern is rejected.
pub uninterp spec fn glob_regex(pattern: Seq<char>) -> Option<Seq<char>>;

/// The text that a compiled regular expression was made of.
pub uninterp spec fn regex_text(regex: regex_lite::Regex) -> Seq<char>;

/// `regex_lite::Regex::new` accepts `pattern`.
pub uninterp spec fn regex_accepted(pattern: Seq<char>) -> bool;

/// `globset::Glob::new` and `Glob::compile_matcher`: the matcher for a glob, or the error of the
/// former. The latter panics where the regular expression of the glob grows too large or too deep;
/// patterns that [`fits`] accepts stay below both limits.
#[verifier::external_body]
pub(crate) fn compile_glob(pattern: &str) -> (r: Result<globset::GlobMatcher, globset::Error>)
    requires
        fits(pattern@),
    ensures
        match r {
            Ok(m) => glob_paths(pattern@) == Some(matched_paths(m)),
            Err(_) => glob_paths(pattern@) is None,
        },
{
    Ok(globset::Glob::new(pattern)?.compile_matcher())
}

/// `GlobMatcher::is_match`: whether the path is one of those that the glob stands for.
#[verifier::external_body]
pub(crate) fn glob_is_match(matcher: &globset::GlobMatcher, path: &str) -> (r: bool)
    ensures
        r == matched_paths(*matcher).contains(path@),
{
    matcher.is_match(path)
}

/// `GlobBuilder::build` with `literal_separator`, and `Glob::regex`: the regular expression that
/// stands for a glob, as text.
#[verifier::external_body]
pub(crate) fn build_glob_regex(pattern: &str) -> (r: Result<String, globset::Error>)
    requires
        fits(pattern@),
    ensures
        match r {
            Ok(s) => glob_regex(pattern@) == Some(s@),
            Err(_) => glob_regex(pattern@) is None,
        },
{
    Ok(globset::GlobBuilder::new(pattern).literal_separator(true).build()?.regex().to_owned())
}

/// `regex_lite::Regex::new`: the regular expression for a pattern that it accepts. Its `as_str`
/// gives back the pattern.
#[verifier::external_body]
pub(crate) fn compile_regex(pattern: &str) -> (r: Result<regex_lite::Regex, regex_lite::Error>)
    ensures
        match r {
            Ok(re) => regex_accepted(pattern@) && regex_text(re) == pattern@,
            Err(_) => !regex_accepted(pattern@),
        },
{
    regex_lite::Regex::new(pattern)
}

/// The regular expression with capturing groups that is used in place of `regex`: without the
/// flag in front of it, with `.*` and plain groups where it had groups that do not capture, and with
/// doubled `.*` made single.
pub open spec fn capturing(regex: Seq<char>) -> Seq<char> {
    replaced(
        replaced(
            replaced(without_leading(regex, "(?-u)"@), "?:.*"@, ".*"@),
            "?:"@,
            ""@,
        ),
        ".*.*"@,
        ".*"@,
    )
}

/// Makes the groups of a glob's regular expression capture what they match.
pub fn capturing_pattern(regex: &str) -> (r: String)
    ensures
        r@ == capturing(regex@),
{
    proof {
        reveal_strlit("(?-u)");
        reveal_strlit("?:.*");
        reveal_strlit("?:");
        reveal_strlit(".*.*");
    }
    let plain = trim_start_text(regex, "(?-u)");
    let first = replace_text(&plain, "?:.*", ".*");
    let second = replace_text(&first, "?:", "");
    replace_text(&second, ".*.*", ".*")
}

} // verus!
