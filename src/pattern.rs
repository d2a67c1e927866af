use vstd::prelude::*;

verus! {

#[verifier::external_type_specification]
#[verifier::external_body]
pub struct ExRegex(regex::Regex);

#[verifier::external_type_specification]
#[verifier::external_body]
pub struct ExRegexError(regex::Error);

/// Whether `pattern` is a regular expression that the regex engine accepts.
pub uninterp spec fn regex_valid(pattern: Seq<char>) -> bool;

/// Whether the regular expression `pattern` matches somewhere in `text`.
pub uninterp spec fn regex_match(pattern: Seq<char>, text: Seq<char>) -> bool;

/// `template` with the capture references (`$1`, `${1}`, `$name`, `${name}`, `$$`)
/// of the leftmost-first match of `pattern` in `text` substituted.
pub uninterp spec fn regex_expand(pattern: Seq<char>, text: Seq<char>, template: Seq<char>) -> Seq<char>;

/// Relies on `regex::Regex::new`: it compiles `s`, or fails where `s` is not a
/// valid regular expression.
#[verifier::external_body]
fn compile_regex(s: &str) -> (r: Result<regex::Regex, regex::Error>)
    ensures
        r.is_ok() == regex_valid(s@),
{
    regex::Regex::new(s)
}

/// Why a pattern was refused.
#[derive(Debug, Clone, Copy, PartialEq, Eq, Structural)]
pub enum PatternError {
    /// The text is not a valid regular expression.
    Invalid,
}

/// Maps the engine's error to the library's own.
fn pattern_error(_e: regex::Error) -> (r: PatternError)
    ensures
        r == PatternError::Invalid,
{
    PatternError::Invalid
}

/// A compiled regular expression together with the text it was compiled from.
/// The two are set together by `Pattern::new` and never apart.
pub struct Pattern {
    source: String,
    regex: regex::Regex,
}

impl View for Pattern {
    type V = Seq<char>;

    closed spec fn view(&self) -> Seq<char> {
        self.source@
    }
}

impl Pattern {
    /// Compiles `s`. Fails exactly where `s` is not a valid regular expression.
    pub fn new(s: &str) -> (r: Result<Pattern, PatternError>)
        ensures
            r.is_ok() == regex_valid(s@),
            r.is_ok() ==> r.unwrap()@ == s@,
            r.is_err() ==> r == Err::<Pattern, PatternError>(PatternError::Invalid),
    {
        match compile_regex(s) {
            Ok(regex) => Ok(Pattern { source: s.to_owned(), regex }),
            Err(e) => Err(pattern_error(e)),
        }
    }

    /// The text the pattern was compiled from.
    pub fn as_str(&self) -> (r: &str)
        ensures
            r@ == self@,
    {
        self.source.as_str()
    }

    /// Relies on `regex::Regex::is_match`: whether the compiled expression
    /// matches somewhere in `text`.
    #[verifier::external_body]
    pub(crate) fn is_match(&self, text: &str) -> (r: bool)
        ensures
            r == regex_match(self@, text@),
    {
        self.regex.is_match(text)
    }

    /// Relies on `regex::Regex::captures` and `regex::Captures::expand`: the
    /// template with the groups of the first match in `text` substituted.
    #[verifier::external_body]
    pub(crate) fn expand(&self, text: &str, template: &str) -> (r: String)
        requires
            regex_match(self@, text@),
        ensures
            r@ == regex_expand(self@, text@, template@),
    {
        let mut buf = String::new();
        if let Some(caps) = self.regex.captures(text) {
            caps.expand(template, &mut buf);
        }
        buf
    }
}

} // verus!
