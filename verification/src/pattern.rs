//! Regular expressions, compiled and matched by the `regex` crate.

use vstd::prelude::*;

verus! {

/// `regex::Regex`, a compiled expression; nothing of its inside is known.
#[verifier::external_type_specification]
#[verifier::external_body]
pub struct ExRegex(regex::Regex);

/// Whether the regular expression `source`, compiled with or without case
/// folding, matches somewhere in `text`, as `regex::Regex::is_match` finds it.
pub uninterp spec fn regex_matches(source: Seq<char>, case_insensitive: bool, text: Seq<char>) -> bool;

/// Whether `regex::RegexBuilder` refuses the expression `source`, with or
/// without case folding, as one that it cannot read: it fails with
/// `regex::Error::Syntax`. That is the verdict of the crate's parser on the
/// text. Whether an expression that it can read also compiles is given no
/// name: the compiled form is held against a size limit in bytes, and its
/// size is not the same on every machine.
pub uninterp spec fn regex_is_malformed(source: Seq<char>, case_insensitive: bool) -> bool;

/// Why an expression did not compile. Both texts are the compiler's
/// message.
#[derive(Debug)]
pub enum CompileError {
    /// The compiler cannot read the expression.
    Malformed(String),
    /// The compiler can read the expression and does not build it: its
    /// compiled form is over the size limit.
    TooLarge(String),
}

impl CompileError {
    /// The compiler's message.
    pub fn message(&self) -> (text: &String)
        ensures
            *text == match *self {
                CompileError::Malformed(m) => m,
                CompileError::TooLarge(m) => m,
            },
    {
        match self {
            CompileError::Malformed(m) => m,
            CompileError::TooLarge(m) => m,
        }
    }
}

/// A compiled regular expression together with the text it was compiled from.
///
/// The only place that puts a value together is the call of the compiler,
/// `build_regex`, so the compiled form always belongs to `source` and
/// `case_insensitive`.
#[derive(Debug)]
pub struct Pattern {
    source: String,
    case_insensitive: bool,
    compiled: regex::Regex,
}

/// `regex::RegexBuilder::new(source).case_insensitive(..).build()`: the
/// compiled expression, kept together with the text and the flag that it was
/// built from, or the crate's error, told apart by its variant and carried
/// as its `Display` text. The expressions that fail with `Error::Syntax`
/// are the malformed ones. Nothing is claimed of which of the others
/// compile.
#[verifier::external_body]
fn build_regex(source: &str, case_insensitive: bool) -> (r: Result<Pattern, CompileError>)
    ensures
        r matches Ok(p) ==> p.source() == source@ && p.folds_case() == case_insensitive,
        regex_is_malformed(source@, case_insensitive) <==> (r is Err && r->Err_0 is Malformed),
{
    match regex::RegexBuilder::new(source).case_insensitive(case_insensitive).build() {
        Ok(compiled) => Ok(Pattern { source: source.to_string(), case_insensitive, compiled }),
        Err(regex::Error::Syntax(text)) => Err(CompileError::Malformed(text)),
        Err(other) => Err(CompileError::TooLarge(other.to_string())),
    }
}

impl Pattern {
    /// The text of the expression.
    pub closed spec fn source(&self) -> Seq<char> {
        self.source@
    }

    /// Whether the expression folds case.
    pub closed spec fn folds_case(&self) -> bool {
        self.case_insensitive
    }

    /// What the pattern says of `text`.
    pub open spec fn matches(&self, text: Seq<char>) -> bool {
        regex_matches(self.source(), self.folds_case(), text)
    }

    /// Compiles `source`. A malformed expression fails as such, and only a
    /// malformed one does; one that the compiler can read may still fail as
    /// too large.
    pub fn compile(source: &str, case_insensitive: bool) -> (r: Result<Pattern, CompileError>)
        ensures
            r matches Ok(p) ==> p.source() == source@ && p.folds_case() == case_insensitive,
            regex_is_malformed(source@, case_insensitive) <==> (r is Err && r->Err_0
                is Malformed),
    {
        build_regex(source, case_insensitive)
    }

    /// `regex::Regex::is_match` on the compiled expression: whether it matches
    /// anywhere in `text`.
    #[verifier::external_body]
    pub(crate) fn test(&self, text: &str) -> (r: bool)
        ensures
            r == regex_matches(self.source(), self.folds_case(), text@),
    {
        self.compiled.is_match(text)
    }

    /// Whether the pattern matches somewhere in `text`.
    pub fn is_match(&self, text: &str) -> (r: bool)
        ensures
            r == self.matches(text@),
    {
        self.test(text)
    }

    /// The expression's text.
    pub fn as_text(&self) -> (s: String)
        ensures
            s@ == self.source(),
    {
        self.source.clone()
    }
}

} // verus!
