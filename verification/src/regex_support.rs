//! Compiled regular-expression matchers.
//!
//! The regular-expression engine itself is outside code; this module confines
//! it behind a compiled handle whose construction records the pattern and the
//! case flag, so that contracts elsewhere can speak of the match outcome as a
//! function of those plain values.

use vstd::prelude::*;

verus! {

#[verifier::external_type_specification]
#[verifier::external_body]
pub struct ExRegex(regex::bytes::Regex);

/// What compiling a pattern yields: `None` when the pattern compiles, or the
/// engine's diagnostic text when it does not. The outcome depends on the
/// pattern bytes and the case flag alone.
pub uninterp spec fn regex_compile_result(pattern: Seq<u8>, case_insensitive: bool) -> Option<
    Seq<char>,
>;

/// Whether the compiled form of `pattern` matches `key`. The outcome depends
/// on the pattern bytes, the case flag, and the key bytes alone.
pub uninterp spec fn regex_match(pattern: Seq<u8>, case_insensitive: bool, key: Seq<u8>) -> bool;

/// Mathematical content of a compiled matcher: the pattern it was built from
/// and whether it matches case-insensitively.
pub struct RegexView {
    pub pattern: Seq<u8>,
    pub case_insensitive: bool,
}

/// A pattern compiled once at configuration time and reused for every request.
///
/// The fields are private: a value can only come out of [`compile_regex`],
/// which guarantees that the stored pattern and flag are the ones the engine
/// compiled.
#[derive(Debug)]
pub struct CompiledRegex {
    regex: regex::bytes::Regex,
    pattern: Vec<u8>,
    case_insensitive: bool,
}

impl View for CompiledRegex {
    type V = RegexView;

    closed spec fn view(&self) -> RegexView {
        RegexView { pattern: self.pattern@, case_insensitive: self.case_insensitive }
    }
}

/// Relies on `regex::bytes::RegexBuilder::build`: whether a pattern compiles,
/// and the diagnostic on failure, are functions of the pattern bytes and the
/// case flag; a pattern that is not UTF-8 is likewise rejected with a
/// diagnostic determined by its bytes.
#[verifier::external_body]
pub(crate) fn compile_regex(pattern: &[u8], case_insensitive: bool) -> (r: Result<
    CompiledRegex,
    String,
>)
    ensures
        (r is Ok) == (regex_compile_result(pattern@, case_insensitive) is None),
        r is Ok ==> r->Ok_0@ == (RegexView { pattern: pattern@, case_insensitive }),
        r is Err ==> Some(r->Err_0@) == regex_compile_result(pattern@, case_insensitive),
{
    let text = match core::str::from_utf8(pattern) {
        Ok(t) => t,
        Err(e) => return Err(format!("{}", e)),
    };
    match regex::bytes::RegexBuilder::new(text).case_insensitive(case_insensitive).build() {
        Ok(re) => Ok(CompiledRegex {
            regex: re,
            pattern: pattern.to_vec(),
            case_insensitive,
        }),
        Err(e) => Err(format!("{}", e)),
    }
}

impl CompiledRegex {
    /// Relies on `regex::bytes::Regex::is_match`: the match outcome is a
    /// function of the compiled pattern, its case flag, and the haystack.
    #[verifier::external_body]
    pub(crate) fn is_match(&self, key: &[u8]) -> (r: bool)
        ensures
            r == regex_match(self@.pattern, self@.case_insensitive, key@),
    {
        self.regex.is_match(key)
    }
}

} // verus!
