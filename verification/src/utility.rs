use vstd::prelude::*;

verus! {

/// What `hash` computes: the SHA-256 digest of a text, in lower-case hexadecimal digits.
pub uninterp spec fn hash_of(input: Seq<char>) -> Seq<char>;

/// What `pattern_matches` computes: whether a text has a match of a regular expression, or `None`
/// where the expression does not compile.
pub uninterp spec fn match_of(pattern: Seq<char>, multi_line: bool, text: Seq<char>) -> Option<
    bool,
>;

/// `dorsal::utility::uuid`: a fresh random UUID as text. Nothing is promised of it.
#[verifier::external_body]
pub(crate) fn uuid() -> (id: String) {
    dorsal::utility::uuid()
}

/// `dorsal::utility::hash`. The contract names the digest: it depends on the input alone.
#[verifier::external_body]
pub(crate) fn hash(input: String) -> (digest: String)
    ensures
        digest@ == hash_of(input@),
{
    dorsal::utility::hash(input)
}

/// `dorsal::utility::random_id`: the digest of a fresh random UUID. Nothing is promised of it.
#[verifier::external_body]
pub(crate) fn random_id() -> (id: String) {
    dorsal::utility::random_id()
}

/// `dorsal::utility::unix_epoch_timestamp`: the milliseconds since 1970 on the system's
/// clock. Nothing is promised of it. It stops the program where the clock stands before 1970.
#[verifier::external_body]
pub(crate) fn unix_epoch_timestamp() -> (now: u128) {
    dorsal::utility::unix_epoch_timestamp()
}

/// `regex::RegexBuilder::new`, `multi_line` and `build`, then `Regex::captures` on the
/// text. The contract names the result.
#[verifier::external_body]
pub(crate) fn pattern_matches(pattern: &str, multi_line: bool, text: &str) -> (found: Option<bool>)
    ensures
        found == match_of(pattern@, multi_line, text@),
{
    match regex::RegexBuilder::new(pattern).multi_line(multi_line).build() {
        Ok(regex) => Some(regex.captures(text).is_some()),
        Err(_) => None,
    }
}

/// What `trim` gives: a text without the white space at its two ends.
pub uninterp spec fn trimmed_of(text: Seq<char>) -> Seq<char>;

/// `str::trim`. The contract names the result: it depends on the text alone.
#[verifier::external_body]
pub(crate) fn trim(text: &str) -> (out: String)
    ensures
        out@ == trimmed_of(text@),
{
    text.trim().to_string()
}

} // verus!
