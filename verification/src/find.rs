//! The file-tree search tool's decisions: which entry kinds are wanted
//! and whether an entry's name matches one of the user's patterns. The
//! walking itself is input/output and lives with the caller; pattern
//! matching is the regex crate's work, trusted at the call and nowhere
//! else.

use vstd::prelude::*;

verus! {

/// The entry kinds the user may ask for.
#[derive(Debug, Copy, Clone, PartialEq, Eq)]
pub enum FindType {
    Dir,
    File,
    Link,
}

#[verifier::external_type_specification]
#[verifier::external_body]
pub struct ExRegex(regex::Regex);

/// Whether `regex::Regex::new` accepts the pattern; its documentation
/// ties acceptance to the pattern alone (validity and the default size
/// limit).
pub uninterp spec fn pattern_ok(p: Seq<char>) -> bool;

/// Relies on regex::Regex::new: compiles a pattern, or fails, on the
/// pattern string alone.
#[verifier::external_body]
fn regex_new(pattern: &str) -> (r: Option<regex::Regex>)
    ensures
        r is Some <==> pattern_ok(pattern@),
{
    match regex::Regex::new(pattern) {
        Ok(re) => Some(re),
        Err(_) => None,
    }
}

/// Relies on regex::Regex::is_match: true when the haystack matches the
/// compiled pattern anywhere. Nothing is claimed of the result: the
/// pattern inside the compiled value is out of the contract's sight.
#[verifier::external_body]
fn regex_is_match(re: &regex::Regex, haystack: &str) -> bool {
    re.is_match(haystack)
}

/// Compiles `needle` and tests `haystack` against it. A pattern the regex
/// crate rejects matches nothing.
pub fn regex_do_match(haystack: &str, needle: &str) -> (r: bool)
    ensures
        !pattern_ok(needle@) ==> r == false,
{
    match regex_new(needle) {
        Some(re) => regex_is_match(&re, haystack),
        None => false,
    }
}

/// The kind test one wanted type makes of an entry.
pub open spec fn type_hits(ft: FindType, is_dir: bool, is_file: bool, is_link: bool) -> bool {
    match ft {
        FindType::Dir => is_dir,
        FindType::File => is_file,
        FindType::Link => is_link,
    }
}

/// An entry passes the kind filter when no kind was asked for, or some
/// asked-for kind fits it.
pub open spec fn type_selected(
    ftypes: Seq<FindType>,
    is_dir: bool,
    is_file: bool,
    is_link: bool,
) -> bool {
    ftypes.len() == 0 || exists|i: int|
        0 <= i < ftypes.len() && type_hits(#[trigger] ftypes[i], is_dir, is_file, is_link)
}

/// Decides the kind filter for one entry, told what the entry is.
pub fn matches_type(ftypes: &Vec<FindType>, is_dir: bool, is_file: bool, is_link: bool) -> (r:
    bool)
    ensures
        r == type_selected(ftypes@, is_dir, is_file, is_link),
{
    if ftypes.len() == 0 {
        return true;
    }
    let mut k: usize = 0;
    while k < ftypes.len()
        invariant
            0 <= k <= ftypes@.len(),
            forall|i: int| 0 <= i < k ==> !type_hits(#[trigger] ftypes@[i], is_dir, is_file, is_link),
        decreases ftypes@.len() - k,
    {
        let hit = match ftypes[k] {
            FindType::Dir => is_dir,
            FindType::File => is_file,
            FindType::Link => is_link,
        };
        if hit {
            return true;
        }
        k = k + 1;
    }
    false
}

/// Decides the name filter for one entry: no patterns at all lets every
/// name through, otherwise some compiled pattern must match it.
pub fn matches_name(names: &Vec<regex::Regex>, name: &str) -> (r: bool)
    ensures
        names@.len() == 0 ==> r,
{
    if names.len() == 0 {
        return true;
    }
    let mut k: usize = 0;
    while k < names.len()
        invariant
            0 <= k <= names@.len(),
        decreases names@.len() - k,
    {
        if regex_is_match(&names[k], name) {
            return true;
        }
        k = k + 1;
    }
    false
}

} // verus!
