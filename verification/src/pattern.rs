use vstd::prelude::*;

verus! {

/// A group of a match: the text before the group, then the group's own text.
pub type GroupView = (Seq<char>, Seq<char>);

/// What `regex::Regex::captures` reports for `pattern` on `text` (after
/// `regex::Regex::new(pattern)`; `None` also when the pattern does not compile).
pub uninterp spec fn spec_captures(pattern: Seq<char>, text: Seq<char>) -> Option<Seq<Option<GroupView>>>;

/// What `regex::Regex::captures_iter` reports for `pattern` on `text`: the
/// groups of each successive non-overlapping match (none when the pattern
/// does not compile).
pub uninterp spec fn spec_captures_all(pattern: Seq<char>, text: Seq<char>) -> Seq<Seq<Option<GroupView>>>;

/// The groups of one match lie in the text: for each group that took part,
/// the text before it followed by the group's text is a prefix of `text`;
/// group 0 (the whole match) always takes part.
pub open spec fn groups_in_text(text: Seq<char>, groups: Seq<Option<GroupView>>) -> bool {
    &&& groups.len() >= 1
    &&& groups[0] is Some
    &&& forall|i: int| 0 <= i < groups.len() && (#[trigger] groups[i]) is Some ==> {
        let (pre, m) = groups[i]->0;
        &&& pre.len() + m.len() <= text.len()
        &&& text.subrange(0, (pre.len() + m.len()) as int) == pre + m
    }
}

/// Compiles `pattern` with `regex::Regex::new` and runs `Regex::captures` on
/// `text`. The contract names the result and states only that every reported
/// group lies in `text` (group 0 being the whole, leftmost-first match); which
/// match the regex engine reports is not stated.
#[verifier::external_body]
pub(crate) fn captures(pattern: &str, text: &str) -> (r: Option<Vec<Option<(String, String)>>>)
    ensures
        r.deep_view() == spec_captures(pattern@, text@),
        r matches Some(g) ==> groups_in_text(text@, g.deep_view()),
{
    match regex::Regex::new(pattern) {
        Ok(re) => re.captures(text).map(|c| {
            c.iter().map(|g| g.map(|m| (text[..m.start()].to_string(), m.as_str().to_string()))).collect()
        }),
        Err(_) => None,
    }
}


/// Compiles `pattern` with `regex::Regex::new` and collects
/// `Regex::captures_iter` on `text`. The contract names the result and states
/// only that the groups of every reported match lie in `text`.
#[verifier::external_body]
pub(crate) fn captures_all(pattern: &str, text: &str) -> (r: Vec<Vec<Option<(String, String)>>>)
    ensures
        r.deep_view() == spec_captures_all(pattern@, text@),
        forall|k: int| 0 <= k < r.len() ==> groups_in_text(text@, #[trigger] r.deep_view()[k]),
{
    match regex::Regex::new(pattern) {
        Ok(re) => re.captures_iter(text).map(|c| {
            c.iter().map(|g| g.map(|m| (text[..m.start()].to_string(), m.as_str().to_string()))).collect()
        }).collect(),
        Err(_) => Vec::new(),
    }
}

} // verus!
