//! The path-exclusion filter: an ordered set of include/exclude glob rules,
//! compiled by the ignore crate and consulted before any write side effect.
use vstd::prelude::*;

verus! {

#[verifier::external_type_specification]
#[verifier::external_body]
pub struct ExOverride(ignore::overrides::Override);

/// What the ignore crate's override matcher, built over `root` from the glob
/// `rules` in order, answers for `path` queried as a non-directory: true when
/// the last matching rule is a plain (non-negated) glob, so that a later
/// `!pattern` rule re-includes what an earlier rule excluded.
pub uninterp spec fn rules_exclude(root: Seq<char>, rules: Seq<Seq<char>>, path: Seq<char>) -> bool;

/// An ordered set of include/exclude glob rules; the last matching rule wins.
pub struct ExclusionFilter {
    root: String,
    rules: Vec<String>,
    matcher: ignore::overrides::Override,
}

impl ExclusionFilter {
    /// The directory the rules were compiled against.
    pub closed spec fn root_view(&self) -> Seq<char> {
        self.root@
    }

    /// The rules, in the order they were supplied.
    pub closed spec fn rules_view(&self) -> Seq<Seq<char>> {
        self.rules.deep_view()
    }

    /// True when this filter suppresses a write at `path`.
    pub open spec fn excludes(&self, path: Seq<char>) -> bool {
        rules_exclude(self.root_view(), self.rules_view(), path)
    }

    /// Relies on ignore's `OverrideBuilder` (`new`, `add`, `build`): compiles
    /// the glob rules in order over `root`; fails exactly when a rule is not a
    /// valid glob.
    #[verifier::external_body]
    pub fn new(root: &str, rules: &Vec<String>) -> (r: Result<ExclusionFilter, String>)
        ensures
            r matches Ok(f) ==> f.root_view() == root@ && f.rules_view() == rules.deep_view(),
    {
        let mut builder = ignore::overrides::OverrideBuilder::new(root);
        for rule in rules.iter() {
            if let Err(e) = builder.add(rule) {
                return Err(e.to_string());
            }
        }
        match builder.build() {
            Ok(matcher) => Ok(ExclusionFilter { root: root.to_owned(), rules: rules.clone(), matcher }),
            Err(e) => Err(e.to_string()),
        }
    }

    /// Relies on ignore's `Override::matched` (queried with `is_dir` false) and
    /// `Match::is_whitelist`: the answer is a function of the root, the rules
    /// and the path alone.
    #[verifier::external_body]
    pub fn is_excluded(&self, path: &str) -> (r: bool)
        ensures
            r == rules_exclude(self.root_view(), self.rules_view(), path@),
    {
        self.matcher.matched(std::path::Path::new(path), false).is_whitelist()
    }
}

/// True when the optional filter `f` suppresses a write at `path`; absent a
/// rule set, nothing is ever excluded.
pub open spec fn opt_excludes(f: Option<ExclusionFilter>, path: Seq<char>) -> bool {
    match f {
        Some(filter) => filter.excludes(path),
        None => false,
    }
}

/// Tests the optional filter as `opt_excludes` states it.
pub fn check_excluded(f: &Option<ExclusionFilter>, path: &str) -> (r: bool)
    ensures
        r == opt_excludes(*f, path@),
{
    match f {
        Some(filter) => filter.is_excluded(path),
        None => false,
    }
}

} // verus!
