//! Keeping the sheets whose names pass an include pattern and an exclude
//! pattern.

use vstd::prelude::*;
use vstd::string::*;

verus! {

/// The error type of the `regex` crate.
#[verifier::external_type_specification]
#[verifier::external_body]
pub struct ExRegexError(regex::Error);

/// Whether the `regex` crate builds a regular expression from the pattern,
/// case-insensitive where `ignore_case` is set.
pub uninterp spec fn regex_compiles(pattern: Seq<char>, ignore_case: bool) -> bool;

/// Whether the regular expression that the `regex` crate builds from the
/// pattern, case-insensitive where `ignore_case` is set, matches somewhere
/// in the text.
pub uninterp spec fn regex_matches(pattern: Seq<char>, ignore_case: bool, text: Seq<char>) -> bool;

/// Builds a regular expression with `regex::RegexBuilder` (`new`,
/// `case_insensitive`, `build`) and asks `regex::Regex::is_match` whether it
/// matches somewhere in the text. The contract names the two outcomes, whether
/// the build succeeds and what the match says; it claims nothing else of them.
#[verifier::external_body]
fn search(pattern: &str, ignore_case: bool, text: &str) -> (found: Result<bool, regex::Error>)
    ensures
        found is Ok <==> regex_compiles(pattern@, ignore_case),
        found matches Ok(hit) ==> hit == regex_matches(pattern@, ignore_case, text@),
{
    let regex = regex::RegexBuilder::new(pattern).case_insensitive(ignore_case).build()?;
    Ok(regex.is_match(text))
}

/// Why the sheet names could not be filtered.
#[derive(Debug)]
pub enum FilterError {
    /// The include pattern is no regular expression.
    Include(regex::Error),
    /// The exclude pattern is no regular expression.
    Exclude(regex::Error),
}

/// A filter error without the value of the outside error.
pub enum FilterErrorView {
    Include,
    Exclude,
}

impl View for FilterError {
    type V = FilterErrorView;

    open spec fn view(&self) -> FilterErrorView {
        match self {
            FilterError::Include(_) => FilterErrorView::Include,
            FilterError::Exclude(_) => FilterErrorView::Exclude,
        }
    }
}

/// The two patterns of a filter. An absent include pattern lets every name
/// in; an absent exclude pattern keeps none out.
pub struct Patterns {
    pub include_pattern: Option<Seq<char>>,
    pub exclude_pattern: Option<Seq<char>>,
    pub ignore_case: bool,
}

impl Patterns {
    /// Whether a pattern is absent or a regular expression.
    pub open spec fn usable(pattern: Option<Seq<char>>, ignore_case: bool) -> bool {
        pattern matches Some(p) ==> regex_compiles(p, ignore_case)
    }

    /// Whether the include pattern lets the name in.
    pub open spec fn includes(self, name: Seq<char>) -> bool {
        self.include_pattern matches Some(p) ==> regex_matches(p, self.ignore_case, name)
    }

    /// Whether the exclude pattern keeps the name out.
    pub open spec fn excludes(self, name: Seq<char>) -> bool {
        self.exclude_pattern matches Some(p) && regex_matches(p, self.ignore_case, name)
    }

    /// Whether the name passes: the include pattern lets it in and the
    /// exclude pattern does not keep it out.
    pub open spec fn passes(self, name: Seq<char>) -> bool {
        self.includes(name) && !self.excludes(name)
    }

    /// The names that pass, in their order.
    pub open spec fn kept(self, names: Seq<Seq<char>>) -> Seq<Seq<char>> {
        names.filter(|name: Seq<char>| self.passes(name))
    }

    /// The outcome of filtering: the names that pass, or the first pattern,
    /// the include pattern before the exclude pattern, that is no regular
    /// expression.
    pub open spec fn filtered(self, names: Seq<Seq<char>>) -> Result<
        Seq<Seq<char>>,
        FilterErrorView,
    > {
        if !Self::usable(self.include_pattern, self.ignore_case) {
            Err(FilterErrorView::Include)
        } else if !Self::usable(self.exclude_pattern, self.ignore_case) {
            Err(FilterErrorView::Exclude)
        } else {
            Ok(self.kept(names))
        }
    }
}

/// The text of an optional pattern as a sequence of characters.
pub open spec fn pattern_view(pattern: &Option<String>) -> Option<Seq<char>> {
    match pattern {
        Some(p) => Some(p@),
        None => None,
    }
}

/// The outcome of filtering, with the names as sequences of characters.
pub open spec fn filter_view(outcome: Result<Vec<String>, FilterError>) -> Result<
    Seq<Seq<char>>,
    FilterErrorView,
> {
    match outcome {
        Ok(names) => Ok(names.deep_view()),
        Err(error) => Err(error@),
    }
}

/// Whether a present pattern matches somewhere in the text; `absent` where
/// there is no pattern.
fn matches_or(pattern: &Option<String>, ignore_case: bool, text: &str, absent: bool) -> (found:
    Result<bool, regex::Error>)
    ensures
        found is Ok <==> Patterns::usable(pattern_view(pattern), ignore_case),
        found matches Ok(hit) ==> hit == match pattern_view(pattern) {
            Some(p) => regex_matches(p, ignore_case, text@),
            None => absent,
        },
{
    match pattern {
        Some(p) => search(p.as_str(), ignore_case, text),
        None => Ok(absent),
    }
}

/// Keeps the sheet names that the include pattern matches and the exclude
/// pattern does not match, in their order. Both patterns are tried as
/// regular expressions before any name is looked at.
pub fn filter_names(
    names: &[String],
    include_pattern: &Option<String>,
    exclude_pattern: &Option<String>,
    ignore_case: bool,
) -> (outcome: Result<Vec<String>, FilterError>)
    ensures
        filter_view(outcome) == (Patterns {
            include_pattern: pattern_view(include_pattern),
            exclude_pattern: pattern_view(exclude_pattern),
            ignore_case,
        }).filtered(names.deep_view()),
{
    let ghost patterns = Patterns {
        include_pattern: pattern_view(include_pattern),
        exclude_pattern: pattern_view(exclude_pattern),
        ignore_case,
    };
    let ghost all = names.deep_view();
    if let Err(error) = matches_or(include_pattern, ignore_case, "", true) {
        return Err(FilterError::Include(error));
    }
    if let Err(error) = matches_or(exclude_pattern, ignore_case, "", false) {
        return Err(FilterError::Exclude(error));
    }
    let mut kept: Vec<String> = Vec::new();
    let mut i: usize = 0;
    while i < names.len()
        invariant
            i <= names.len(),
            all == names.deep_view(),
            patterns == (Patterns {
                include_pattern: pattern_view(include_pattern),
                exclude_pattern: pattern_view(exclude_pattern),
                ignore_case,
            }),
            Patterns::usable(patterns.include_pattern, ignore_case),
            Patterns::usable(patterns.exclude_pattern, ignore_case),
            kept.deep_view() == patterns.kept(all.take(i as int)),
        decreases names.len() - i,
    {
        let name = names[i].as_str();
        let included = match matches_or(include_pattern, ignore_case, name, true) {
            Ok(hit) => hit,
            Err(error) => {
                return Err(FilterError::Include(error));
            },
        };
        let excluded = included && match matches_or(exclude_pattern, ignore_case, name, false) {
            Ok(hit) => hit,
            Err(error) => {
                return Err(FilterError::Exclude(error));
            },
        };
        proof {
            assert(all.take(i + 1).drop_last() =~= all.take(i as int));
            reveal(Seq::filter);
        }
        if included && !excluded {
            kept.push(names[i].clone());
        }
        i += 1;
    }
    assert(all.take(i as int) =~= all);
    Ok(kept)
}

/// No name comes out of the filter that did not go in, and each name that
/// comes out passes both patterns.
pub proof fn lemma_kept_names_are_given(patterns: Patterns, names: Seq<Seq<char>>, i: int)
    requires
        0 <= i < patterns.kept(names).len(),
    ensures
        names.contains(patterns.kept(names)[i]),
        patterns.passes(patterns.kept(names)[i]),
{
    let passes = |name: Seq<char>| patterns.passes(name);
    let kept = names.filter(passes);
    names.lemma_filter_pred(passes, i);
    names.lemma_filter_contains_rev(passes, kept[i]);
}

/// Without patterns every name is kept, in its place.
pub proof fn lemma_no_pattern_keeps_every_name(names: Seq<Seq<char>>, ignore_case: bool)
    ensures
        (Patterns { include_pattern: None, exclude_pattern: None, ignore_case }).filtered(names)
            == Ok::<Seq<Seq<char>>, FilterErrorView>(names),
    decreases names.len(),
{
    reveal(Seq::filter);
    if names.len() > 0 {
        lemma_no_pattern_keeps_every_name(names.drop_last(), ignore_case);
        assert(names.drop_last().push(names.last()) =~= names);
    }
}

} // verus!
