//! A small line-oriented substring search library.
//!
//! Given a query string and a body of text, the library splits the text into
//! lines and returns, in original order, every line that contains the query,
//! either literally or after folding both sides to lowercase.

pub mod fold;
pub mod laws;
pub mod matching;
pub mod text;

use vstd::prelude::*;

use crate::fold::lower_of;
use crate::matching::{contains_substring, has_substring};
use crate::text::{spec_lines, split_lines};

verus! {

broadcast use vstd::seq_lib::group_filter_ensures;

/// How a line is compared against the query.
#[derive(Clone, Copy, PartialEq, Eq, Structural, Debug)]
pub enum MatchPolicy {
    /// Character-for-character substring containment.
    Exact,
    /// Both line and query folded to lowercase before the containment test.
    CaseInsensitive,
}

/// The containment test of the exact policy, as a predicate on a line.
pub open spec fn exact_pred(query: Seq<char>) -> spec_fn(Seq<char>) -> bool {
    |line: Seq<char>| has_substring(line, query)
}

/// The containment test of the case-insensitive policy, as a predicate on a
/// line.
pub open spec fn folded_pred(query: Seq<char>) -> spec_fn(Seq<char>) -> bool {
    |line: Seq<char>| has_substring(lower_of(line), lower_of(query))
}

/// The lines of `text` that contain `query` literally, in original order.
pub open spec fn exact_matches(query: Seq<char>, text: Seq<char>) -> Seq<Seq<char>> {
    spec_lines(text).filter(exact_pred(query))
}

/// The lines of `text` whose lowercase form contains the lowercase form of
/// `query`, in original order.
pub open spec fn case_insensitive_matches(query: Seq<char>, text: Seq<char>) -> Seq<Seq<char>> {
    spec_lines(text).filter(folded_pred(query))
}

/// The matching lines of `text` under the given policy, in original order.
pub open spec fn matches_under(policy: MatchPolicy, query: Seq<char>, text: Seq<char>) -> Seq<
    Seq<char>,
> {
    match policy {
        MatchPolicy::Exact => exact_matches(query, text),
        MatchPolicy::CaseInsensitive => case_insensitive_matches(query, text),
    }
}

/// One search invocation: the query, where the text comes from, and whether
/// case is ignored.
pub struct Config {
    pub query: String,
    pub file_path: String,
    pub ignore_case: bool,
}

impl Config {
    /// The match policy this configuration selects.
    pub open spec fn spec_policy(&self) -> MatchPolicy {
        if self.ignore_case {
            MatchPolicy::CaseInsensitive
        } else {
            MatchPolicy::Exact
        }
    }

    /// Builds a configuration from the argument list of a program invocation:
    /// the argument after the program name is the query, the next one the
    /// file path. Whether case is ignored comes from the caller's
    /// environment, handed in as a plain flag.
    pub fn build_from_args(args: Vec<String>, ignore_case: bool) -> (result: Result<
        Config,
        &'static str,
    >)
        ensures
            args@.len() >= 3 ==> (result matches Ok(config) && config.query@ == args@[1]@
                && config.file_path@ == args@[2]@ && config.ignore_case == ignore_case),
            args@.len() < 2 ==> (result matches Err(message) && message@
                == "Didn't get a query string"@),
            args@.len() == 2 ==> (result matches Err(message) && message@
                == "Didn't get a file path"@),
    {
        if args.len() < 2 {
            return Err("Didn't get a query string");
        }
        if args.len() < 3 {
            return Err("Didn't get a file path");
        }
        let query = args[1].clone();
        let file_path = args[2].clone();
        Ok(Config { query, file_path, ignore_case })
    }

    /// The lines of `contents` that contain `query` literally, in original
    /// order. An empty query matches every line.
    pub fn search<'a>(query: &str, contents: &'a str) -> (found: Vec<&'a str>)
        ensures
            found.deep_view() == exact_matches(query@, contents@),
            query@.len() == 0 ==> found.deep_view() == spec_lines(contents@),
    {
        let lines = split_lines(contents);
        let ghost all = lines.deep_view();
        let n = lines.len();
        let mut found: Vec<&'a str> = Vec::new();
        let mut i: usize = 0;
        proof {
            assert(all.take(0) =~= Seq::<Seq<char>>::empty());
            assert(found.deep_view() =~= all.take(0).filter(exact_pred(query@)));
        }
        while i < n
            invariant
                i <= n,
                n == lines@.len(),
                all == lines.deep_view(),
                all == spec_lines(contents@),
                found.deep_view() == all.take(i as int).filter(exact_pred(query@)),
            decreases n - i,
        {
            let line = lines[i];
            proof {
                assert(line@ == all[i as int]);
            }
            let is_hit = contains_substring(line, query);
            let ghost previous = found.deep_view();
            if is_hit {
                found.push(line);
                proof {
                    assert(found.deep_view() =~= previous.push(line@));
                }
            }
            proof {
                all.take(i as int).lemma_filter_push(all[i as int], exact_pred(query@));
                assert(all.take(i + 1) =~= all.take(i as int).push(all[i as int]));
            }
            i = i + 1;
        }
        proof {
            assert(all.take(n as int) =~= all);
            if query@.len() == 0 {
                crate::laws::lemma_empty_query_matches_every_line(query@, contents@);
            }
        }
        found
    }

    /// The lines of `contents` whose lowercase form contains the lowercase
    /// form of `query`, in original order. An empty query matches every line.
    pub fn search_case_insensitive<'a>(query: &str, contents: &'a str) -> (found: Vec<&'a str>)
        ensures
            found.deep_view() == case_insensitive_matches(query@, contents@),
            query@.len() == 0 ==> found.deep_view() == spec_lines(contents@),
    {
        let folded_query = query.to_lowercase();
        let lines = split_lines(contents);
        let ghost all = lines.deep_view();
        let n = lines.len();
        let mut found: Vec<&'a str> = Vec::new();
        let mut i: usize = 0;
        proof {
            assert(all.take(0) =~= Seq::<Seq<char>>::empty());
            assert(found.deep_view() =~= all.take(0).filter(folded_pred(query@)));
        }
        while i < n
            invariant
                i <= n,
                n == lines@.len(),
                all == lines.deep_view(),
                all == spec_lines(contents@),
                folded_query@ == lower_of(query@),
                found.deep_view() == all.take(i as int).filter(folded_pred(query@)),
            decreases n - i,
        {
            let line = lines[i];
            proof {
                assert(line@ == all[i as int]);
            }
            let folded_line = line.to_lowercase();
            let is_hit = contains_substring(folded_line.as_str(), folded_query.as_str());
            let ghost previous = found.deep_view();
            if is_hit {
                found.push(line);
                proof {
                    assert(found.deep_view() =~= previous.push(line@));
                }
            }
            proof {
                all.take(i as int).lemma_filter_push(all[i as int], folded_pred(query@));
                assert(all.take(i + 1) =~= all.take(i as int).push(all[i as int]));
            }
            i = i + 1;
        }
        proof {
            assert(all.take(n as int) =~= all);
            if query@.len() == 0 {
                crate::laws::lemma_empty_folded_query_matches_every_line(query@, contents@);
            }
        }
        found
    }

    /// The matching lines of `contents` under this configuration's policy.
    pub fn matching_lines<'a>(&self, contents: &'a str) -> (found: Vec<&'a str>)
        ensures
            found.deep_view() == matches_under(self.spec_policy(), self.query@, contents@),
    {
        let policy = if self.ignore_case {
            MatchPolicy::CaseInsensitive
        } else {
            MatchPolicy::Exact
        };
        search_lines(self.query.as_str(), contents, policy)
    }
}

/// The matching lines of `contents` under the given policy, in original
/// order.
pub fn search_lines<'a>(query: &str, contents: &'a str, policy: MatchPolicy) -> (found: Vec<
    &'a str,
>)
    ensures
        found.deep_view() == matches_under(policy, query@, contents@),
{
    match policy {
        MatchPolicy::Exact => Config::search(query, contents),
        MatchPolicy::CaseInsensitive => Config::search_case_insensitive(query, contents),
    }
}

} // verus!
