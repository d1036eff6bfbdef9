//! First-match-wins interception of client compatibility probe queries.
//!
//! A sibling wire front-end answers certain probe queries with canned
//! results instead of full planning.  Given an ordered list of (pattern,
//! result) rules and a query, the helper compiles the patterns as one set
//! and returns the first rule whose pattern matches; a rule may carry a
//! precomputed result, no result (an empty answer), or compute its
//! result lazily from the query text.

use vstd::prelude::*;
use vstd::slice::slice_index_get;
use vstd::string::StringSliceAdditionalSpecFns;

use crate::schema::Schema;

verus! {

/// Does the whole pattern set compile?  Compilation is a function of the
/// patterns alone; its outcome is fixed by the compiler below.
pub uninterp spec fn spec_patterns_valid(patterns: Seq<Seq<char>>) -> bool;

/// Does `pattern` match somewhere in `text`?  A function of the two
/// alone; its value is fixed by the matcher below.
pub uninterp spec fn spec_regex_match(pattern: Seq<char>, text: Seq<u8>) -> bool;

/// The character sequences of a list of strings, in order.
pub open spec fn string_views(v: Seq<String>) -> Seq<Seq<char>> {
    Seq::new(v.len(), |i: int| v[i]@)
}

/// The patterns a compiled set holds.
pub uninterp spec fn rs_patterns(rs: regex::bytes::RegexSet) -> Seq<Seq<char>>;

/// The per-pattern match flags a match result holds.
pub uninterp spec fn sm_flags(sm: regex::bytes::SetMatches) -> Seq<bool>;

#[verifier::external_type_specification]
#[verifier::external_body]
pub struct ExRegexSet(regex::bytes::RegexSet);

#[verifier::external_type_specification]
#[verifier::external_body]
pub struct ExSetMatches(regex::bytes::SetMatches);

/// A pattern set that does not compile, with the compiler's message.
#[derive(Debug)]
pub struct PatternError {
    pub message: String,
}

/// Relies on `regex::bytes::RegexSet::new`: compiles the given patterns
/// into one set, returning an error exactly when the set does not
/// compile; on success the set holds the patterns in order.
#[verifier::external_body]
fn regex_set_new(patterns: &Vec<String>) -> (r: Result<regex::bytes::RegexSet, PatternError>)
    ensures
        r matches Ok(rs) ==> rs_patterns(rs) == string_views(patterns@) && spec_patterns_valid(
            string_views(patterns@),
        ),
        r is Err ==> !spec_patterns_valid(string_views(patterns@)),
{
    match regex::bytes::RegexSet::new(patterns) {
        Ok(rs) => Ok(rs),
        Err(e) => Err(PatternError { message: e.to_string() }),
    }
}

/// Relies on `regex::bytes::RegexSet::matches`: one flag per pattern of
/// the set, true exactly for the patterns that match the text.
#[verifier::external_body]
fn regex_set_matches(rs: &regex::bytes::RegexSet, text: &[u8]) -> (r: regex::bytes::SetMatches)
    ensures
        sm_flags(r).len() == rs_patterns(*rs).len(),
        forall|i: int|
            0 <= i < sm_flags(r).len() ==> #[trigger] sm_flags(r)[i] == spec_regex_match(
                rs_patterns(*rs)[i],
                text@,
            ),
{
    rs.matches(text)
}

/// Relies on `regex::bytes::SetMatches::matched`: the flag at an index;
/// the index must be below the set's length, where the call would panic.
#[verifier::external_body]
fn set_matched(sm: &regex::bytes::SetMatches, i: usize) -> (r: bool)
    requires
        i < sm_flags(*sm).len(),
    ensures
        r == sm_flags(*sm)[i as int],
{
    sm.matched(i)
}

/// One interception rule: a pattern and an optional precomputed result
/// (no result stands for an empty canned answer).
pub struct FederatedRule<B> {
    pub pattern: String,
    pub result: Option<(Schema, B)>,
}

/// A rule whose result is computed lazily from the query text.
pub trait LazyBlock<B> {
    /// The canned result for a query this rule intercepted, if any.
    fn compute(&self, query: &str) -> Option<(Schema, B)>;
}

/// Outcome of lazy interception: no rule matched, a matching rule had no
/// data, or a matching rule computed a result.
pub enum LazyOutcome<B> {
    NoMatch,
    EmptyResult,
    Data(Schema, B),
}

/// The patterns of a rule list, in order.
pub open spec fn rule_patterns<B>(rules: Seq<FederatedRule<B>>) -> Seq<Seq<char>> {
    Seq::new(rules.len(), |i: int| rules[i].pattern@)
}

/// The patterns of a lazy rule list, in order.
pub open spec fn lazy_rule_patterns<L>(rules: Seq<(String, L)>) -> Seq<Seq<char>> {
    Seq::new(rules.len(), |i: int| rules[i].0@)
}

/// The query-interception helper of the sibling front-end.
pub struct FederatedHelper {}

impl FederatedHelper {
    /// First-match-wins over the rule list: the first rule whose pattern
    /// matches the query, or `None` when no pattern matches; an error
    /// exactly when the pattern set does not compile.
    pub fn block_match_rule<'a, B>(query: &str, rules: &'a Vec<FederatedRule<B>>) -> (r: Result<
        Option<&'a FederatedRule<B>>,
        PatternError,
    >)
        ensures
            match r {
                Ok(m) => {
                    &&& spec_patterns_valid(rule_patterns(rules@))
                    &&& match m {
                        Some(rule) => exists|i: int|
                            {
                                &&& 0 <= i < rules@.len()
                                &&& *rule == rules@[i]
                                &&& #[trigger] spec_regex_match(
                                    rules@[i].pattern@,
                                    query.spec_bytes(),
                                )
                                &&& forall|j: int|
                                    0 <= j < i ==> !spec_regex_match(
                                        #[trigger] rules@[j].pattern@,
                                        query.spec_bytes(),
                                    )
                            },
                        None => forall|j: int|
                            0 <= j < rules@.len() ==> !spec_regex_match(
                                #[trigger] rules@[j].pattern@,
                                query.spec_bytes(),
                            ),
                    }
                },
                Err(_) => !spec_patterns_valid(rule_patterns(rules@)),
            },
    {
        let mut patterns: Vec<String> = Vec::new();
        let mut i: usize = 0;
        while i < rules.len()
            invariant
                i <= rules@.len(),
                patterns@.len() == i as int,
                forall|t: int| 0 <= t < i as int ==> #[trigger] patterns@[t]@ == rules@[t].pattern@,
            decreases rules@.len() - i,
        {
            let rule = slice_index_get(rules.as_slice(), i);
            patterns.push(rule.pattern.clone());
            i += 1;
        }
        proof {
            assert(string_views(patterns@) =~= rule_patterns(rules@));
        }
        let rs = match regex_set_new(&patterns) {
            Ok(rs) => rs,
            Err(e) => {
                return Err(e);
            },
        };
        let sm = regex_set_matches(&rs, query.as_bytes());
        let mut i: usize = 0;
        while i < rules.len()
            invariant
                i <= rules@.len(),
                rs_patterns(rs) == rule_patterns(rules@),
                sm_flags(sm).len() == rules@.len(),
                forall|t: int|
                    0 <= t < sm_flags(sm).len() ==> #[trigger] sm_flags(sm)[t] == spec_regex_match(
                        rule_patterns(rules@)[t],
                        query.spec_bytes(),
                    ),
                spec_patterns_valid(rule_patterns(rules@)),
                forall|j: int|
                    0 <= j < i as int ==> !spec_regex_match(
                        #[trigger] rules@[j].pattern@,
                        query.spec_bytes(),
                    ),
            decreases rules@.len() - i,
        {
            if set_matched(&sm, i) {
                let rule = slice_index_get(rules.as_slice(), i);
                proof {
                    assert(spec_regex_match(rules@[i as int].pattern@, query.spec_bytes()));
                }
                return Ok(Some(rule));
            }
            i += 1;
        }
        Ok(None)
    }

    /// First-match-wins over lazily computed rules: the first rule whose
    /// pattern matches the query, handed back so the caller can run its
    /// computation (see [`apply_lazy_rule`]); `None` exactly when no
    /// pattern matches; an error exactly when the pattern set does not
    /// compile.
    pub fn lazy_block_match_rule<'a, L>(query: &str, rules: &'a Vec<(String, L)>) -> (r: Result<
        Option<&'a (String, L)>,
        PatternError,
    >)
        ensures
            match r {
                Ok(m) => {
                    &&& spec_patterns_valid(lazy_rule_patterns(rules@))
                    &&& match m {
                        Some(rule) => exists|i: int|
                            {
                                &&& 0 <= i < rules@.len()
                                &&& *rule == rules@[i]
                                &&& #[trigger] spec_regex_match(rules@[i].0@, query.spec_bytes())
                                &&& forall|j: int|
                                    0 <= j < i ==> !spec_regex_match(
                                        #[trigger] rules@[j].0@,
                                        query.spec_bytes(),
                                    )
                            },
                        None => forall|j: int|
                            0 <= j < rules@.len() ==> !spec_regex_match(
                                #[trigger] rules@[j].0@,
                                query.spec_bytes(),
                            ),
                    }
                },
                Err(_) => !spec_patterns_valid(lazy_rule_patterns(rules@)),
            },
    {
        let mut patterns: Vec<String> = Vec::new();
        let mut i: usize = 0;
        while i < rules.len()
            invariant
                i <= rules@.len(),
                patterns@.len() == i as int,
                forall|t: int| 0 <= t < i as int ==> #[trigger] patterns@[t]@ == rules@[t].0@,
            decreases rules@.len() - i,
        {
            let rule = slice_index_get(rules.as_slice(), i);
            patterns.push(rule.0.clone());
            i += 1;
        }
        proof {
            assert(string_views(patterns@) =~= lazy_rule_patterns(rules@));
        }
        let rs = match regex_set_new(&patterns) {
            Ok(rs) => rs,
            Err(e) => {
                return Err(e);
            },
        };
        let sm = regex_set_matches(&rs, query.as_bytes());
        let mut i: usize = 0;
        while i < rules.len()
            invariant
                i <= rules@.len(),
                rs_patterns(rs) == lazy_rule_patterns(rules@),
                sm_flags(sm).len() == rules@.len(),
                forall|t: int|
                    0 <= t < sm_flags(sm).len() ==> #[trigger] sm_flags(sm)[t] == spec_regex_match(
                        lazy_rule_patterns(rules@)[t],
                        query.spec_bytes(),
                    ),
                spec_patterns_valid(lazy_rule_patterns(rules@)),
                forall|j: int|
                    0 <= j < i as int ==> !spec_regex_match(
                        #[trigger] rules@[j].0@,
                        query.spec_bytes(),
                    ),
            decreases rules@.len() - i,
        {
            if set_matched(&sm, i) {
                let rule = slice_index_get(rules.as_slice(), i);
                proof {
                    assert(spec_regex_match(rules@[i as int].0@, query.spec_bytes()));
                }
                return Ok(Some(rule));
            }
            i += 1;
        }
        Ok(None)
    }

    /// The canned answer a matched lazy rule gives: its computation's
    /// result, or the empty answer when it computes none.  The outcome is
    /// never `NoMatch`: a rule handed in was already matched.
    pub fn apply_lazy_rule<B, L: LazyBlock<B>>(query: &str, rule: &(String, L)) -> (r: LazyOutcome<
        B,
    >)
        ensures
            !(r is NoMatch),
    {
        match rule.1.compute(query) {
            None => LazyOutcome::EmptyResult,
            Some((schema, block)) => LazyOutcome::Data(schema, block),
        }
    }
}

} // verus!
