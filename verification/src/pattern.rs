//! Regular expressions, compiled and matched by the `regex` crate.

use vstd::prelude::*;

use crate::error::{CrawlError, ErrorView};

verus! {

/// A compiled expression of the `regex` crate, carried as it is.
#[verifier::external_type_specification]
#[verifier::external_body]
pub struct ExRegex(regex::Regex);

/// The texts in which a compiled expression finds a match.
pub uninterp spec fn regex_language(re: regex::Regex) -> Set<Seq<char>>;

/// What the `regex` crate makes of a pattern: the texts in which it finds a
/// match, or the message of the error.
pub uninterp spec fn pattern_language(pattern: Seq<char>) -> Result<Set<Seq<char>>, Seq<char>>;

/// The result of compiling a pattern, by what it matches.
pub open spec fn compilation(r: Result<regex::Regex, String>) -> Result<Set<Seq<char>>, Seq<char>> {
    match r {
        Ok(re) => Ok(regex_language(re)),
        Err(message) => Err(message@),
    }
}

/// `regex::Regex::new`: whether a pattern compiles, what the expression then
/// matches, and what the error says are functions of the pattern.
#[verifier::external_body]
fn compile(pattern: &str) -> (r: Result<regex::Regex, String>)
    ensures
        compilation(r) == pattern_language(pattern@),
{
    regex::Regex::new(pattern).map_err(|err| err.to_string())
}

/// A cloned expression matches what the first one matches.
pub assume_specification[ <regex::Regex as Clone>::clone ](re: &regex::Regex) -> (r: regex::Regex)
    ensures
        regex_language(r) == regex_language(*re),
;

/// `Regex::is_match` tells whether the expression finds a match in a text.
pub assume_specification[ regex::Regex::is_match ](re: &regex::Regex, haystack: &str) -> (r: bool)
    ensures
        r == regex_language(*re).contains(haystack@),
;

/// What each of a list of expressions matches.
pub open spec fn languages(list: Seq<regex::Regex>) -> Seq<Set<Seq<char>>> {
    list.map_values(|re: regex::Regex| regex_language(re))
}

/// The first pattern that does not compile, with its error.
pub open spec fn first_invalid(patterns: Seq<Seq<char>>) -> Option<ErrorView>
    decreases patterns.len(),
{
    if patterns.len() == 0 {
        None
    } else {
        match pattern_language(patterns[0]) {
            Ok(_) => first_invalid(patterns.drop_first()),
            Err(source) => Some(ErrorView::Pattern { pattern: patterns[0], source }),
        }
    }
}

/// What each of a list of valid patterns matches.
pub open spec fn pattern_languages(patterns: Seq<Seq<char>>) -> Seq<Set<Seq<char>>> {
    patterns.map_values(|p: Seq<char>| pattern_language(p)->Ok_0)
}

/// Compile a list of patterns, stopping at the first invalid one.
pub fn compile_patterns(patterns: Vec<String>) -> (r: Result<Vec<regex::Regex>, CrawlError>)
    ensures
        match r {
            Ok(list) => first_invalid(crate::text::texts(patterns@)) is None && languages(list@)
                == pattern_languages(crate::text::texts(patterns@)),
            Err(e) => first_invalid(crate::text::texts(patterns@)) == Some(e@),
        },
{
    let ghost all = crate::text::texts(patterns@);
    let mut out: Vec<regex::Regex> = Vec::new();
    let mut i: usize = 0;
    proof {
        assert(all.skip(0) =~= all);
    }
    while i < patterns.len()
        invariant
            i <= patterns@.len(),
            all == crate::text::texts(patterns@),
            first_invalid(all) == first_invalid(all.skip(i as int)),
            out@.len() == i,
            forall|k: int|
                0 <= k < i ==> Ok::<Set<Seq<char>>, Seq<char>>(regex_language(#[trigger] out@[k]))
                    == pattern_language(all[k]),
        decreases patterns.len() - i,
    {
        proof {
            assert(all[i as int] == patterns@[i as int]@);
            assert(all.skip(i as int).drop_first() =~= all.skip(i + 1));
        }
        match compile(patterns[i].as_str()) {
            Ok(re) => {
                out.push(re);
            },
            Err(source) => {
                return Err(CrawlError::Pattern { pattern: patterns[i].clone(), source });
            },
        }
        i += 1;
    }
    proof {
        assert(languages(out@) =~= pattern_languages(all));
    }
    Ok(out)
}

/// Whether any of `list` finds a match in `text`.
pub fn any_match(list: &Vec<regex::Regex>, text: &str) -> (r: bool)
    ensures
        r == exists|i: int|
            0 <= i < list@.len() && (#[trigger] languages(list@)[i]).contains(text@),
{
    let mut i: usize = 0;
    while i < list.len()
        invariant
            i <= list@.len(),
            forall|k: int| 0 <= k < i ==> !(#[trigger] languages(list@)[k]).contains(text@),
        decreases list.len() - i,
    {
        if list[i].is_match(text) {
            proof {
                assert(languages(list@)[i as int].contains(text@));
            }
            return true;
        }
        i += 1;
    }
    false
}

/// Patterns are looked at one by one: nothing is wrong with a list exactly where
/// every pattern in it compiles, and else the first that does not is reported,
/// with what the compiler says of it.
pub proof fn every_pattern_is_compiled(patterns: Seq<Seq<char>>)
    ensures
        first_invalid(patterns) is None <==> forall|i: int|
            0 <= i < patterns.len() ==> pattern_language(#[trigger] patterns[i]) is Ok,
        first_invalid(patterns) matches Some(e) ==> exists|k: int|
            0 <= k < patterns.len() && pattern_language(#[trigger] patterns[k]) is Err && e == (
            ErrorView::Pattern {
                pattern: patterns[k],
                source: pattern_language(patterns[k])->Err_0,
            }) && forall|i: int| 0 <= i < k ==> pattern_language(#[trigger] patterns[i]) is Ok,
    decreases patterns.len(),
{
    if patterns.len() > 0 {
        let rest = patterns.drop_first();
        every_pattern_is_compiled(rest);
        assert forall|i: int| 0 <= i < rest.len() implies rest[i] == patterns[i + 1] by {}
        if pattern_language(patterns[0]) is Ok {
            if first_invalid(rest) is None {
                assert forall|i: int| 0 <= i < patterns.len() implies pattern_language(
                    #[trigger] patterns[i],
                ) is Ok by {
                    if i > 0 {
                        assert(rest[i - 1] == patterns[i]);
                    }
                }
            } else {
                let e = first_invalid(rest)->0;
                let k = choose|k: int|
                    0 <= k < rest.len() && pattern_language(#[trigger] rest[k]) is Err && e == (
                    ErrorView::Pattern {
                        pattern: rest[k],
                        source: pattern_language(rest[k])->Err_0,
                    }) && forall|i: int| 0 <= i < k ==> pattern_language(#[trigger] rest[i]) is Ok;
                assert(patterns[k + 1] == rest[k]);
                assert forall|i: int| 0 <= i < k + 1 implies pattern_language(
                    #[trigger] patterns[i],
                ) is Ok by {
                    if i > 0 {
                        assert(rest[i - 1] == patterns[i]);
                    }
                }
            }
        }
    }
}

/// A list of patterns stands for what each of them matches, in order.
pub proof fn patterns_keep_their_places(patterns: Seq<Seq<char>>, list: Seq<regex::Regex>, i: int)
    ensures
        pattern_languages(patterns).len() == patterns.len(),
        languages(list).len() == list.len(),
        0 <= i < patterns.len() ==> pattern_languages(patterns)[i]
            == pattern_language(patterns[i])->Ok_0,
        0 <= i < list.len() ==> languages(list)[i] == regex_language(list[i]),
{
}

} // verus!
