//! Fuzzy matching of names against what was typed.
use fuzzy_matcher::skim::SkimMatcherV2;
use fuzzy_matcher::FuzzyMatcher;
use vstd::prelude::*;

use crate::text;

verus! {

/// Whether the character is an ASCII capital.
pub open spec fn is_capital(c: char) -> bool {
    'A' <= c && c <= 'Z'
}

/// The character, as a small letter where it is an ASCII capital.
pub open spec fn small(c: char) -> int {
    if is_capital(c) {
        c as int + 32
    } else {
        c as int
    }
}

/// Whether two characters count as the same: up to ASCII case unless exact.
pub open spec fn same_letter(a: char, b: char, exact: bool) -> bool {
    if exact {
        a == b
    } else {
        small(a) == small(b)
    }
}

/// Whether the characters of the pattern occur in the text in their order.
pub open spec fn scattered_in(choice: Seq<char>, pattern: Seq<char>, exact: bool) -> bool
    decreases choice.len(),
{
    if pattern.len() == 0 {
        true
    } else if choice.len() == 0 {
        false
    } else if same_letter(choice.last(), pattern.last(), exact) {
        scattered_in(choice.drop_last(), pattern.drop_last(), exact)
    } else {
        scattered_in(choice.drop_last(), pattern, exact)
    }
}

/// Whether the text matches the pattern: the pattern's characters occur in it
/// in order, up to case unless the pattern has a capital.
pub open spec fn fuzzy_matches(choice: Seq<char>, pattern: Seq<char>) -> bool {
    let exact = exists|i: int| 0 <= i < pattern.len() && is_capital(#[trigger] pattern[i]);
    scattered_in(choice, pattern, exact)
}

/// How well each of the texts matches the pattern, where it matches.
pub uninterp spec fn fuzzy_scores(choices: Seq<Seq<char>>, pattern: Seq<char>) -> Seq<Option<i64>>;

/// `SkimMatcherV2::fuzzy_match` by one default matcher on one text after the
/// other: a text that matches gets a score, another gets none. The matcher
/// keeps its working memory from one text to the next, so that a score can
/// depend on the texts before; the scores follow from all the texts in their
/// order and the pattern, and what they are is left to the name.
#[verifier::external_body]
pub(crate) fn match_all(choices: &Vec<String>, pattern: &str) -> (r: Vec<Option<i64>>)
    ensures
        r@ == fuzzy_scores(text::views(choices@), pattern@),
        r@.len() == choices@.len(),
        forall|i: int|
            0 <= i < choices@.len() ==> ((#[trigger] r@[i]) is Some <==> fuzzy_matches(
                choices@[i]@,
                pattern@,
            )),
{
    let matcher = SkimMatcherV2::default();
    choices.iter().map(|choice| matcher.fuzzy_match(choice, pattern)).collect()
}

/// A longer text holds every pattern that a part of it at its start holds, and
/// a shorter pattern is held wherever a longer one that begins with it is.
proof fn lemma_scattered(choice: Seq<char>, pattern: Seq<char>, exact: bool)
    requires
        scattered_in(choice, pattern, exact),
    ensures
        forall|c: char| #[trigger] scattered_in(choice.push(c), pattern, exact),
        pattern.len() > 0 ==> scattered_in(choice, pattern.drop_last(), exact),
    decreases choice.len(),
{
    if pattern.len() > 0 && choice.len() > 0 {
        let shorter = choice.drop_last();
        assert(shorter.push(choice.last()) =~= choice);
        if same_letter(choice.last(), pattern.last(), exact) {
            lemma_scattered(shorter, pattern.drop_last(), exact);
            assert(scattered_in(shorter.push(choice.last()), pattern.drop_last(), exact));
        } else {
            lemma_scattered(shorter, pattern, exact);
            if pattern.len() > 1 {
                lemma_scattered(shorter, pattern.drop_last(), exact);
                assert(scattered_in(shorter.push(choice.last()), pattern.drop_last(), exact));
            }
        }
    }
    assert(pattern.len() > 0 ==> scattered_in(choice, pattern.drop_last(), exact));
    assert forall|c: char| #[trigger] scattered_in(choice.push(c), pattern, exact) by {
        assert(choice.push(c).drop_last() =~= choice);
    }
}

/// A text that holds a pattern exactly holds it up to case too.
proof fn lemma_exact_is_stricter(choice: Seq<char>, pattern: Seq<char>)
    requires
        scattered_in(choice, pattern, true),
    ensures
        scattered_in(choice, pattern, false),
    decreases choice.len(),
{
    if pattern.len() > 0 && choice.len() > 0 {
        let shorter = choice.drop_last();
        if choice.last() == pattern.last() {
            lemma_exact_is_stricter(shorter, pattern.drop_last());
        } else {
            lemma_exact_is_stricter(shorter, pattern);
            lemma_scattered(shorter, pattern, false);
        }
    }
}

/// Typing one more character never makes a text match that did not match before.
pub proof fn law_typing_narrows_the_search(choice: Seq<char>, pattern: Seq<char>, c: char)
    requires
        fuzzy_matches(choice, pattern.push(c)),
    ensures
        fuzzy_matches(choice, pattern),
{
    let typed = pattern.push(c);
    let before = exists|i: int| 0 <= i < pattern.len() && is_capital(#[trigger] pattern[i]);
    let after = exists|i: int| 0 <= i < typed.len() && is_capital(#[trigger] typed[i]);
    lemma_scattered(choice, typed, after);
    assert(typed.drop_last() =~= pattern);
    if before {
        let i = choose|i: int| 0 <= i < pattern.len() && is_capital(#[trigger] pattern[i]);
        assert(is_capital(typed[i]));
    } else if after {
        lemma_exact_is_stricter(choice, pattern);
    }
}

/// Where nothing is typed, every text matches.
pub proof fn law_everything_matches_nothing_typed(choice: Seq<char>)
    ensures
        fuzzy_matches(choice, Seq::empty()),
{
}

/// Whether the characters of the pattern stand at these places of the text, one
/// behind the other.
pub open spec fn stands_scattered(
    choice: Seq<char>,
    pattern: Seq<char>,
    exact: bool,
    at: Seq<int>,
) -> bool {
    &&& at.len() == pattern.len()
    &&& forall|i: int| 0 <= i < at.len() ==> 0 <= #[trigger] at[i] < choice.len()
    &&& forall|i: int, j: int| 0 <= i < j < at.len() ==> #[trigger] at[i] < #[trigger] at[j]
    &&& forall|i: int|
        0 <= i < at.len() ==> if exact {
            choice[#[trigger] at[i]] == pattern[i]
        } else {
            small(choice[at[i]]) == small(pattern[i])
        }
}

proof fn lemma_places(choice: Seq<char>, pattern: Seq<char>, exact: bool)
    requires
        scattered_in(choice, pattern, exact),
    ensures
        exists|at: Seq<int>| stands_scattered(choice, pattern, exact, at),
    decreases choice.len(),
{
    if pattern.len() == 0 {
        assert(stands_scattered(choice, pattern, exact, Seq::empty()));
    } else {
        let shorter = choice.drop_last();
        if same_letter(choice.last(), pattern.last(), exact) {
            lemma_places(shorter, pattern.drop_last(), exact);
            let before = choose|at: Seq<int>|
                stands_scattered(shorter, pattern.drop_last(), exact, at);
            let at = before.push(choice.len() - 1);
            assert forall|i: int| 0 <= i < at.len() implies 0 <= #[trigger] at[i] < choice.len() by {
                if i < before.len() {
                    assert(0 <= before[i] < shorter.len());
                }
            }
            assert forall|i: int, j: int| 0 <= i < j < at.len() implies #[trigger] at[i]
                < #[trigger] at[j] by {
                assert(at[i] == before[i]);
                if j < before.len() {
                    assert(at[j] == before[j]);
                }
            }
            assert forall|i: int| 0 <= i < at.len() implies if exact {
                choice[#[trigger] at[i]] == pattern[i]
            } else {
                small(choice[at[i]]) == small(pattern[i])
            } by {
                if i < before.len() {
                    assert(at[i] == before[i]);
                    assert(choice[before[i]] == shorter[before[i]]);
                    assert(pattern[i] == pattern.drop_last()[i]);
                }
            }
            assert(stands_scattered(choice, pattern, exact, at));
        } else {
            lemma_places(shorter, pattern, exact);
            let at = choose|at: Seq<int>| stands_scattered(shorter, pattern, exact, at);
            assert forall|i: int| 0 <= i < at.len() implies choice[#[trigger] at[i]]
                == shorter[at[i]] by {}
            assert(stands_scattered(choice, pattern, exact, at));
        }
    }
}

proof fn lemma_places_match(
    choice: Seq<char>,
    pattern: Seq<char>,
    exact: bool,
    at: Seq<int>,
)
    requires
        stands_scattered(choice, pattern, exact, at),
    ensures
        scattered_in(choice, pattern, exact),
    decreases choice.len(),
{
    if pattern.len() > 0 {
        let n = at.len() - 1;
        let shorter = choice.drop_last();
        assert(0 <= at[n] < choice.len());
        assert(pattern.last() == pattern[n]);
        if same_letter(choice.last(), pattern.last(), exact) {
            let rest = pattern.drop_last();
            let before = at.drop_last();
            assert forall|i: int| 0 <= i < before.len() implies 0 <= #[trigger] before[i]
                < shorter.len() by {
                assert(at[i] < at[n]);
            }
            assert forall|i: int, j: int| 0 <= i < j < before.len() implies #[trigger] before[i]
                < #[trigger] before[j] by {
                assert(at[i] < at[j]);
            }
            assert forall|i: int| 0 <= i < before.len() implies if exact {
                shorter[#[trigger] before[i]] == rest[i]
            } else {
                small(shorter[before[i]]) == small(rest[i])
            } by {
                assert(at[i] == before[i]);
                assert(choice[at[i]] == shorter[before[i]]);
            }
            lemma_places_match(shorter, rest, exact, before);
        } else {
            assert(at[n] != choice.len() - 1);
            assert forall|i: int| 0 <= i < at.len() implies 0 <= #[trigger] at[i]
                < shorter.len() by {
                if i < n {
                    assert(at[i] < at[n]);
                }
            }
            assert forall|i: int| 0 <= i < at.len() implies shorter[#[trigger] at[i]]
                == choice[at[i]] by {}
            lemma_places_match(shorter, pattern, exact, at);
        }
    }
}

/// Whether there is an ASCII capital in a text.
pub open spec fn has_capital(s: Seq<char>) -> bool {
    exists|i: int| 0 <= i < s.len() && 65 <= (#[trigger] s[i]) as int <= 90
}

/// A text matches exactly if the characters of the pattern stand in it one
/// behind the other, wherever: as they are where the pattern has a capital,
/// else in whatever case.
pub proof fn law_matching_is_standing_in_order(choice: Seq<char>, pattern: Seq<char>)
    ensures
        fuzzy_matches(choice, pattern) <==> exists|at: Seq<int>|
            stands_scattered(choice, pattern, has_capital(pattern), at),
{
    let exact = exists|i: int| 0 <= i < pattern.len() && is_capital(#[trigger] pattern[i]);
    let plain = has_capital(pattern);
    if exact {
        let i = choose|i: int| 0 <= i < pattern.len() && is_capital(#[trigger] pattern[i]);
        assert(65 <= pattern[i] as int <= 90);
    }
    if plain {
        let i = choose|i: int| 0 <= i < pattern.len() && 65 <= (#[trigger] pattern[i]) as int <= 90;
        assert(is_capital(pattern[i]));
    }
    assert(exact == plain);
    if scattered_in(choice, pattern, plain) {
        lemma_places(choice, pattern, plain);
    }
    if exists|at: Seq<int>| stands_scattered(choice, pattern, plain, at) {
        let at = choose|at: Seq<int>| stands_scattered(choice, pattern, plain, at);
        lemma_places_match(choice, pattern, plain, at);
    }
}

/// A text that holds the pattern as one piece matches.
pub proof fn law_pieces_match(before: Seq<char>, pattern: Seq<char>, behind: Seq<char>)
    ensures
        fuzzy_matches(before + pattern + behind, pattern),
{
    let choice = before + pattern + behind;
    let exact = exists|i: int| 0 <= i < pattern.len() && is_capital(#[trigger] pattern[i]);
    let at = Seq::new(pattern.len(), |i: int| before.len() + i);
    assert forall|i: int| 0 <= i < at.len() implies choice[#[trigger] at[i]] == pattern[i] by {}
    assert(stands_scattered(choice, pattern, exact, at));
    lemma_places_match(choice, pattern, exact, at);
}

/// The small form of a letter: a capital's is the letter behind it in the
/// alphabet of small ones, all else stays.
pub proof fn law_small_letters(c: char)
    ensures
        65 <= c as int <= 90 ==> small(c) == c as int + 32,
        !(65 <= c as int <= 90) ==> small(c) == c as int,
{
}

} // verus!
