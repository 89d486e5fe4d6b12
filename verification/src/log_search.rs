//! Counting the log lines that mention a word.
//!
//! A line mentions the word when one of its white-space separated words,
//! with the colons at its end removed, is the word. Each line counts once.

use vstd::prelude::*;
use crate::text::{chars_eq_str, chars_of, split_whitespace, tokens, trim_end_colons, trim_end_colons_of};

verus! {

/// The report of one search: the file, the word, how many lines mentioned
/// it, and whether those lines are echoed.
pub struct Raport {
    pub file_name: String,
    pub searched_word: String,
    pub number_of_occurrences: u32,
    pub print_logs: bool,
}

/// The command line has the right number of words: the program, the file,
/// the word, and optionally one more that asks for the lines to be echoed.
pub open spec fn args_accepted(n: nat) -> bool {
    3 <= n <= 4
}

/// Builds the report of a search from the command line, or `None` when it
/// has too few or too many words.
pub fn raport_from_args(args: &Vec<String>) -> (r: Option<Raport>)
    ensures
        r is Some <==> args_accepted(args@.len()),
        r matches Some(rep) ==> {
            &&& rep.file_name@ == args@[1]@
            &&& rep.searched_word@ == args@[2]@
            &&& rep.number_of_occurrences == 0
            &&& rep.print_logs == (args@.len() == 4)
        },
{
    if args.len() < 3 || args.len() > 4 {
        return None;
    }
    Some(
        Raport {
            file_name: args[1].clone(),
            searched_word: args[2].clone(),
            number_of_occurrences: 0,
            print_logs: args.len() == 4,
        },
    )
}

/// `line` mentions `word`.
pub open spec fn mentions(line: Seq<char>, word: Seq<char>) -> bool {
    exists|k: int| 0 <= k < tokens(line).len() && trim_end_colons(#[trigger] tokens(line)[k]) == word
}

/// Whether `line` mentions `word`.
pub fn line_mentions(line: &str, word: &str) -> (r: bool)
    ensures
        r == mentions(line@, word@),
{
    let chars = chars_of(line);
    let words = split_whitespace(&chars);
    let n = words.len();
    proof {
        assert(words@.len() == tokens(line@).len());
    }
    let mut k: usize = 0;
    while k < n
        invariant
            n == words@.len(),
            words.deep_view() == tokens(line@),
            0 <= k <= n,
            forall|j: int| 0 <= j < k ==> trim_end_colons(#[trigger] tokens(line@)[j]) != word@,
        decreases n - k,
    {
        proof {
            assert(words@[k as int]@ == tokens(line@)[k as int]);
        }
        let trimmed = trim_end_colons_of(&words[k]);
        if chars_eq_str(&trimmed, word) {
            return true;
        }
        k = k + 1;
    }
    false
}

/// A line mentions a word when any of its words, the first one included,
/// is that word once the colons at its end are removed; and only then.
pub proof fn law_any_word_counts(line: Seq<char>, word: Seq<char>, k: int)
    requires
        0 <= k < tokens(line).len(),
        trim_end_colons(tokens(line)[k]) == word,
    ensures
        mentions(line, word),
{
}

/// A line whose first word is the searched word, with any colons after it,
/// is counted by `record_line`.
pub proof fn law_first_word_counts(line: Seq<char>, word: Seq<char>)
    requires
        tokens(line).len() > 0,
        trim_end_colons(tokens(line)[0]) == word,
    ensures
        mentions(line, word),
{
    law_any_word_counts(line, word, 0);
}

/// A line none of whose words is the searched word (after removing trailing
/// colons) is not counted.
pub proof fn law_no_word_no_count(line: Seq<char>, word: Seq<char>)
    requires
        forall|k: int| 0 <= k < tokens(line).len() ==> trim_end_colons(#[trigger] tokens(line)[k]) != word,
    ensures
        !mentions(line, word),
{
}

impl Raport {
    /// Takes one more line of the log: counts it when it mentions the word,
    /// and says whether it is to be echoed.
    pub fn record_line(&mut self, line: &str) -> (echo: bool)
        requires
            mentions(line@, old(self).searched_word@) ==> old(self).number_of_occurrences < u32::MAX,
        ensures
            final(self).file_name == old(self).file_name,
            final(self).searched_word == old(self).searched_word,
            final(self).print_logs == old(self).print_logs,
            final(self).number_of_occurrences == old(self).number_of_occurrences + if mentions(
                line@,
                old(self).searched_word@,
            ) {
                1int
            } else {
                0int
            },
            echo == (mentions(line@, old(self).searched_word@) && old(self).print_logs),
    {
        if line_mentions(line, self.searched_word.as_str()) {
            self.number_of_occurrences = self.number_of_occurrences + 1;
            self.print_logs
        } else {
            false
        }
    }
}

} // verus!
