//! The state change of one hangman guess: recording the guessed letter and
//! revealing its first hidden occurrence, if any. Prompting and printing
//! belong to the caller.

use vstd::prelude::*;

verus! {

/// The first position below `n` where `s` holds `c`, or -1 if there is none.
pub open spec fn first_match(s: Seq<char>, c: char, n: int) -> int
    decreases n,
{
    if n <= 0 {
        -1
    } else if first_match(s, c, n - 1) >= 0 {
        first_match(s, c, n - 1)
    } else if s[n - 1] == c {
        n - 1
    } else {
        -1
    }
}

proof fn lemma_first_match_extend(s: Seq<char>, c: char, i: int, n: int)
    requires
        0 <= i < n,
        first_match(s, c, i) == -1,
        s[i] == c,
    ensures
        first_match(s, c, n) == i,
    decreases n,
{
    if n > i + 1 {
        lemma_first_match_extend(s, c, i, n - 1);
    }
}

/// Applies the guessed letter `c` to the word state: `c` is appended to the
/// guessed-letters list; if some of the first `n` secret letters equals `c`,
/// the first such position is revealed in `guessed_correct` and blanked in
/// `secret_chars`, and the guess costs nothing; otherwise nothing else
/// changes and the guess costs one.
pub fn guess_a_char(
    guessed_correct: &mut Vec<char>,
    secret_chars: &mut Vec<char>,
    guesses: &mut Vec<char>,
    c: char,
    n: usize,
) -> (wrong: usize)
    requires
        n <= old(guessed_correct)@.len(),
        n <= old(secret_chars)@.len(),
        old(guesses)@.len() < usize::MAX,
    ensures
        final(guesses)@ == old(guesses)@.push(c),
        ({
            let m = first_match(old(secret_chars)@, c, n as int);
            if m < 0 {
                &&& wrong == 1
                &&& final(guessed_correct)@ == old(guessed_correct)@
                &&& final(secret_chars)@ == old(secret_chars)@
            } else {
                &&& wrong == 0
                &&& final(guessed_correct)@ == old(guessed_correct)@.update(m, c)
                &&& final(secret_chars)@ == old(secret_chars)@.update(m, ' ')
            }
        }),
{
    guesses.push(c);
    let ghost secret0 = secret_chars@;
    let mut i: usize = 0;
    while i < n
        invariant
            i <= n,
            n <= guessed_correct@.len(),
            n <= secret_chars@.len(),
            secret0 == old(secret_chars)@,
            secret_chars@ == secret0,
            guessed_correct@ == old(guessed_correct)@,
            guesses@ == old(guesses)@.push(c),
            first_match(secret0, c, i as int) == -1,
        decreases n - i,
    {
        if secret_chars[i] == c {
            proof {
                lemma_first_match_extend(secret0, c, i as int, n as int);
            }
            guessed_correct[i] = c;
            secret_chars[i] = ' ';
            return 0;
        }
        i += 1;
    }
    1
}

} // verus!
