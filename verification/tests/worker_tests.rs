use std::collections::VecDeque;

use deet::farm::{calculate, factor_number, is_prime};
use deet::hangman::guess_a_char;
use deet::wc::tally_lines;

#[test]
fn is_prime_on_primes_and_composites() {
    assert!(is_prime(2));
    assert!(is_prime(3));
    assert!(is_prime(7));
    assert!(is_prime(97));
    assert!(!is_prime(0));
    assert!(!is_prime(1));
    assert!(!is_prime(12));
    assert!(!is_prime(100));
}

#[test]
fn is_prime_rejects_squares_and_small_composites() {
    assert!(!is_prime(4));
    assert!(!is_prime(6));
    assert!(!is_prime(8));
    assert!(!is_prime(9));
    assert!(!is_prime(25));
    assert!(is_prime(65521));
    assert!(is_prime(4294967291));
}

#[test]
fn factor_number_gives_sorted_prime_factors() {
    assert_eq!(factor_number(0), Vec::<u32>::new());
    assert_eq!(factor_number(1), Vec::<u32>::new());
    assert_eq!(factor_number(2), vec![2]);
    assert_eq!(factor_number(12), vec![2, 2, 3]);
    assert_eq!(factor_number(97), vec![97]);
    assert_eq!(factor_number(360), vec![2, 2, 2, 3, 3, 5]);
    assert_eq!(factor_number(1024), vec![2; 10]);
}

#[test]
fn calculate_drains_the_queue_in_order() {
    let mut q: VecDeque<u32> = VecDeque::new();
    q.push_back(12);
    q.push_back(5);
    q.push_back(1);
    q.push_back(0);
    let out = calculate(&mut q);
    assert!(q.is_empty());
    assert_eq!(out, vec![vec![2, 2, 3], vec![5], vec![], vec![]]);
}

#[test]
fn guess_reveals_first_hidden_occurrence() {
    let mut shown: Vec<char> = "-----".chars().collect();
    let mut secret: Vec<char> = "hello".chars().collect();
    let mut guesses: Vec<char> = Vec::new();
    let wrong = guess_a_char(&mut shown, &mut secret, &mut guesses, 'l', 5);
    assert_eq!(wrong, 0);
    assert_eq!(shown, "--l--".chars().collect::<Vec<char>>());
    assert_eq!(secret, "he lo".chars().collect::<Vec<char>>());
    assert_eq!(guesses, vec!['l']);
}

#[test]
fn wrong_guess_changes_only_the_guess_list() {
    let mut shown: Vec<char> = "---".chars().collect();
    let mut secret: Vec<char> = "cat".chars().collect();
    let mut guesses: Vec<char> = vec!['x'];
    let wrong = guess_a_char(&mut shown, &mut secret, &mut guesses, 'z', 3);
    assert_eq!(wrong, 1);
    assert_eq!(shown, "---".chars().collect::<Vec<char>>());
    assert_eq!(secret, "cat".chars().collect::<Vec<char>>());
    assert_eq!(guesses, vec!['x', 'z']);
}

#[test]
fn tally_counts_words_lines_and_characters() {
    let lines: Vec<Vec<u8>> = vec![
        b"hello world".to_vec(),
        b"".to_vec(),
        b"a\\s+b".to_vec(),
    ];
    // "hello world" holds no literal separator: one word, 11 characters.
    // The empty line is skipped. The last line splits into two one-byte
    // words around its separator.
    assert_eq!(tally_lines(&lines), (3, 2, 13));
}

#[test]
fn tally_of_nothing_is_zero() {
    let lines: Vec<Vec<u8>> = Vec::new();
    assert_eq!(tally_lines(&lines), (0, 0, 0));
    let blank: Vec<Vec<u8>> = vec![b"".to_vec(), b"".to_vec()];
    assert_eq!(tally_lines(&blank), (0, 0, 0));
}
