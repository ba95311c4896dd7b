//! Word, line and character tallies over the lines of a text: a line's words
//! are the pieces around the literal three-byte separator `\s+`, empty lines
//! are skipped, and a line's characters are its bytes outside the
//! separators. Reading the file belongs to the caller.

use vstd::prelude::*;

verus! {

/// Number of non-overlapping, left-to-right occurrences of the literal
/// separator `\s+` (the bytes 0x5c 0x73 0x2b) in `s`.
pub open spec fn sep_count(s: Seq<u8>) -> int
    decreases s.len(),
{
    if s.len() < 3 {
        0
    } else if s[0] == 0x5c && s[1] == 0x73 && s[2] == 0x2b {
        1 + sep_count(s.skip(3))
    } else {
        sep_count(s.skip(1))
    }
}

/// Words of a nonempty line: the pieces around the separators.
pub open spec fn line_words(s: Seq<u8>) -> int {
    sep_count(s) + 1
}

/// Characters counted for a line: its bytes outside the separators.
pub open spec fn line_chars(s: Seq<u8>) -> int {
    s.len() - 3 * sep_count(s)
}

/// Total words over all nonempty lines.
pub open spec fn total_words(lines: Seq<Seq<u8>>) -> int
    decreases lines.len(),
{
    if lines.len() == 0 {
        0
    } else {
        total_words(lines.drop_last()) + if lines.last().len() == 0 {
            0int
        } else {
            line_words(lines.last())
        }
    }
}

/// Number of nonempty lines.
pub open spec fn total_lines(lines: Seq<Seq<u8>>) -> int
    decreases lines.len(),
{
    if lines.len() == 0 {
        0
    } else {
        total_lines(lines.drop_last()) + if lines.last().len() == 0 {
            0int
        } else {
            1int
        }
    }
}

/// Total counted characters over all nonempty lines.
pub open spec fn total_chars(lines: Seq<Seq<u8>>) -> int
    decreases lines.len(),
{
    if lines.len() == 0 {
        0
    } else {
        total_chars(lines.drop_last()) + if lines.last().len() == 0 {
            0int
        } else {
            line_chars(lines.last())
        }
    }
}

/// The byte views of a list of lines.
pub open spec fn views_of(lines: Seq<Vec<u8>>) -> Seq<Seq<u8>> {
    lines.map_values(|v: Vec<u8>| v@)
}

proof fn lemma_sep_count_bounds(s: Seq<u8>)
    ensures
        0 <= sep_count(s),
        3 * sep_count(s) <= s.len(),
    decreases s.len(),
{
    if s.len() >= 3 {
        if s[0] == 0x5c && s[1] == 0x73 && s[2] == 0x2b {
            lemma_sep_count_bounds(s.skip(3));
        } else {
            lemma_sep_count_bounds(s.skip(1));
        }
    }
}

/// A prefix of the input never counts more than the whole input.
proof fn lemma_totals_prefix(lines: Seq<Seq<u8>>, k: int)
    requires
        0 <= k <= lines.len(),
    ensures
        total_words(lines.take(k)) <= total_words(lines),
        total_lines(lines.take(k)) <= total_lines(lines),
        total_chars(lines.take(k)) <= total_chars(lines),
    decreases lines.len(),
{
    if k < lines.len() {
        lemma_totals_prefix(lines.drop_last(), k);
        assert(lines.drop_last().take(k) =~= lines.take(k));
        lemma_sep_count_bounds(lines.last());
    } else {
        assert(lines.take(k) =~= lines);
    }
}

/// Counts the separator occurrences in one line, left to right.
fn count_seps(line: &Vec<u8>) -> (r: usize)
    ensures
        r == sep_count(line@),
        3 * r <= line@.len(),
{
    let len = line.len();
    let mut i: usize = 0;
    let mut cnt: usize = 0;
    proof {
        assert(line@.skip(0) =~= line@);
    }
    while i < len && len - i >= 3
        invariant
            i <= len,
            len == line@.len(),
            3 * cnt <= i,
            sep_count(line@) == cnt + sep_count(line@.skip(i as int)),
        decreases len - i,
    {
        proof {
            assert(line@.skip(i as int).len() >= 3);
            assert(line@.skip(i as int)[0] == line@[i as int]);
            assert(line@.skip(i as int)[1] == line@[i as int + 1]);
            assert(line@.skip(i as int)[2] == line@[i as int + 2]);
        }
        if line[i] == 0x5c && line[i + 1] == 0x73 && line[i + 2] == 0x2b {
            proof {
                assert(line@.skip(i as int).skip(3) =~= line@.skip(i as int + 3));
            }
            cnt += 1;
            i += 3;
        } else {
            proof {
                assert(line@.skip(i as int).skip(1) =~= line@.skip(i as int + 1));
            }
            i += 1;
        }
    }
    proof {
        assert(line@.skip(i as int).len() < 3);
    }
    cnt
}

/// Tallies words, nonempty lines, and characters over `lines`, exactly as
/// the three totals define them. The totals must fit the 32-bit counters.
pub fn tally_lines(lines: &Vec<Vec<u8>>) -> (r: (u32, u32, u32))
    requires
        total_words(views_of(lines@)) <= u32::MAX,
        total_lines(views_of(lines@)) <= u32::MAX,
        total_chars(views_of(lines@)) <= u32::MAX,
    ensures
        r.0 == total_words(views_of(lines@)),
        r.1 == total_lines(views_of(lines@)),
        r.2 == total_chars(views_of(lines@)),
{
    let ghost ls = views_of(lines@);
    let mut num_word: u32 = 0;
    let mut num_line: u32 = 0;
    let mut num_char: u32 = 0;
    let n = lines.len();
    let mut j: usize = 0;
    while j < n
        invariant
            j <= n,
            n == lines@.len(),
            ls == views_of(lines@),
            total_words(ls) <= u32::MAX,
            total_lines(ls) <= u32::MAX,
            total_chars(ls) <= u32::MAX,
            num_word == total_words(ls.take(j as int)),
            num_line == total_lines(ls.take(j as int)),
            num_char == total_chars(ls.take(j as int)),
        decreases n - j,
    {
        let ghost jj = j as int;
        proof {
            assert(ls[jj] == lines@[jj]@);
            assert(ls.take(jj + 1).drop_last() =~= ls.take(jj));
            assert(ls.take(jj + 1).last() == ls[jj]);
            lemma_totals_prefix(ls, jj + 1);
            lemma_sep_count_bounds(ls[jj]);
        }
        let line = &lines[j];
        if line.len() > 0 {
            let seps = count_seps(line);
            let words = seps + 1;
            let chars = line.len() - 3 * seps;
            num_word = num_word + (words as u32);
            num_line = num_line + 1;
            num_char = num_char + (chars as u32);
        }
        j += 1;
    }
    proof {
        assert(ls.take(n as int) =~= ls);
    }
    (num_word, num_line, num_char)
}

} // verus!
