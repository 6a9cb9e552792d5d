//! The distance between two words, counted in edits: insertions, deletions,
//! substitutions of one character, and transpositions of two adjacent
//! characters.

use vstd::prelude::*;
use crate::text::chars_of;

verus! {

/// The last position among the first `upto` characters of `s` that holds
/// `c`, counted from 1; 0 if there is none.
pub open spec fn last_match(s: Seq<char>, c: char, upto: int) -> int
    decreases upto,
{
    if upto <= 0 {
        0
    } else if upto <= s.len() && s[upto - 1] == c {
        upto
    } else {
        last_match(s, c, upto - 1)
    }
}

/// The smaller of two numbers.
pub open spec fn min2(x: int, y: int) -> int {
    if x <= y {
        x
    } else {
        y
    }
}

/// The distance between the first `i` characters of `a` and the first `j`
/// characters of `b`. Turning one into the other costs 1 for each character
/// that is inserted, deleted or substituted, and 1 for each pair of adjacent
/// characters that is transposed, whatever was inserted or deleted between
/// the two characters of the pair.
pub open spec fn prefix_distance(a: Seq<char>, b: Seq<char>, i: int, j: int) -> int
    decreases i + j,
{
    if i <= 0 {
        if j <= 0 {
            0
        } else {
            j
        }
    } else if j <= 0 {
        i
    } else {
        let cost: int = if a[i - 1] == b[j - 1] {
            0
        } else {
            1
        };
        let k = last_match(a, b[j - 1], i - 1);
        let l = last_match(b, a[i - 1], j - 1);
        let plain = min2(
            prefix_distance(a, b, i - 1, j - 1) + cost,
            min2(prefix_distance(a, b, i, j - 1) + 1, prefix_distance(a, b, i - 1, j) + 1),
        );
        if 0 < k < i && 0 < l < j {
            min2(plain, prefix_distance(a, b, k - 1, l - 1) + (i - k - 1) + 1 + (j - l - 1))
        } else {
            plain
        }
    }
}

/// The distance between the words `a` and `b`.
pub open spec fn word_distance(a: Seq<char>, b: Seq<char>) -> int {
    prefix_distance(a, b, a.len() as int, b.len() as int)
}

/// A distance is never negative and never more than the two lengths
/// together.
pub proof fn lemma_distance_bounds(a: Seq<char>, b: Seq<char>, i: int, j: int)
    requires
        0 <= i <= a.len(),
        0 <= j <= b.len(),
    ensures
        0 <= prefix_distance(a, b, i, j) <= i + j,
    decreases i + j,
{
    if i > 0 && j > 0 {
        lemma_distance_bounds(a, b, i - 1, j - 1);
        lemma_distance_bounds(a, b, i, j - 1);
        lemma_distance_bounds(a, b, i - 1, j);
        let k = last_match(a, b[j - 1], i - 1);
        let l = last_match(b, a[i - 1], j - 1);
        if 0 < k < i && 0 < l < j {
            lemma_distance_bounds(a, b, k - 1, l - 1);
        }
    }
}

/// A word is at the distance 0 from itself, and so is each of its
/// prefixes.
pub proof fn lemma_distance_to_itself(a: Seq<char>, i: int)
    requires
        0 <= i <= a.len(),
    ensures
        prefix_distance(a, a, i, i) == 0,
    decreases i,
{
    if i > 0 {
        lemma_distance_to_itself(a, i - 1);
        lemma_distance_bounds(a, a, i, i - 1);
        lemma_distance_bounds(a, a, i - 1, i);
        let k = last_match(a, a[i - 1], i - 1);
        if 0 < k < i {
            lemma_distance_bounds(a, a, k - 1, k - 1);
        }
    }
}

/// The last position among the first `upto` characters of `s` that holds `c`.
fn find_last(s: &Vec<char>, c: char, upto: usize) -> (r: usize)
    requires
        upto <= s@.len(),
    ensures
        r == last_match(s@, c, upto as int),
        r <= upto,
{
    let mut p: usize = upto;
    while p > 0
        invariant
            p <= upto <= s@.len(),
            last_match(s@, c, upto as int) == last_match(s@, c, p as int),
        decreases p,
    {
        if s[p - 1] == c {
            return p;
        }
        p -= 1;
    }
    0
}

fn smaller(x: usize, y: usize) -> (r: usize)
    ensures
        r == min2(x as int, y as int),
{
    if x <= y {
        x
    } else {
        y
    }
}

/// The distance between the words `a` and `b`: the smallest number of
/// insertions, deletions and substitutions of one character and of
/// transpositions of two adjacent characters that turns one into the other.
pub fn distance_with_adjacent_transposition(a: String, b: String) -> (d: usize)
    requires
        a@.len() + b@.len() < usize::MAX,
    ensures
        d == word_distance(a@, b@),
{
    let x = chars_of(a.as_str());
    let y = chars_of(b.as_str());
    let n = x.len();
    let m = y.len();
    let mut rows: Vec<Vec<usize>> = Vec::new();
    let mut i: usize = 0;
    while i <= n
        invariant
            i <= n + 1,
            n == x@.len(),
            m == y@.len(),
            n + m < usize::MAX,
            rows@.len() == i,
            forall|r: int| 0 <= r < i ==> (#[trigger] rows@[r])@.len() == m + 1,
            forall|r: int, c: int|
                0 <= r < i && 0 <= c <= m ==> (#[trigger] rows@[r]@[c]) == prefix_distance(
                    x@,
                    y@,
                    r,
                    c,
                ),
        decreases n + 1 - i,
    {
        let mut row: Vec<usize> = Vec::new();
        let mut j: usize = 0;
        while j <= m
            invariant
                j <= m + 1,
                i <= n,
                n == x@.len(),
                m == y@.len(),
                n + m < usize::MAX,
                rows@.len() == i,
                row@.len() == j,
                forall|r: int| 0 <= r < i ==> (#[trigger] rows@[r])@.len() == m + 1,
                forall|r: int, c: int|
                    0 <= r < i && 0 <= c <= m ==> (#[trigger] rows@[r]@[c]) == prefix_distance(
                        x@,
                        y@,
                        r,
                        c,
                    ),
                forall|c: int| 0 <= c < j ==> #[trigger] row@[c] == prefix_distance(x@, y@, i as int, c),
            decreases m + 1 - j,
        {
            let value: usize = if i == 0 {
                j
            } else if j == 0 {
                i
            } else {
                proof {
                    lemma_distance_bounds(x@, y@, i - 1, j - 1);
                    lemma_distance_bounds(x@, y@, i as int, j - 1);
                    lemma_distance_bounds(x@, y@, i - 1, j as int);
                }
                let cost: usize = if x[i - 1] == y[j - 1] {
                    0
                } else {
                    1
                };
                let diagonal = rows[i - 1][j - 1] + cost;
                let left = row[j - 1] + 1;
                let up = rows[i - 1][j] + 1;
                let plain = smaller(diagonal, smaller(left, up));
                let k = find_last(&x, y[j - 1], i - 1);
                let l = find_last(&y, x[i - 1], j - 1);
                if k > 0 && l > 0 {
                    proof {
                        lemma_distance_bounds(x@, y@, k - 1, l - 1);
                    }
                    let jump = rows[k - 1][l - 1] + (i - k - 1) + 1 + (j - l - 1);
                    smaller(plain, jump)
                } else {
                    plain
                }
            };
            row.push(value);
            j += 1;
        }
        rows.push(row);
        i += 1;
    }
    rows[n][m]
}

} // verus!
