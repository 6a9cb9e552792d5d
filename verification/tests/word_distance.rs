use alumet::exec_process::checked_distance;
use alumet::word_distance::distance_with_adjacent_transposition;

fn d(a: &str, b: &str) -> usize {
    distance_with_adjacent_transposition(a.to_string(), b.to_string())
}

#[test]
fn distances_of_known_pairs() {
    assert_eq!(d("", ""), 0);
    assert_eq!(d("abc", ""), 3);
    assert_eq!(d("", "ab"), 2);
    assert_eq!(d("same", "same"), 0);
    assert_eq!(d("kitten", "sitting"), 3);
    assert_eq!(d("flaw", "lawn"), 2);
    assert_eq!(d("ab", "ba"), 1);
    assert_eq!(d("abcd", "acbd"), 1);
    assert_eq!(d("script.sh", "scritp.sh"), 1);
    // A transposition with an insertion between the two characters.
    assert_eq!(d("ca", "abc"), 2);
    assert_eq!(d("a cat", "an abct"), 3);
    assert_eq!(d("héllo", "hello"), 1);
}

#[test]
fn the_distance_is_the_same_in_both_directions() {
    let words = ["", "a", "ab", "ba", "abc", "ca", "acb", "sleep", "slepe", "ls"];
    for a in words {
        for b in words {
            assert_eq!(d(a, b), d(b, a), "{:?} {:?}", a, b);
            assert!(d(a, b) <= a.chars().count().max(b.chars().count()));
            assert_eq!(d(a, b) == 0, a == b);
            assert_eq!(checked_distance(a, b), Some(d(a, b)));
        }
    }
}
