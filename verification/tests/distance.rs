use command_matcher::levenshtein;

#[test]
fn distance_to_self_is_zero() {
    assert_eq!(levenshtein("", ""), 0);
    assert_eq!(levenshtein("echo", "echo"), 0);
    assert_eq!(levenshtein("µqs$dfq", "µqs$dfq"), 0);
}

#[test]
fn distance_is_symmetric() {
    assert_eq!(levenshtein("kitten", "sitting"), 3);
    assert_eq!(levenshtein("sitting", "kitten"), 3);
    assert_eq!(levenshtein("echo", "fi"), levenshtein("fi", "echo"));
    assert_eq!(levenshtein("fimpsh", "µqs$dfq"), levenshtein("µqs$dfq", "fimpsh"));
}

#[test]
fn distance_to_empty_is_character_count() {
    assert_eq!(levenshtein("", "abc"), 3);
    assert_eq!(levenshtein("abc", ""), 3);
    assert_eq!(levenshtein("", "fimpsh"), 6);
}

#[test]
fn distance_counts_characters_not_bytes() {
    assert_eq!("µqs$dfq".len(), 8);
    assert_eq!(levenshtein("µqs$dfq", ""), 7);
    assert_eq!(levenshtein("", "µqs$dfq"), 7);
    assert_eq!(levenshtein("µ", "u"), 1);
    assert_eq!(levenshtein("日本語", "日本"), 1);
    assert_eq!(levenshtein("añb", "anb"), 1);
}

#[test]
fn distance_of_known_pairs() {
    assert_eq!(levenshtein("echo", "fi"), 4);
    assert_eq!(levenshtein("fimpsh", "fi"), 4);
    assert_eq!(levenshtein("flaw", "lawn"), 2);
    assert_eq!(levenshtein("saturday", "sunday"), 3);
    assert_eq!(levenshtein("a", "b"), 1);
    assert_eq!(levenshtein("ab", "ba"), 2);
    assert_eq!(levenshtein("abc", "abcd"), 1);
    assert_eq!(levenshtein("abcd", "abc"), 1);
    assert_eq!(levenshtein("abc", "xbc"), 1);
    assert_eq!(levenshtein("abc", "xyz"), 3);
}

/// The distance by the full table of prefix distances.
fn by_full_table(a: &str, b: &str) -> usize {
    let a: Vec<char> = a.chars().collect();
    let b: Vec<char> = b.chars().collect();
    let mut table = vec![vec![0usize; b.len() + 1]; a.len() + 1];
    for i in 0..=a.len() {
        table[i][0] = i;
    }
    for j in 0..=b.len() {
        table[0][j] = j;
    }
    for i in 1..=a.len() {
        for j in 1..=b.len() {
            let replace = table[i - 1][j - 1] + if a[i - 1] == b[j - 1] { 0 } else { 1 };
            let delete = table[i - 1][j] + 1;
            let insert = table[i][j - 1] + 1;
            table[i][j] = replace.min(delete).min(insert);
        }
    }
    table[a.len()][b.len()]
}

#[test]
fn distance_agrees_with_the_full_table() {
    let words = [
        "", "a", "b", "ab", "ba", "abc", "echo", "Echo", "fimsh", "fimpsh", "fi", "µqs$dfq",
        "kitten", "sitting", "日本語", "日本", "aaaa", "aaab", "baaa", "abab", "baba",
    ];
    for a in words {
        for b in words {
            assert_eq!(levenshtein(a, b), by_full_table(a, b));
            assert_eq!(levenshtein(a, b), levenshtein(b, a));
        }
        assert_eq!(levenshtein(a, a), 0);
        assert_eq!(levenshtein(a, ""), a.chars().count());
    }
}

#[test]
fn distance_obeys_the_triangle() {
    let words = ["", "echo", "fimpsh", "fi", "µqs$dfq", "each", "fish"];
    for a in words {
        for b in words {
            for c in words {
                assert!(levenshtein(a, c) <= levenshtein(a, b) + levenshtein(b, c));
            }
        }
    }
}
