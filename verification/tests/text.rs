use custos_macro::text::{chars_of, contains, matches_at, replace, same_text};

#[test]
fn replace_rewrites_every_occurrence() {
    assert_eq!(replace("impl Add for CPU { fn f(d: &CPU) {} }", "CPU", "Stack"),
        "impl Add for Stack { fn f(d: &Stack) {} }");
}

#[test]
fn replace_leaves_text_without_the_pattern() {
    assert_eq!(replace("impl Add for Stack {}", "CPU", "Stack"), "impl Add for Stack {}");
}

#[test]
fn replace_does_not_rescan_what_it_wrote() {
    assert_eq!(replace("aaa", "a", "aa"), "aaaaaa");
    assert_eq!(replace("aaaa", "aa", "a"), "aa");
}

#[test]
fn contains_finds_a_pattern_at_the_end() {
    assert!(contains("& Buffer <", "Buffer <"));
    assert!(!contains("& Buffer", "Buffer <"));
    assert!(contains("abc", ""));
}

#[test]
fn same_text_compares_characters() {
    assert!(same_text("None", "None"));
    assert!(!same_text("None", "Non"));
}

#[test]
fn replace_with_an_empty_pattern_changes_nothing() {
    assert_eq!(replace("impl Add for CPU {}", "", "Stack"), "impl Add for CPU {}");
    assert_eq!(replace("", "CPU", "Stack"), "");
}

#[test]
fn replace_keeps_characters_of_several_bytes() {
    assert_eq!(replace("\"größe\" : CPU , \"😀\"", "CPU", "Stack"), "\"größe\" : Stack , \"😀\"");
}

#[test]
fn every_name_moves_by_the_difference_in_length() {
    let block = "CPU x CPU y CPUCPU";
    let copy = replace(block, "CPU", "Stack");
    assert_eq!(copy, "Stack x Stack y StackStack");
    let places: Vec<usize> = block.match_indices("CPU").map(|(at, _)| at).collect();
    assert_eq!(places, vec![0, 6, 12, 15]);
    for (before, at) in places.iter().enumerate() {
        let moved = at + 2 * before;
        assert_eq!(&copy[moved..moved + 5], "Stack");
    }
    assert!(!contains(&copy, "CPU"));
    assert_eq!(replace(&copy, "CPU", "Stack"), copy);
}

#[test]
fn overlapping_occurrences_are_replaced_from_the_left() {
    assert_eq!(replace("ababa", "aba", "x"), "xba");
}

#[test]
fn characters_and_matches() {
    let text = chars_of("a CPU");
    assert_eq!(text, vec!['a', ' ', 'C', 'P', 'U']);
    let name = chars_of("CPU");
    assert!(matches_at(&text, &name, 2));
    assert!(!matches_at(&text, &name, 1));
    assert!(!matches_at(&text, &name, 3));
    assert!(!matches_at(&text, &name, usize::MAX));
    assert!(matches_at(&text, &Vec::new(), 5));
    assert!(!matches_at(&text, &Vec::new(), 6));
}
