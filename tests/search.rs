use minigrep::search::{search, search_case_insensitive, search_case_sensitive};
use minigrep::text::contains_chars;

const POEM: &str = "Rust:\nsafe, fast, productive\nPick three.";

fn chars(s: &str) -> Vec<char> {
    s.chars().collect()
}

#[test]
fn case_sensitive() {
    let query = "rust";
    let contents = "\
Rust:
safe, fast, productive
Pick three:.";
    let expected: Vec<&str> = vec![];
    assert_eq!(expected, search_case_sensitive(query, contents));
}

#[test]
fn case_insensitive() {
    let query = "rust";
    let contents = "\
Rust:
safe, fast, productive
Pick three:.";
    assert_eq!(vec!["Rust:"], search_case_insensitive(query, contents));
}

#[test]
fn sensitive_lowercase_query_misses_capitalised_line() {
    let expected: Vec<&str> = vec![];
    assert_eq!(expected, search("rust", POEM, false));
}

#[test]
fn insensitive_lowercase_query_finds_capitalised_line() {
    assert_eq!(vec!["Rust:"], search("rust", POEM, true));
}

#[test]
fn sensitive_finds_middle_line() {
    assert_eq!(vec!["safe, fast, productive"], search("fast", POEM, false));
}

#[test]
fn empty_contents_give_no_lines_in_either_mode() {
    let expected: Vec<&str> = vec![];
    assert_eq!(expected, search("rust", "", false));
    assert_eq!(expected, search("rust", "", true));
    assert_eq!(expected, search("", "", false));
    assert_eq!(expected, search("", "", true));
}

#[test]
fn empty_query_selects_every_line() {
    let contents = "one\r\ntwo\n\nthree\n";
    assert_eq!(vec!["one", "two", "", "three"], search_case_sensitive("", contents));
    assert_eq!(vec!["Rust:", "safe, fast, productive", "Pick three."], search_case_sensitive("", POEM));
}

#[test]
fn insensitive_result_covers_sensitive_result() {
    let contents = "Duct tape\nduct\nTrust me\nDUCT";
    let sensitive = search_case_sensitive("duct", contents);
    let insensitive = search_case_insensitive("duct", contents);
    assert_eq!(vec!["duct"], sensitive);
    assert_eq!(vec!["Duct tape", "duct", "DUCT"], insensitive);
    for line in &sensitive {
        assert!(insensitive.contains(line));
    }
}

#[test]
fn repeated_search_gives_equal_results() {
    assert_eq!(search("fast", POEM, false), search("fast", POEM, false));
    assert_eq!(search("PICK", POEM, true), search("PICK", POEM, true));
}

#[test]
fn lines_are_split_at_newlines_and_crlf() {
    assert_eq!(vec!["a", "b"], search_case_sensitive("", "a\r\nb\n"));
    assert_eq!(vec!["a", "", "b"], search_case_sensitive("", "a\n\nb"));
    assert_eq!(vec![""], search_case_sensitive("", "\n"));
    assert_eq!(vec!["", ""], search_case_sensitive("", "\n\n"));
}

#[test]
fn lone_carriage_return_at_end_stays_in_line() {
    assert_eq!(vec!["a\r"], search_case_sensitive("", "a\r"));
    assert_eq!(vec!["x\ry"], search_case_sensitive("\r", "x\ry\nz"));
}

#[test]
fn terminators_are_not_matched() {
    let expected: Vec<&str> = vec![];
    assert_eq!(expected, search_case_sensitive("\n", "a\nb"));
    assert_eq!(expected, search_case_sensitive("a\nb", "a\nb"));
}

#[test]
fn duplicate_lines_are_all_returned() {
    assert_eq!(vec!["ab", "ab"], search_case_sensitive("b", "ab\nc\nab"));
}

#[test]
fn returned_lines_keep_original_casing() {
    assert_eq!(vec!["HeLLo World"], search_case_insensitive("hello", "HeLLo World\nbye"));
    assert_eq!(vec!["RUST"], search_case_insensitive("rust", "RUST"));
    assert_eq!(vec!["rust"], search_case_insensitive("RUST", "rust"));
}

#[test]
fn folding_covers_non_ascii_letters() {
    assert_eq!(vec!["ÄPFEL und Birnen"], search_case_insensitive("äpfel", "ÄPFEL und Birnen\nKirschen"));
    let expected: Vec<&str> = vec![];
    assert_eq!(expected, search_case_sensitive("äpfel", "ÄPFEL und Birnen"));
}

#[test]
fn folding_is_per_character() {
    // a capital sigma folds to the medial sigma wherever it stands
    assert_eq!(vec!["\u{39f}\u{394}\u{39f}\u{3a3}"], search_case_insensitive("\u{3c3}", "\u{39f}\u{394}\u{39f}\u{3a3}"));
    assert_eq!(vec!["\u{3bf}\u{3b4}\u{3bf}\u{3c3}"], search_case_insensitive("\u{39f}\u{394}\u{39f}\u{3a3}", "\u{3bf}\u{3b4}\u{3bf}\u{3c3}"));
    // so it never matches the word-final sigma
    let expected: Vec<&str> = vec![];
    assert_eq!(expected, search_case_insensitive("\u{3a3}", "\u{3bf}\u{3b4}\u{3bf}\u{3c2}"));
}

#[test]
fn query_longer_than_line_misses() {
    let expected: Vec<&str> = vec![];
    assert_eq!(expected, search_case_sensitive("abcd", "abc\nab"));
}

#[test]
fn contains_chars_finds_exact_runs() {
    assert!(contains_chars(&chars("safe, fast"), &chars("fast")));
    assert!(contains_chars(&chars("abc"), &chars("")));
    assert!(contains_chars(&chars(""), &chars("")));
    assert!(contains_chars(&chars("abc"), &chars("abc")));
    assert!(!contains_chars(&chars("abc"), &chars("abcd")));
    assert!(!contains_chars(&chars("Rust"), &chars("rust")));
    assert!(!contains_chars(&chars("aab"), &chars("abb")));
}
