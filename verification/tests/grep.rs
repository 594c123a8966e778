use gg_tracer::grep::{contains, run, search, search_case_insensitive, Config};

#[test]
fn case_sensitive() {
    let query = "duct";
    let contents = "\
Rust:
safe, fast, productive.
Pick three.
Duct tape.";

    assert_eq!(vec!["safe, fast, productive."], search(query, contents));
}

#[test]
fn case_insensitive() {
    let query = "rUsT";
    let contents = "\
Rust:
safe, fast, productive.
Pick three.
Trust me.";

    assert_eq!(
        vec!["Rust:", "Trust me."],
        search_case_insensitive(query, contents)
    );
}

#[test]
fn search_finds_nothing_in_an_empty_text() {
    let none: Vec<&str> = Vec::new();
    assert_eq!(none, search("a", ""));
    assert_eq!(none, search("", ""));
}

#[test]
fn empty_query_matches_every_line() {
    assert_eq!(vec!["one", "", "three"], search("", "one\n\nthree\n"));
}

#[test]
fn line_endings_are_left_out() {
    assert_eq!(vec!["ab", "abc"], search("ab", "ab\r\nxy\nabc\n"));
    // A carriage return alone ends no line and stays at the end of the text.
    assert_eq!(vec!["ab\rcd", "ab\r"], search("ab", "ab\rcd\nab\r"));
    // Only one carriage return belongs to the line ending.
    assert_eq!(vec!["ab\r"], search("ab", "ab\r\r\n"));
}

#[test]
fn a_final_line_ending_adds_no_line() {
    assert_eq!(search("", "a\nb"), search("", "a\nb\n"));
    assert_eq!(vec!["a", "b", ""], search("", "a\nb\n\n"));
    assert_eq!(vec![""], search("", "\n"));
}

#[test]
fn query_at_the_end_of_a_line_is_found() {
    assert_eq!(vec!["xxab"], search("ab", "xxab\nxxa\nb"));
    assert_eq!(vec!["ab"], search("ab", "ab"));
}

#[test]
fn query_longer_than_line_is_not_found() {
    let none: Vec<&str> = Vec::new();
    assert_eq!(none, search("abcd", "abc\nbcd"));
}

#[test]
fn search_goes_by_characters_not_bytes() {
    assert_eq!(vec!["grüße", "süß"], search("ü", "grüße\ngruss\nsüß"));
}

#[test]
fn case_insensitive_search_lowers_both_sides() {
    assert_eq!(
        vec!["ÄPFEL", "äpfel"],
        search_case_insensitive("Äpf", "ÄPFEL\näpfel\nbirne")
    );
    let none: Vec<&str> = Vec::new();
    assert_eq!(none, search("Äpf", "ÄPFEL\näpfel\nbirne"));
}

#[test]
fn search_matches_a_plain_filter_of_lines() {
    let contents = "alpha\nbeta\r\ngamma delta\n\nalphabet\r\n";
    let expected: Vec<&str> = contents.lines().filter(|l| l.contains("alpha")).collect();
    assert_eq!(expected, search("alpha", contents));
    let lowered: Vec<&str> = contents
        .lines()
        .filter(|l| l.to_lowercase().contains(&"ALPHA".to_lowercase()))
        .collect();
    assert_eq!(lowered, search_case_insensitive("ALPHA", contents));
}

fn args(words: &[&str]) -> Vec<String> {
    words.iter().map(|w| w.to_string()).collect()
}

#[test]
fn config_needs_a_query() {
    assert_eq!(Config::new(args(&[]), true).err(), Some("No Query String"));
    assert_eq!(Config::new(args(&["prog"]), true).err(), Some("No Query String"));
}

#[test]
fn config_needs_a_file() {
    assert_eq!(
        Config::new(args(&["prog", "needle"]), true).err(),
        Some("No Source File")
    );
}

#[test]
fn config_takes_case_from_the_environment() {
    let config = Config::new(args(&["prog", "needle", "hay.txt"]), true).unwrap();
    assert_eq!(config.query, "needle");
    assert_eq!(config.filename, "hay.txt");
    assert!(config.case_sensitive);
    let config = Config::new(args(&["prog", "needle", "hay.txt"]), false).unwrap();
    assert!(!config.case_sensitive);
}

#[test]
fn config_takes_case_from_the_fourth_word() {
    let config = Config::new(args(&["prog", "q", "f", "untrue!"]), false).unwrap();
    assert!(config.case_sensitive);
    let config = Config::new(args(&["prog", "q", "f", "false"]), true).unwrap();
    assert!(!config.case_sensitive);
    let config = Config::new(args(&["prog", "q", "f", "True"]), true).unwrap();
    assert!(!config.case_sensitive);
}

#[test]
fn run_searches_as_configured() {
    let contents = "Rust:\nsafe, fast, productive.\nPick three.\nTrust me.";
    let exact = Config {
        query: String::from("rust"),
        filename: String::from("poem.txt"),
        case_sensitive: true,
    };
    assert_eq!(vec!["Trust me."], run(&exact, contents));
    let loose = Config {
        query: String::from("rust"),
        filename: String::from("poem.txt"),
        case_sensitive: false,
    };
    assert_eq!(vec!["Rust:", "Trust me."], run(&loose, contents));
}

#[test]
fn contains_finds_a_text_within_a_text() {
    assert!(contains("haystack", "hay"));
    assert!(contains("haystack", "stack"));
    assert!(contains("haystack", "yst"));
    assert!(contains("haystack", "haystack"));
    assert!(contains("haystack", ""));
    assert!(contains("", ""));
    assert!(!contains("", "a"));
    assert!(!contains("haystack", "haystacks"));
    assert!(!contains("haystack", "Hay"));
    assert!(!contains("aab", "abb"));
    assert!(contains("aaab", "aab"));
}
