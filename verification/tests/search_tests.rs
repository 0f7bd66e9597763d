use minigrep::{run_search, search, search_case_insensitive, Config};

#[test]
fn one_result() {
    let query = "duct";
    let contents = "Rust:\nsafe, fast, productive.\nPick three.";
    assert_eq!(vec!["safe, fast, productive."], search(query, contents));
}

#[test]
fn case_sensitive() {
    let query = "rUsT";
    let contents = "Rust:\nsafe, fast, productive.\nPick three.";
    assert_eq!(Vec::<&str>::new(), search(query, contents));
}

#[test]
fn case_insensitive() {
    let query = "rUsT";
    let contents = "Rust:\nsafe, fast, productive.\nPick three.";
    assert_eq!(vec!["Rust:"], search_case_insensitive(query, contents));
}

#[test]
fn empty_query_returns_every_line() {
    let contents = "Rust:\nsafe, fast, productive.\nPick three.";
    assert_eq!(
        vec!["Rust:", "safe, fast, productive.", "Pick three."],
        search("", contents)
    );
}

#[test]
fn empty_corpus_returns_nothing() {
    assert_eq!(Vec::<&str>::new(), search("anything", ""));
    assert_eq!(Vec::<&str>::new(), search_case_insensitive("anything", ""));
}

#[test]
fn trailing_newline_adds_no_line() {
    assert_eq!(vec!["a", "b"], search("", "a\nb\n"));
}

#[test]
fn crlf_terminator_is_stripped() {
    assert_eq!(vec!["one", "two"], search("", "one\r\ntwo"));
}

#[test]
fn lone_carriage_return_stays_in_the_line() {
    assert_eq!(vec!["one\rtwo"], search("", "one\rtwo"));
}

#[test]
fn empty_lines_inside_the_corpus_are_kept() {
    assert_eq!(vec!["a", "", "b"], search("", "a\n\nb"));
}

#[test]
fn line_listed_once_despite_repeated_hits() {
    assert_eq!(vec!["banana"], search("an", "banana"));
}

#[test]
fn query_longer_than_every_line_matches_nothing() {
    assert_eq!(Vec::<&str>::new(), search("abcdef", "ab\ncd\nef"));
}

#[test]
fn case_folding_applies_to_query_and_line() {
    // Fails if case folding left either side unchanged.
    assert_eq!(
        vec!["TRUST the process"],
        search_case_insensitive("rust", "TRUST the process\nnothing here")
    );
    assert_eq!(
        vec!["trust the process"],
        search_case_insensitive("RUST", "trust the process\nnothing here")
    );
}

#[test]
fn run_search_selects_the_configured_mode() {
    let contents = "Rust:\nsafe, fast, productive.\nPick three.";
    let sensitive = Config {
        query: String::from("rUsT"),
        file_path: String::from("poem.txt"),
        ignore_case: false,
    };
    assert_eq!(Vec::<&str>::new(), run_search(&sensitive, contents));
    let insensitive = Config {
        query: String::from("rUsT"),
        file_path: String::from("poem.txt"),
        ignore_case: true,
    };
    assert_eq!(vec!["Rust:"], run_search(&insensitive, contents));
}
