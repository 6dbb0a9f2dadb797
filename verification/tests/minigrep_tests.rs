use rust_book::minigrep::search;
use rust_book::minigrep::search_case_insensitive;
use rust_book::minigrep::Config;

#[test]
fn case_sensitive() {
    let query = "duct";
    let contents = "\
Rust:
safe, fast, productive.
Pick three.";

    assert_eq!(vec!["safe, fast, productive."], search(query, contents))
}

#[test]
fn case_insensitive() {
    let query = "rUsT";
    let contents = "\
Rust:
safe, fast, productive.
Pick three.
Trust me.";

    assert_eq!(vec!["Rust:", "Trust me."], search_case_insensitive(query, contents))
}

#[test]
fn chapter12_lib_case_sensitive() {
    let query = "duct";
    let contents = "\
Rust:
safe, fast, productive.
Pick three.";

    assert_eq!(vec!["safe, fast, productive."], search(query, contents))
}

#[test]
fn search_finds_nothing_in_empty_contents() {
    let empty: Vec<&str> = Vec::new();
    assert_eq!(empty, search("anything", ""));
    assert_eq!(empty, search_case_insensitive("anything", ""));
}

#[test]
fn search_is_case_sensitive_about_its_query() {
    let contents = "trust the process";
    let empty: Vec<&str> = Vec::new();
    assert_eq!(empty, search("RUST", contents));
    assert_eq!(vec!["trust the process"], search_case_insensitive("RUST", contents));
}

#[test]
fn search_strips_carriage_returns_at_line_ends() {
    let contents = "alpha\r\nbeta\r\ngamma";
    assert_eq!(vec!["alpha"], search("alpha", contents));
    assert_eq!(vec!["alpha", "beta", "gamma"], search("a", contents));
}

#[test]
fn search_keeps_every_matching_line_in_order() {
    let contents = "one\ntwo\nthree\ntwo more";
    assert_eq!(vec!["two", "two more"], search("two", contents));
}

#[test]
fn config_needs_three_arguments() {
    let args = vec![String::from("prog"), String::from("query")];
    assert_eq!(Err("not enough arguments"), Config::new(&args).map(|_| ()));
}

#[test]
fn config_takes_query_then_filename() {
    let args = vec![
        String::from("prog"),
        String::from("needle"),
        String::from("haystack.txt"),
    ];
    let config = Config::new(&args).unwrap();
    assert_eq!("needle", config.query);
    assert_eq!("haystack.txt", config.filename);
}
