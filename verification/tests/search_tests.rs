use minigrep::{search_lines, Config, MatchPolicy};

#[test]
fn case_sensitive() {
    let query = "duct";

    let contents = "\
Rust:
safe, fast, productive.
Pick three.
Duct tape.";

    assert_eq!(vec!["safe, fast, productive."], Config::search(query, contents));
}

#[test]
fn case_insensitive() {
    let query = "rUst";

    let contents = "\
Rust:
safe, fast, productive.
Pick three.
Trust me.";

    assert_eq!(
        vec!["Rust:", "Trust me."],
        Config::search_case_insensitive(query, contents)
    );
}

#[test]
fn empty_query_matches_every_line() {
    let contents = "Rust:\nsafe, fast, productive.\nPick three.";
    let all_lines = vec!["Rust:", "safe, fast, productive.", "Pick three."];

    assert_eq!(all_lines, Config::search("", contents));
    assert_eq!(all_lines, Config::search_case_insensitive("", contents));
}

#[test]
fn empty_text_yields_empty_result() {
    assert_eq!(Vec::<&str>::new(), Config::search("duct", ""));
    assert_eq!(Vec::<&str>::new(), Config::search_case_insensitive("duct", ""));
    assert_eq!(Vec::<&str>::new(), Config::search("", ""));
    assert_eq!(Vec::<&str>::new(), Config::search_case_insensitive("", ""));
}

#[test]
fn no_match_yields_empty_result() {
    let contents = "Rust:\nsafe, fast, productive.";
    assert_eq!(Vec::<&str>::new(), Config::search("python", contents));
    assert_eq!(
        Vec::<&str>::new(),
        Config::search_case_insensitive("python", contents)
    );
}

#[test]
fn trailing_newline_adds_no_extra_line() {
    assert_eq!(vec!["a", "b"], Config::search("", "a\nb\n"));
    assert_eq!(vec!["a", "b"], Config::search("", "a\nb"));
}

#[test]
fn carriage_return_belongs_to_terminator() {
    assert_eq!(vec!["Duct"], Config::search("Duct", "Duct\r\ntape"));
    // A carriage return not followed by a line feed stays in the line.
    assert_eq!(vec!["a\r"], Config::search("", "a\r"));
}

#[test]
fn exact_search_is_case_sensitive() {
    let contents = "Rust:\nrust is great.";
    assert_eq!(vec!["Rust:"], Config::search("Rust", contents));
    assert_eq!(vec!["rust is great."], Config::search("rust", contents));
}

#[test]
fn case_insensitive_search_folds_both_sides() {
    let contents = "RUST\nrust\nRuSt\nbust";
    assert_eq!(
        vec!["RUST", "rust", "RuSt"],
        Config::search_case_insensitive("rUsT", contents)
    );
}

#[test]
fn search_lines_selects_the_policy() {
    let exact_contents = "Rust:\nsafe, fast, productive.\nPick three.\nDuct tape.";
    assert_eq!(
        vec!["safe, fast, productive."],
        search_lines("duct", exact_contents, MatchPolicy::Exact)
    );

    let folded_contents = "Rust:\nsafe, fast, productive.\nPick three.\nTrust me.";
    assert_eq!(
        vec!["Rust:", "Trust me."],
        search_lines("rUst", folded_contents, MatchPolicy::CaseInsensitive)
    );
}

#[test]
fn matching_lines_follows_the_configuration() {
    let contents = "Rust:\nTrust me.";
    let exact = Config {
        query: "rUst".to_string(),
        file_path: "poem.txt".to_string(),
        ignore_case: false,
    };
    assert_eq!(Vec::<&str>::new(), exact.matching_lines(contents));

    let folded = Config {
        query: "rUst".to_string(),
        file_path: "poem.txt".to_string(),
        ignore_case: true,
    };
    assert_eq!(vec!["Rust:", "Trust me."], folded.matching_lines(contents));
}

#[test]
fn search_is_a_pure_function() {
    let contents = "Rust:\nsafe, fast, productive.\nPick three.\nTrust me.";
    assert_eq!(
        Config::search("st", contents),
        Config::search("st", contents)
    );
    assert_eq!(
        Config::search_case_insensitive("rUst", contents),
        Config::search_case_insensitive("rUst", contents)
    );
}

#[test]
fn build_from_args_takes_query_and_path() {
    let args = vec![
        "minigrep".to_string(),
        "duct".to_string(),
        "poem.txt".to_string(),
    ];
    let config = Config::build_from_args(args, false).unwrap();
    assert_eq!("duct", config.query);
    assert_eq!("poem.txt", config.file_path);
    assert!(!config.ignore_case);

    let args = vec![
        "minigrep".to_string(),
        "duct".to_string(),
        "poem.txt".to_string(),
        "extra".to_string(),
    ];
    let config = Config::build_from_args(args, true).unwrap();
    assert_eq!("duct", config.query);
    assert_eq!("poem.txt", config.file_path);
    assert!(config.ignore_case);
}

#[test]
fn build_from_args_reports_a_missing_query() {
    match Config::build_from_args(Vec::new(), false) {
        Err(message) => assert_eq!("Didn't get a query string", message),
        Ok(_) => panic!("expected an error"),
    }
    match Config::build_from_args(vec!["minigrep".to_string()], false) {
        Err(message) => assert_eq!("Didn't get a query string", message),
        Ok(_) => panic!("expected an error"),
    }
}

#[test]
fn build_from_args_reports_a_missing_file_path() {
    match Config::build_from_args(vec!["minigrep".to_string(), "duct".to_string()], false) {
        Err(message) => assert_eq!("Didn't get a file path", message),
        Ok(_) => panic!("expected an error"),
    }
}
