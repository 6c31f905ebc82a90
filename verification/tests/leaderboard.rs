use dogchick::leaderboard::parse_leaderboard_results;

fn lb_score(text: &str) -> f32 {
    text.trim().parse().unwrap()
}

#[test]
fn test_parse_leaderboard_results() {
    let json_str = "[{\"username\":\"test\",\"score\":1.0}, {\"score\":1.0,\"username\":\"test\"}]";
    let result = parse_leaderboard_results(json_str);
    assert_eq!(result.len(), 2);
    assert_eq!(result[0].username, "test");
    assert_eq!(lb_score(&result[0].score), 1.0);
    assert_eq!(result[1].username, "test");
    assert_eq!(lb_score(&result[1].score), 1.0);

    let json_str = "[{\"score\":2.0,\"username\":\"test\"}]";
    let result = parse_leaderboard_results(json_str);
    assert_eq!(result.len(), 1);
    assert_eq!(result[0].username, "test");
    assert_eq!(lb_score(&result[0].score), 2.0);

    let json_str = "[]";
    let result = parse_leaderboard_results(json_str);
    assert_eq!(result.len(), 0);
}

#[test]
fn score_is_handed_on_as_it_was_written() {
    let result = parse_leaderboard_results("{\"score\": 12.50 ,\"username\":\"ann\"}");
    assert_eq!(result.len(), 1);
    assert_eq!(result[0].score, " 12.50 ");
    assert_eq!(result[0].username, "ann");
    assert_eq!(lb_score(&result[0].score), 12.5);
}

#[test]
fn name_keeps_what_stands_between_its_quotes() {
    let result = parse_leaderboard_results("{\"username\": \"Zoë B. 7\" ,\"score\":3}");
    assert_eq!(result.len(), 1);
    assert_eq!(result[0].username, "Zoë B. 7");
    assert_eq!(result[0].score, "3");
}

#[test]
fn name_loses_the_marks_that_the_reader_goes_by() {
    let result = parse_leaderboard_results("{\"username\":\"a:b}");
    assert_eq!(result.len(), 1);
    assert_eq!(result[0].username, "ab");
    let result = parse_leaderboard_results("{\"username\":\"x,y\",\"score\":1}");
    assert_eq!(result[0].username, "x");
    assert_eq!(result[0].score, "1");
}

#[test]
fn every_closing_brace_gives_a_result() {
    let result = parse_leaderboard_results("}}{}");
    assert_eq!(result.len(), 3);
    for line in result.iter() {
        assert_eq!(line.username, "");
        assert_eq!(line.score, "");
    }
    assert_eq!(parse_leaderboard_results("").len(), 0);
    assert_eq!(parse_leaderboard_results("{\"username\":\"never closed\"").len(), 0);
}

#[test]
fn other_keys_are_told_by_their_letters() {
    let result = parse_leaderboard_results("{\"game\":\"rj\",\"score\":4.0,\"username\":\"bob\"}");
    assert_eq!(result.len(), 1);
    assert_eq!(result[0].username, "bob");
    assert_eq!(result[0].score, "4.0");
    let result = parse_leaderboard_results("{\"id\":7,\"username\":\"bob\"}");
    assert_eq!(result[0].username, "bob");
    assert_eq!(result[0].score, "");
}

#[test]
fn one_line_does_not_leak_into_the_next() {
    let result = parse_leaderboard_results("[{\"username\":\"a\",\"score\":1},{\"score\":2}]");
    assert_eq!(result.len(), 2);
    assert_eq!(result[0].username, "a");
    assert_eq!(result[0].score, "1");
    assert_eq!(result[1].username, "");
    assert_eq!(result[1].score, "2");
}
