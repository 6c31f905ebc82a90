//! Reading the leaderboard that the score server sends.
//!
//! The server sends a list of records, each between braces, with a name under
//! a key that holds a `u` and a score under a key that holds an `o`, in either
//! order. The reader goes through the text once, character by character, and
//! keeps four flags; it does not check that the text is well formed.

use vstd::prelude::*;
use vstd::std_specs::iter::IteratorSpec;

verus! {

/// One line of the leaderboard: a name, and the score as it was written.
#[derive(Debug, PartialEq, Eq)]
pub struct LeaderboardResult {
    pub username: String,
    pub score: String,
}

/// One line of the leaderboard, as sequences of characters.
pub struct Line {
    pub username: Seq<char>,
    pub score: Seq<char>,
}

/// What the reader knows after part of the text: the lines that are complete,
/// the name and the score read so far of the line at hand, and whether it is
/// under the key of a name, under the key of a score, inside quotes, and past
/// a colon.
pub struct Reading {
    pub lines: Seq<Line>,
    pub username: Seq<char>,
    pub score: Seq<char>,
    pub in_username: bool,
    pub in_score: bool,
    pub in_str: bool,
    pub in_value: bool,
}

/// What the reader knows before it has read anything.
pub open spec fn start() -> Reading {
    Reading {
        lines: Seq::empty(),
        username: Seq::empty(),
        score: Seq::empty(),
        in_username: false,
        in_score: false,
        in_str: false,
        in_value: false,
    }
}

/// What the reader knows after one more character.
///
/// A closing brace completes the line at hand. Inside quotes and before the
/// colon, a `u` marks the key of a name and an `o` the key of a score. A comma
/// ends a value and a key, a colon begins a value, and a quote opens or closes
/// quotes. Any other character is added to the name if it stands in quotes in
/// the value of a name, and to the score if it stands in the value of a score.
pub open spec fn read(r: Reading, c: char) -> Reading {
    if c == '}' {
        Reading {
            lines: r.lines.push(Line { username: r.username, score: r.score }),
            username: Seq::empty(),
            score: Seq::empty(),
            in_username: false,
            in_score: false,
            in_value: false,
            ..r
        }
    } else if c == 'u' && r.in_str && !r.in_value {
        Reading { in_username: true, in_score: false, ..r }
    } else if c == 'o' && r.in_str && !r.in_value {
        Reading { in_score: true, in_username: false, ..r }
    } else if c == ',' {
        Reading { in_value: false, in_username: false, in_score: false, ..r }
    } else if c == ':' {
        Reading { in_value: true, ..r }
    } else if c == '"' {
        Reading { in_str: !r.in_str, ..r }
    } else if r.in_username && r.in_str && r.in_value {
        Reading { username: r.username.push(c), ..r }
    } else if r.in_score && r.in_value {
        Reading { score: r.score.push(c), ..r }
    } else {
        r
    }
}

/// What the reader knows after the whole of `text`.
pub open spec fn read_all(text: Seq<char>) -> Reading
    decreases text.len(),
{
    if text.len() == 0 {
        start()
    } else {
        read(read_all(text.drop_last()), text.last())
    }
}

/// True when `results` holds the lines `lines`, in their order.
pub open spec fn holds(results: Seq<LeaderboardResult>, lines: Seq<Line>) -> bool {
    &&& results.len() == lines.len()
    &&& forall|k: int|
        0 <= k < lines.len() ==> (#[trigger] results[k]).username@ == lines[k].username
            && results[k].score@ == lines[k].score
}

/// `String::push` of std adds the character to the end of the string.
pub assume_specification[ String::push ](s: &mut String, ch: char)
    ensures
        final(s)@ == old(s)@.push(ch),
;

/// Reads the leaderboard out of `json_str`: one result for each closing brace
/// of the text, with the name and the score that were read since the brace
/// before it; see [`read`]. The score is handed on as it was written, blanks
/// included.
pub fn parse_leaderboard_results(json_str: &str) -> (results: Vec<LeaderboardResult>)
    ensures
        holds(results@, read_all(json_str@).lines),
{
    let mut results: Vec<LeaderboardResult> = Vec::new();
    let mut username: String = String::new();
    let mut score: String = String::new();
    let mut in_username: bool = false;
    let mut in_score: bool = false;
    let mut in_str: bool = false;
    let mut in_value: bool = false;
    let mut chars = json_str.chars();
    let ghost mut seen: Seq<char> = Seq::empty();
    let ghost mut reading: Reading = start();
    proof {
        broadcast use vstd::string::group_string_axioms;

        assert(seen + chars.remaining() == json_str@);
    }
    loop
        invariant
            chars.obeys_prophetic_iter_laws(),
            chars.decrease() is Some,
            seen + chars.remaining() == json_str@,
            reading == read_all(seen),
            holds(results@, reading.lines),
            username@ == reading.username,
            score@ == reading.score,
            in_username == reading.in_username,
            in_score == reading.in_score,
            in_str == reading.in_str,
            in_value == reading.in_value,
        ensures
            holds(results@, read_all(json_str@).lines),
        decreases chars.decrease()->0,
    {
        let ghost before = chars;
        let next: Option<char> = chars.next();
        proof {
            broadcast use vstd::string::group_string_axioms;

        }
        match next {
            None => {
                assert(before.remaining().len() == 0);
                assert(seen == json_str@);
                break ;
            },
            Some(c) => {
                proof {
                    assert(seen.push(c) + chars.remaining() == json_str@);
                    assert(seen.push(c).drop_last() == seen);
                    seen = seen.push(c);
                    reading = read(reading, c);
                }
                if c == '}' {
                    let ghost lines = results@;
                    results.push(LeaderboardResult { username, score });
                    username = String::new();
                    score = String::new();
                    in_username = false;
                    in_score = false;
                    in_value = false;
                    assert forall|k: int| 0 <= k < reading.lines.len() implies (
                    #[trigger] results@[k]).username@ == reading.lines[k].username
                        && results@[k].score@ == reading.lines[k].score by {
                        if k < lines.len() {
                            assert(results@[k] == lines[k]);
                        }
                    }
                } else if c == 'u' && in_str && !in_value {
                    in_username = true;
                    in_score = false;
                } else if c == 'o' && in_str && !in_value {
                    in_score = true;
                    in_username = false;
                } else if c == ',' {
                    in_value = false;
                    in_username = false;
                    in_score = false;
                } else if c == ':' {
                    in_value = true;
                } else if c == '"' {
                    in_str = !in_str;
                } else if in_username && in_str && in_value {
                    username.push(c);
                } else if in_score && in_value {
                    score.push(c);
                }
            },
        }
    }
    results
}

} // verus!
