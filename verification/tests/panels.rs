use dogchick::panels::{menu_step, Clicks, Progress, Steps, Submission};

const PA_IDLE: Steps = Steps {
    show_error: false,
    reset_progress: false,
    send_score: false,
    show_sending: false,
    fetch_board: false,
    show_loading: false,
    show_board: false,
};
const PA_QUIET: Progress = Progress { error: false, finished_sending: false, finished_loading: false };
const PA_NO_CLICK: Clicks = Clicks { retry: false, send: false };
const PA_SEND: Clicks = Clicks { retry: false, send: true };

#[test]
fn score_is_sent_when_the_player_asks_for_it_with_a_name() {
    let mut panel = Submission::new();
    assert!(panel.can_send(PA_QUIET));
    assert_eq!(panel.advance(PA_QUIET, PA_NO_CLICK, true), PA_IDLE);
    assert_eq!(panel.advance(PA_QUIET, PA_SEND, false), PA_IDLE);
    assert_eq!(panel, Submission::new());
    let steps = panel.advance(PA_QUIET, PA_SEND, true);
    assert_eq!(steps, Steps { send_score: true, show_sending: true, ..PA_IDLE });
    assert_eq!(panel, Submission { score_sent: true, leaderboard_load: false });
    assert!(!panel.can_send(PA_QUIET));
}

#[test]
fn score_is_sent_only_once() {
    let mut panel = Submission::new();
    panel.advance(PA_QUIET, PA_SEND, true);
    let steps = panel.advance(PA_QUIET, PA_SEND, true);
    assert_eq!(steps, Steps { show_sending: true, ..PA_IDLE });
    assert_eq!(panel, Submission { score_sent: true, leaderboard_load: false });
}

#[test]
fn board_is_fetched_once_the_score_has_arrived() {
    let mut panel = Submission { score_sent: true, leaderboard_load: false };
    let arrived = Progress { finished_sending: true, ..PA_QUIET };
    let steps = panel.advance(arrived, PA_NO_CLICK, true);
    assert_eq!(steps, Steps { fetch_board: true, show_loading: true, ..PA_IDLE });
    assert_eq!(panel, Submission { score_sent: true, leaderboard_load: true });
    let steps = panel.advance(arrived, PA_NO_CLICK, true);
    assert_eq!(steps, Steps { show_loading: true, ..PA_IDLE });
    let loaded = Progress { finished_loading: true, ..arrived };
    let steps = panel.advance(loaded, PA_NO_CLICK, true);
    assert_eq!(steps, Steps { show_board: true, ..PA_IDLE });
    assert_eq!(panel, Submission { score_sent: true, leaderboard_load: true });
}

#[test]
fn error_is_shown_until_the_player_retries() {
    let mut panel = Submission { score_sent: true, leaderboard_load: true };
    let failed = Progress { error: true, finished_sending: true, finished_loading: true };
    assert!(!panel.can_send(failed));
    let steps = panel.advance(failed, PA_SEND, true);
    assert_eq!(steps, Steps { show_error: true, ..PA_IDLE });
    assert_eq!(panel, Submission { score_sent: true, leaderboard_load: true });
    let steps = panel.advance(failed, Clicks { retry: true, send: false }, true);
    assert_eq!(steps, Steps { show_error: true, reset_progress: true, ..PA_IDLE });
    assert_eq!(panel, Submission::new());
    assert!(panel.can_send(PA_QUIET));
}

#[test]
fn menu_fetches_its_board_once_and_shows_it_when_it_has_come() {
    assert_eq!(menu_step(false, false), (true, true, false));
    assert_eq!(menu_step(true, false), (true, false, false));
    assert_eq!(menu_step(true, true), (true, false, true));
    assert_eq!(menu_step(false, true), (true, true, true));
}
