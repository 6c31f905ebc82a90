//! What the panels of the game do about the leaderboard: when the score is
//! sent, when the board is fetched, and what is shown meanwhile.
//!
//! Sending and fetching take time and are done elsewhere. Their progress comes
//! back as three flags; the panels decide on them once per frame.

use vstd::prelude::*;

verus! {

/// How far sending the score and fetching the board have got, as those who
/// do the work report it.
#[derive(Clone, Copy, Debug, PartialEq, Eq, Structural)]
pub struct Progress {
    pub error: bool,
    pub finished_sending: bool,
    pub finished_loading: bool,
}

/// What the player did in the panel in this frame.
#[derive(Clone, Copy, Debug, PartialEq, Eq, Structural)]
pub struct Clicks {
    pub retry: bool,
    pub send: bool,
}

/// What the panel at the end of a game remembers: whether it has asked for
/// the score to be sent, and for the board to be fetched.
#[derive(Clone, Copy, Debug, PartialEq, Eq, Structural)]
pub struct Submission {
    pub score_sent: bool,
    pub leaderboard_load: bool,
}

/// What is to be done and shown in this frame.
#[derive(Clone, Copy, Debug, PartialEq, Eq, Structural)]
pub struct Steps {
    pub show_error: bool,
    pub reset_progress: bool,
    pub send_score: bool,
    pub show_sending: bool,
    pub fetch_board: bool,
    pub show_loading: bool,
    pub show_board: bool,
}

/// Nothing to do and nothing to show.
pub open spec fn idle() -> Steps {
    Steps {
        show_error: false,
        reset_progress: false,
        send_score: false,
        show_sending: false,
        fetch_board: false,
        show_loading: false,
        show_board: false,
    }
}

impl Submission {
    /// True when the player is asked for a name: always, but after an error.
    pub open spec fn asks_name(self, progress: Progress) -> bool {
        !progress.error
    }

    /// True when the player is offered to send the score: only while it has
    /// not been sent, and not after an error.
    pub open spec fn offers_send(self, progress: Progress) -> bool {
        !progress.error && !self.score_sent
    }

    /// What the panel remembers after this frame.
    ///
    /// After an error, a click on retry makes it forget everything; nothing
    /// else happens. Otherwise the score counts as sent once the player, with
    /// a name given, has clicked on send, and the board counts as asked for
    /// once the score has arrived.
    pub open spec fn advanced(self, progress: Progress, clicks: Clicks, has_name: bool) -> Submission {
        if progress.error {
            if clicks.retry {
                Submission { score_sent: false, leaderboard_load: false }
            } else {
                self
            }
        } else {
            Submission {
                score_sent: self.score_sent || (has_name && clicks.send),
                leaderboard_load: self.leaderboard_load || progress.finished_sending,
            }
        }
    }

    /// What is to be done and shown in this frame.
    ///
    /// After an error, the error is shown, and a click on retry resets the
    /// progress. Otherwise the score is sent when the player first asks for
    /// it, the board is fetched when the score has arrived and the board has
    /// not been asked for, a notice is shown while either is under way, and
    /// the board is shown once it has arrived.
    pub open spec fn steps(self, progress: Progress, clicks: Clicks, has_name: bool) -> Steps {
        let next = self.advanced(progress, clicks, has_name);
        if progress.error {
            Steps { show_error: true, reset_progress: clicks.retry, ..idle() }
        } else {
            Steps {
                show_error: false,
                reset_progress: false,
                send_score: !self.score_sent && has_name && clicks.send,
                show_sending: next.score_sent && !progress.finished_sending,
                fetch_board: progress.finished_sending && !self.leaderboard_load,
                show_loading: next.leaderboard_load && !progress.finished_loading,
                show_board: progress.finished_loading,
            }
        }
    }

    /// A panel that remembers nothing.
    pub fn new() -> (panel: Submission)
        ensures
            panel == (Submission { score_sent: false, leaderboard_load: false }),
    {
        Submission { score_sent: false, leaderboard_load: false }
    }

    /// Computes [`Submission::offers_send`].
    pub fn can_send(&self, progress: Progress) -> (b: bool)
        ensures
            b == self.offers_send(progress),
    {
        !progress.error && !self.score_sent
    }

    /// Decides on one frame; see [`Submission::advanced`] and
    /// [`Submission::steps`].
    pub fn advance(&mut self, progress: Progress, clicks: Clicks, has_name: bool) -> (steps: Steps)
        ensures
            *final(self) == old(self).advanced(progress, clicks, has_name),
            steps == old(self).steps(progress, clicks, has_name),
            steps.send_score ==> old(self).offers_send(progress) && final(self).score_sent,
            steps.fetch_board ==> !old(self).leaderboard_load && final(self).leaderboard_load,
    {
        if progress.error {
            if clicks.retry {
                self.score_sent = false;
                self.leaderboard_load = false;
            }
            return Steps {
                show_error: true,
                reset_progress: clicks.retry,
                send_score: false,
                show_sending: false,
                fetch_board: false,
                show_loading: false,
                show_board: false,
            };
        }
        let send_score: bool = !self.score_sent && has_name && clicks.send;
        if send_score {
            self.score_sent = true;
        }
        let fetch_board: bool = progress.finished_sending && !self.leaderboard_load;
        if fetch_board {
            self.leaderboard_load = true;
        }
        Steps {
            show_error: false,
            reset_progress: false,
            send_score,
            show_sending: self.score_sent && !progress.finished_sending,
            fetch_board,
            show_loading: self.leaderboard_load && !progress.finished_loading,
            show_board: progress.finished_loading,
        }
    }
}

/// The score is sent at most once, and the board is fetched at most once,
/// until the player retries after an error: a panel that has sent does not
/// send again, and one that has fetched does not fetch again.
pub proof fn lemma_sent_and_fetched_once(
    panel: Submission,
    progress: Progress,
    clicks: Clicks,
    has_name: bool,
)
    ensures
        panel.score_sent ==> !panel.steps(progress, clicks, has_name).send_score,
        panel.leaderboard_load ==> !panel.steps(progress, clicks, has_name).fetch_board,
        !progress.error && panel.score_sent ==> panel.advanced(progress, clicks, has_name).score_sent,
        !progress.error && panel.leaderboard_load ==> panel.advanced(
            progress,
            clicks,
            has_name,
        ).leaderboard_load,
{
}

/// The board on the menu is fetched when the menu is first shown, and shown
/// once it has arrived: gives whether the board counts as asked for after
/// this frame, whether it is to be fetched now, and whether it is shown.
pub fn menu_step(leaderboard_load: bool, finished_loading: bool) -> (step: (bool, bool, bool))
    ensures
        step.0,
        step.1 == !leaderboard_load,
        step.2 == finished_loading,
{
    (true, !leaderboard_load, finished_loading)
}

} // verus!
