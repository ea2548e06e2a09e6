//! The decisions of the justification handler's loop: which session to ask about, whether
//! to wait for a verifier or for a notification, and when to report the status.
use vstd::prelude::*;

use crate::primitives::BlockNumber;
use crate::STATUS_REPORT_INTERVAL_SECS;

verus! {

/// How long to wait, in milliseconds, for a verifier and for a notification.
#[derive(Clone, Copy, Debug, PartialEq, Eq, Structural)]
pub struct JustificationHandlerConfig {
    pub verifier_timeout_ms: u64,
    pub notification_timeout_ms: u64,
}

/// What the handler waits for next.
#[derive(Clone, Copy, Debug, PartialEq, Eq, Structural)]
pub enum HandlerAction {
    /// No verifier is available for the session yet: sleep this long and ask again.
    WaitForVerifier(u64),
    /// Wait this long for a notification, handling it with the session's last block as the
    /// limit; then request justifications up to that block.
    AwaitNotification(u64, BlockNumber),
}

/// The state of the justification handler's loop.
pub struct JustificationHandler {
    config: JustificationHandlerConfig,
    last_status_report_ms: u64,
}

impl JustificationHandler {
    pub closed spec fn config(&self) -> JustificationHandlerConfig {
        self.config
    }

    /// When the status was last reported, in milliseconds.
    pub closed spec fn last_status_report(&self) -> u64 {
        self.last_status_report_ms
    }

    /// A handler started at `now_ms`.
    pub fn new(config: JustificationHandlerConfig, now_ms: u64) -> (res: JustificationHandler)
        ensures
            res.config() == config,
            res.last_status_report() == now_ms,
    {
        JustificationHandler { config, last_status_report_ms: now_ms }
    }

    /// The block whose session is asked about: the one after the last finalized block.
    pub fn session_query(&self, last_finalized: BlockNumber) -> (res: BlockNumber)
        requires
            last_finalized < u32::MAX,
        ensures
            res == last_finalized + 1,
    {
        last_finalized + 1
    }

    /// What to wait for once the session's information is known.
    pub fn on_session_info(&self, has_verifier: bool, last_block_height: BlockNumber) -> (res:
        HandlerAction)
        ensures
            res == if has_verifier {
                HandlerAction::AwaitNotification(
                    self.config().notification_timeout_ms,
                    last_block_height,
                )
            } else {
                HandlerAction::WaitForVerifier(self.config().verifier_timeout_ms)
            },
    {
        if has_verifier {
            HandlerAction::AwaitNotification(self.config.notification_timeout_ms, last_block_height)
        } else {
            HandlerAction::WaitForVerifier(self.config.verifier_timeout_ms)
        }
    }

    /// Whether the status is due to be reported at `now_ms`: when the report interval has
    /// passed since the last report (a clock that went back counts as no time). A due report
    /// counts as made at `now_ms`.
    pub fn status_report_due(&mut self, now_ms: u64) -> (res: bool)
        ensures
            res == (if now_ms >= old(self).last_status_report() {
                now_ms - old(self).last_status_report()
            } else {
                0
            } >= STATUS_REPORT_INTERVAL_SECS * 1000),
            final(self).config() == old(self).config(),
            final(self).last_status_report() == if res {
                now_ms
            } else {
                old(self).last_status_report()
            },
    {
        let elapsed = now_ms.saturating_sub(self.last_status_report_ms);
        if elapsed >= STATUS_REPORT_INTERVAL_SECS * 1000 {
            self.last_status_report_ms = now_ms;
            true
        } else {
            false
        }
    }
}

} // verus!
