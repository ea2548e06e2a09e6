//! Keeping track of the justification requests a node makes, and deciding which to make.
use vstd::prelude::*;

use crate::primitives::{block_id_eq, hash_eq, BlockHash, BlockId, BlockNumber};

verus! {

/// How many tries are needed before the status is reported.
pub const REPORT_THRESHOLD: u32 = 2;

/// The state of the justification requests: the block last requested and how many times in a
/// row, the finalized block whose children were last requested and how many times in a row.
pub struct JustificationRequestStatus {
    block_hash_number: Option<BlockId>,
    block_tries: u32,
    parent: Option<BlockHash>,
    n_children: usize,
    children_tries: u32,
    report_threshold: u32,
}

/// The view of a request status.
pub struct RequestStatusView {
    pub block: Option<([u8; 32], u32)>,
    pub block_tries: u32,
    pub parent: Option<[u8; 32]>,
    pub n_children: usize,
    pub children_tries: u32,
    pub report_threshold: u32,
}

impl View for JustificationRequestStatus {
    type V = RequestStatusView;

    closed spec fn view(&self) -> RequestStatusView {
        RequestStatusView {
            block: match self.block_hash_number {
                Some(b) => Some(b@),
                None => None,
            },
            block_tries: self.block_tries,
            parent: match self.parent {
                Some(p) => Some(p@),
                None => None,
            },
            n_children: self.n_children,
            children_tries: self.children_tries,
            report_threshold: self.report_threshold,
        }
    }
}

/// A status is consistent: a saved block, or a saved parent, was requested at least once,
/// and the report threshold is the constant one.
pub open spec fn status_wf(v: RequestStatusView) -> bool {
    &&& v.block is Some ==> v.block_tries >= 1
    &&& v.parent is Some ==> v.children_tries >= 1
    &&& v.report_threshold == REPORT_THRESHOLD
}

/// Whether the status is to be reported: a block or the children of a block were requested
/// at least as often as the threshold.
pub open spec fn report_due(v: RequestStatusView) -> bool {
    v.block_tries >= v.report_threshold || v.children_tries >= v.report_threshold
}

/// The status after the `n` children of the finalized block `hash` were requested: one more
/// try when they are the children of the parent saved last, a first one otherwise.
pub open spec fn after_save_children(v: RequestStatusView, hash: [u8; 32], n: usize) -> RequestStatusView {
    RequestStatusView {
        parent: Some(hash),
        n_children: n,
        children_tries: if v.parent == Some(hash) {
            (v.children_tries + 1) as u32
        } else {
            1
        },
        ..v
    }
}

/// When the block was not requested often enough to be reported, saving the children of
/// `hash` makes the status due for a report exactly when the children of `hash` were the
/// ones saved last: the children of one block requested twice in a row are reported.
pub proof fn lemma_repeated_parent_reported(v: RequestStatusView, hash: [u8; 32], n: usize)
    requires
        status_wf(v),
        v.block_tries < REPORT_THRESHOLD,
        v.parent == Some(hash) ==> v.children_tries < u32::MAX,
    ensures
        status_wf(after_save_children(v, hash, n)),
        report_due(after_save_children(v, hash, n)) <==> v.parent == Some(hash),
{
}

impl JustificationRequestStatus {
    /// The status is consistent.
    #[verifier::type_invariant]
    spec fn consistent(self) -> bool {
        status_wf(self@)
    }

    /// A status with nothing requested yet.
    pub fn new() -> (res: JustificationRequestStatus)
        ensures
            res@ == (RequestStatusView {
                block: None,
                block_tries: 0,
                parent: None,
                n_children: 0,
                children_tries: 0,
                report_threshold: REPORT_THRESHOLD,
            }),
    {
        JustificationRequestStatus {
            block_hash_number: None,
            block_tries: 0,
            parent: None,
            n_children: 0,
            children_tries: 0,
            report_threshold: REPORT_THRESHOLD,
        }
    }

    /// Notes that the `n_children` children of the finalized block `hash` were requested.
    pub fn save_children(&mut self, hash: BlockHash, n_children: usize)
        requires
            old(self)@.parent == Some(hash@) ==> old(self)@.children_tries < u32::MAX,
        ensures
            final(self)@ == after_save_children(old(self)@, hash@, n_children),
            status_wf(final(self)@),
    {
        proof {
            use_type_invariant(&*self);
        }
        let same = match self.parent {
            Some(p) => hash_eq(&p, &hash),
            None => false,
        };
        if same {
            self.children_tries = self.children_tries + 1;
        } else {
            self.children_tries = 1;
            self.parent = Some(hash);
        }
        self.n_children = n_children;
    }

    /// Notes that a justification of block `hn` was requested.
    pub fn save_block(&mut self, hn: BlockId)
        requires
            old(self)@.block == Some(hn@) ==> old(self)@.block_tries < u32::MAX,
        ensures
            final(self)@ == (RequestStatusView {
                block: Some(hn@),
                block_tries: if old(self)@.block == Some(hn@) {
                    (old(self)@.block_tries + 1) as u32
                } else {
                    1
                },
                ..old(self)@
            }),
            status_wf(final(self)@),
    {
        proof {
            use_type_invariant(&*self);
        }
        let same = match self.block_hash_number {
            Some(b) => block_id_eq(&b, &hn),
            None => false,
        };
        if same {
            self.block_tries = self.block_tries + 1;
        } else {
            self.block_tries = 1;
            self.block_hash_number = Some(hn);
        }
    }

    /// Forgets all requests: the status is then that of a new one.
    pub fn reset(&mut self)
        ensures
            final(self)@ == (RequestStatusView {
                block: None,
                block_tries: 0,
                parent: None,
                n_children: 0,
                children_tries: 0,
                report_threshold: REPORT_THRESHOLD,
            }),
            status_wf(final(self)@),
    {
        proof {
            use_type_invariant(&*self);
        }
        self.block_hash_number = None;
        self.block_tries = 0;
        self.parent = None;
        self.n_children = 0;
        self.children_tries = 0;
    }

    /// Whether a block or the children of a block were requested often enough to be reported.
    pub fn should_report(&self) -> (res: bool)
        ensures
            status_wf(self@),
            res == report_due(self@),
    {
        proof {
            use_type_invariant(self);
        }
        self.block_tries >= self.report_threshold || self.children_tries >= self.report_threshold
    }

    /// The block whose justification was requested last, and how many times in a row.
    pub fn block_request(&self) -> (res: (Option<BlockId>, u32))
        ensures
            match res.0 {
                Some(b) => self@.block == Some(b@),
                None => self@.block is None,
            },
            res.1 == self@.block_tries,
    {
        (self.block_hash_number, self.block_tries)
    }

    /// The finalized block whose children were requested last, and how many times in a row.
    pub fn children_request(&self) -> (res: (Option<BlockHash>, u32))
        ensures
            match res.0 {
                Some(p) => self@.parent == Some(p@),
                None => self@.parent is None,
            },
            res.1 == self@.children_tries,
    {
        (self.parent, self.children_tries)
    }

    /// The block whose justification was requested, with the number of tries, when it is to
    /// be reported.
    pub fn reported_block(&self) -> (res: Option<(BlockId, u32)>)
        ensures
            match res {
                Some((b, tries)) => self@.block_tries >= self@.report_threshold && self@.block
                    == Some(b@) && tries == self@.block_tries,
                None => !(self@.block_tries >= self@.report_threshold && self@.block is Some),
            },
    {
        if self.block_tries >= self.report_threshold {
            match self.block_hash_number {
                Some(b) => Some((b, self.block_tries)),
                None => None,
            }
        } else {
            None
        }
    }

    /// The finalized block whose children were requested, with the number of children and
    /// tries, when it is to be reported.
    pub fn reported_children(&self) -> (res: Option<(BlockHash, usize, u32)>)
        ensures
            match res {
                Some((p, n, tries)) => self@.children_tries >= self@.report_threshold
                    && self@.parent == Some(p@) && n == self@.n_children && tries
                    == self@.children_tries,
                None => !(self@.children_tries >= self@.report_threshold && self@.parent is Some),
            },
    {
        if self.children_tries >= self.report_threshold {
            match self.parent {
                Some(p) => Some((p, self.n_children, self.children_tries)),
                None => None,
            }
        } else {
            None
        }
    }
}

/// A justification notification for a block with `number` is acted upon only when the block is
/// above the last finalized one and not above the last block of the session.
pub open spec fn in_finalization_range(number: u32, last_finalized: u32, stop_h: u32) -> bool {
    last_finalized < number <= stop_h
}

/// Whether a justification for block number `number` should be verified and finalized.
pub fn should_handle_notification(number: BlockNumber, last_finalized: BlockNumber, stop_h: BlockNumber) -> (res: bool)
    ensures
        res == in_finalization_range(number, last_finalized, stop_h),
{
    !(number <= last_finalized || number > stop_h)
}

/// The number of the block to request a justification of when we want `top_wanted`: at most
/// one below the best block (which is most likely not finalized yet), and nothing when that is
/// not at least two above the finalized block (whose child is requested anyway).
pub open spec fn wanted_target(top_wanted: u32, best: u32, finalized: u32) -> Option<u32> {
    let target = if best <= top_wanted {
        if best == 0 {
            0u32
        } else {
            (best - 1) as u32
        }
    } else {
        top_wanted
    };
    if target <= finalized + 1 {
        None
    } else {
        Some(target)
    }
}

/// Decides whether to request the justification of a block when `top_wanted` is wanted.
pub fn wanted_block_number(top_wanted: BlockNumber, best: BlockNumber, finalized: BlockNumber) -> (res: Option<BlockNumber>)
    ensures
        res == wanted_target(top_wanted, best, finalized),
{
    let target = if best <= top_wanted {
        best.saturating_sub(1)
    } else {
        top_wanted
    };
    if target <= finalized || target - finalized <= 1 {
        None
    } else {
        Some(target)
    }
}

/// What becomes of a justification notification.
#[derive(Clone, Copy, Debug, PartialEq, Eq, Structural)]
pub enum NotificationVerdict {
    /// The block is finalized already or lies beyond the session: nothing is done.
    OutOfRange,
    /// The justification does not verify: nothing is done.
    BadJustification,
    /// The block is to be finalized with the justification.
    Finalize,
}

/// What to do with a justification for block number `number`, given whether it verified
/// (which is only asked when the block is in range).
pub open spec fn notification_verdict_of(
    number: u32,
    last_finalized: u32,
    stop_h: u32,
    verified: bool,
) -> NotificationVerdict {
    if !in_finalization_range(number, last_finalized, stop_h) {
        NotificationVerdict::OutOfRange
    } else if !verified {
        NotificationVerdict::BadJustification
    } else {
        NotificationVerdict::Finalize
    }
}

/// A justification notification is acted upon exactly for the blocks above the last
/// finalized one up to the session's last block, that block included: such a block is
/// finalized exactly when its justification verifies, and any other notification is out of
/// range, whatever the justification.
pub proof fn lemma_notifications_finalize_up_to_session_end(
    number: u32,
    last_finalized: u32,
    stop_h: u32,
    verified: bool,
)
    ensures
        in_finalization_range(number, last_finalized, stop_h) <==> (last_finalized < number
            && number <= stop_h),
        notification_verdict_of(number, last_finalized, stop_h, verified)
            == NotificationVerdict::Finalize <==> (last_finalized < number && number <= stop_h
            && verified),
        notification_verdict_of(number, last_finalized, stop_h, verified)
            == NotificationVerdict::OutOfRange <==> (number <= last_finalized || stop_h < number),
        last_finalized < stop_h ==> notification_verdict_of(stop_h, last_finalized, stop_h, true)
            == NotificationVerdict::Finalize,
{
}

/// What the justification request scheduler asks for.
#[derive(Clone, Copy, Debug, PartialEq, Eq, Structural)]
pub enum SchedulerAction {
    Request,
    ClearQueue,
    Wait,
}

/// The requests to make in one round.
pub enum RequestPlan {
    /// Request the justifications of these children of the finalized block, and of the
    /// block with this number, if any.
    Request(Vec<BlockId>, Option<BlockNumber>),
    /// Clear the queue of justification requests.
    ClearQueue,
    /// Do nothing.
    Wait,
}

/// Keeps the status of the justification requests and decides which requests to make. The
/// requests themselves, and the queries to the chain, are made by the caller.
pub struct BlockRequester {
    request_status: JustificationRequestStatus,
}

impl BlockRequester {
    pub closed spec fn status(&self) -> RequestStatusView {
        self.request_status@
    }

    pub fn new() -> (res: BlockRequester)
        ensures
            res.status() == (RequestStatusView {
                block: None,
                block_tries: 0,
                parent: None,
                n_children: 0,
                children_tries: 0,
                report_threshold: REPORT_THRESHOLD,
            }),
    {
        BlockRequester { request_status: JustificationRequestStatus::new() }
    }

    /// The status of the requests.
    pub fn request_status(&self) -> (res: &JustificationRequestStatus)
        ensures
            res@ == self.status(),
    {
        &self.request_status
    }

    /// After a block was finalized, the requests so far are forgotten.
    pub fn on_block_finalized(&mut self)
        ensures
            final(self).status() == (RequestStatusView {
                block: None,
                block_tries: 0,
                parent: None,
                n_children: 0,
                children_tries: 0,
                report_threshold: REPORT_THRESHOLD,
            }),
    {
        self.request_status.reset();
    }

    /// The justifications to request for the children of the finalized block: all of them.
    /// When there are any, the request is noted.
    pub fn request_children(&mut self, finalized_hash: BlockHash, children: Vec<BlockId>) -> (res:
        Vec<BlockId>)
        requires
            children@.len() > 0 && old(self).status().parent == Some(finalized_hash@) ==> old(
                self,
            ).status().children_tries < u32::MAX,
        ensures
            res@ == children@,
            children@.len() == 0 ==> final(self).status() == old(self).status(),
            children@.len() > 0 ==> final(self).status() == (RequestStatusView {
                parent: Some(finalized_hash@),
                n_children: children@.len() as usize,
                children_tries: if old(self).status().parent == Some(finalized_hash@) {
                    (old(self).status().children_tries + 1) as u32
                } else {
                    1
                },
                ..old(self).status()
            }),
    {
        if children.len() != 0 {
            self.request_status.save_children(finalized_hash, children.len());
        }
        children
    }

    /// Notes that the justification of `block_id` was requested because it was wanted.
    pub fn note_wanted_request(&mut self, block_id: BlockId)
        requires
            old(self).status().block == Some(block_id@) ==> old(self).status().block_tries
                < u32::MAX,
        ensures
            final(self).status() == (RequestStatusView {
                block: Some(block_id@),
                block_tries: if old(self).status().block == Some(block_id@) {
                    (old(self).status().block_tries + 1) as u32
                } else {
                    1
                },
                ..old(self).status()
            }),
    {
        self.request_status.save_block(block_id);
    }

    /// Whether the status should be reported.
    pub fn should_report(&self) -> (res: bool)
        ensures
            status_wf(self.status()),
            res == report_due(self.status()),
    {
        self.request_status.should_report()
    }

    /// Decides on a justification notification for block `number`. `verify` is asked only
    /// when the block is in range; a finalization follows only when it says yes.
    pub fn handle_justification_notification<F: Fn(u32) -> bool>(
        &self,
        number: BlockNumber,
        last_finalized: BlockNumber,
        stop_h: BlockNumber,
        verify: F,
    ) -> (res: NotificationVerdict)
        requires
            forall|n: u32| #[trigger] verify.requires((n,)),
        ensures
            !in_finalization_range(number, last_finalized, stop_h) ==> res
                == NotificationVerdict::OutOfRange,
            in_finalization_range(number, last_finalized, stop_h) ==> exists|verified: bool|
                verify.ensures((number,), verified) && res == notification_verdict_of(
                    number,
                    last_finalized,
                    stop_h,
                    verified,
                ),
    {
        if !should_handle_notification(number, last_finalized, stop_h) {
            return NotificationVerdict::OutOfRange;
        }
        let verified = verify(number);
        let res = if !verified {
            NotificationVerdict::BadJustification
        } else {
            NotificationVerdict::Finalize
        };
        assert(verify.ensures((number,), verified) && res == notification_verdict_of(
            number,
            last_finalized,
            stop_h,
            verified,
        ));
        res
    }

    /// After the finalization that a `Finalize` verdict asked for: when it succeeded, the
    /// requests so far are forgotten; otherwise nothing changes.
    pub fn on_finalization_result(&mut self, succeeded: bool)
        ensures
            succeeded ==> final(self).status() == (RequestStatusView {
                block: None,
                block_tries: 0,
                parent: None,
                n_children: 0,
                children_tries: 0,
                report_threshold: REPORT_THRESHOLD,
            }),
            !succeeded ==> final(self).status() == old(self).status(),
    {
        if succeeded {
            self.on_block_finalized();
        }
    }

    /// The requests to make in a round in which the scheduler asks for `action`: when it asks
    /// to request, the children of the finalized block (noted as requested when there are
    /// any) and the wanted block that `wanted_target` picks.
    pub fn request_justification(
        &mut self,
        action: SchedulerAction,
        wanted: BlockNumber,
        finalized: BlockId,
        best_number: BlockNumber,
        children: Vec<BlockId>,
    ) -> (res: RequestPlan)
        requires
            action == SchedulerAction::Request && children@.len() > 0 && old(self).status().parent
                == Some(finalized.hash@) ==> old(self).status().children_tries < u32::MAX,
        ensures
            match action {
                SchedulerAction::Request => res matches RequestPlan::Request(cs, n) && cs@
                    == children@ && n == wanted_target(wanted, best_number, finalized.number)
                    && (children@.len() == 0 ==> final(self).status() == old(self).status())
                    && (children@.len() > 0 ==> final(self).status() == (RequestStatusView {
                    parent: Some(finalized.hash@),
                    n_children: children@.len() as usize,
                    children_tries: if old(self).status().parent == Some(finalized.hash@) {
                        (old(self).status().children_tries + 1) as u32
                    } else {
                        1
                    },
                    ..old(self).status()
                })),
                SchedulerAction::ClearQueue => res is ClearQueue && final(self).status() == old(
                    self,
                ).status(),
                SchedulerAction::Wait => res is Wait && final(self).status() == old(self).status(),
            },
    {
        match action {
            SchedulerAction::Request => {
                let cs = self.request_children(finalized.hash, children);
                let n = wanted_block_number(wanted, best_number, finalized.number);
                RequestPlan::Request(cs, n)
            },
            SchedulerAction::ClearQueue => RequestPlan::ClearQueue,
            SchedulerAction::Wait => RequestPlan::Wait,
        }
    }
}

} // verus!
