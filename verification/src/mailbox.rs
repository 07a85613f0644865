//! The single-slot mailbox between the buttons and the control loop.
//!
//! At most one token is pending. A post onto a full slot is refused and the
//! token handed back: the poster has to wait for a drain and post again. A
//! drain of an empty slot yields nothing: the drainer has to wait for a post.

use crate::mode::ModeToken;
use vstd::prelude::*;

verus! {

/// A mailbox that holds at most one token. It remembers, for proofs only,
/// every operation it has been through.
pub struct Mailbox {
    slot: Option<ModeToken>,
    log: Ghost<Seq<MailboxOp>>,
}

/// The slot after a post of `token`: a free slot takes the token, a full one
/// keeps what it holds.
pub open spec fn slot_after_post(slot: Option<ModeToken>, token: ModeToken) -> Option<ModeToken> {
    match slot {
        None => Some(token),
        Some(_) => slot,
    }
}

impl Mailbox {
    /// The slot holds what the operations so far have left in it.
    #[verifier::type_invariant]
    spec fn slot_follows_log(&self) -> bool {
        self.slot == history_of(self.log@).pending
    }

    /// The token that waits in the slot, if any.
    pub closed spec fn pending(&self) -> Option<ModeToken> {
        self.slot
    }

    /// Every post and drain so far, oldest first.
    pub closed spec fn operations(&self) -> Seq<MailboxOp> {
        self.log@
    }

    /// An empty mailbox.
    pub fn new() -> (mailbox: Mailbox)
        ensures
            mailbox.pending() is None,
            mailbox.operations() == Seq::<MailboxOp>::empty(),
            mailbox.pending() == history_of(mailbox.operations()).pending,
    {
        Mailbox { slot: None, log: Ghost(Seq::empty()) }
    }

    /// Whether a token waits in the slot.
    pub fn is_full(&self) -> (full: bool)
        ensures
            full == self.pending() is Some,
            self.pending() == history_of(self.operations()).pending,
    {
        proof {
            use_type_invariant(self);
        }
        self.slot.is_some()
    }

    /// Posts a token. A free slot takes it. A full slot is left as it is and
    /// the token comes back as the error: the poster is blocked until a drain.
    pub fn post(&mut self, token: ModeToken) -> (outcome: Result<(), ModeToken>)
        ensures
            final(self).pending() == slot_after_post(old(self).pending(), token),
            final(self).operations() == old(self).operations().push(MailboxOp::Post(token)),
            old(self).pending() is None ==> outcome == Ok::<(), ModeToken>(()),
            old(self).pending() is Some ==> outcome == Err::<(), ModeToken>(token),
            old(self).pending() == history_of(old(self).operations()).pending,
            final(self).pending() == history_of(final(self).operations()).pending,
    {
        proof {
            use_type_invariant(&*self);
            assert(self.log@.push(MailboxOp::Post(token)).drop_last() =~= self.log@);
        }
        let held = self.slot;
        let log = Ghost(self.log@.push(MailboxOp::Post(token)));
        if held.is_some() {
            *self = Mailbox { slot: held, log };
            Err(token)
        } else {
            *self = Mailbox { slot: Some(token), log };
            Ok(())
        }
    }

    /// Drains the slot. A pending token is removed and returned. An empty slot
    /// yields nothing: the drainer is blocked until a post.
    pub fn drain(&mut self) -> (token: Option<ModeToken>)
        ensures
            token == old(self).pending(),
            final(self).pending() is None,
            final(self).operations() == old(self).operations().push(MailboxOp::Drain),
            old(self).pending() == history_of(old(self).operations()).pending,
            final(self).pending() == history_of(final(self).operations()).pending,
    {
        proof {
            use_type_invariant(&*self);
            assert(self.log@.push(MailboxOp::Drain).drop_last() =~= self.log@);
        }
        let token = self.slot;
        *self = Mailbox { slot: None, log: Ghost(self.log@.push(MailboxOp::Drain)) };
        token
    }
}

/// One operation on the mailbox.
pub enum MailboxOp {
    /// A post of the token.
    Post(ModeToken),
    /// A drain.
    Drain,
}

/// What a run of operations on an empty mailbox has led to.
pub struct MailboxHistory {
    /// The token left in the slot.
    pub pending: Option<ModeToken>,
    /// The tokens that were taken by the slot, in the order of their posts.
    pub accepted: Seq<ModeToken>,
    /// The tokens that drains handed out, in the order of the drains.
    pub delivered: Seq<ModeToken>,
}

/// The history of a run of operations that starts on an empty mailbox.
pub open spec fn history_of(ops: Seq<MailboxOp>) -> MailboxHistory
    decreases ops.len(),
{
    if ops.len() == 0 {
        MailboxHistory { pending: None, accepted: Seq::empty(), delivered: Seq::empty() }
    } else {
        let before = history_of(ops.drop_last());
        match ops.last() {
            MailboxOp::Post(token) => MailboxHistory {
                pending: slot_after_post(before.pending, token),
                accepted: if before.pending is None {
                    before.accepted.push(token)
                } else {
                    before.accepted
                },
                delivered: before.delivered,
            },
            MailboxOp::Drain => MailboxHistory {
                pending: None,
                accepted: before.accepted,
                delivered: match before.pending {
                    Some(token) => before.delivered.push(token),
                    None => before.delivered,
                },
            },
        }
    }
}

/// The pending token as a sequence of length zero or one.
pub open spec fn in_flight(pending: Option<ModeToken>) -> Seq<ModeToken> {
    match pending {
        Some(token) => seq![token],
        None => Seq::empty(),
    }
}

/// Posts, each followed by a drain before the next post.
pub open spec fn separated_posts(tokens: Seq<ModeToken>) -> Seq<MailboxOp>
    decreases tokens.len(),
{
    if tokens.len() == 0 {
        Seq::empty()
    } else {
        separated_posts(tokens.drop_last()).push(MailboxOp::Post(tokens.last())).push(
            MailboxOp::Drain,
        )
    }
}

/// Whatever is posted and drained, and in whatever order: the tokens handed
/// out, followed by the one still pending, are the tokens that were taken, in
/// the order of their posts. So no token is handed out twice, none overtakes
/// another, and at most one is in flight.
pub proof fn lemma_tokens_are_delivered_once_and_in_post_order(ops: Seq<MailboxOp>)
    ensures
        history_of(ops).delivered + in_flight(history_of(ops).pending) =~= history_of(
            ops,
        ).accepted,
        in_flight(history_of(ops).pending).len() <= 1,
    decreases ops.len(),
{
    if ops.len() > 0 {
        lemma_tokens_are_delivered_once_and_in_post_order(ops.drop_last());
    }
}

/// A post onto a full slot changes nothing and is refused, however often it
/// is tried; once the slot has been drained the same post is taken.
pub proof fn lemma_post_while_full_waits_for_a_drain(ops: Seq<MailboxOp>, token: ModeToken)
    requires
        history_of(ops).pending is Some,
    ensures
        history_of(ops.push(MailboxOp::Post(token))) == history_of(ops),
        history_of(ops.push(MailboxOp::Drain).push(MailboxOp::Post(token))).pending == Some(
            token,
        ),
        history_of(ops.push(MailboxOp::Drain).push(MailboxOp::Post(token))).accepted
            == history_of(ops).accepted.push(token),
{
    let retried = ops.push(MailboxOp::Post(token));
    assert(retried.drop_last() =~= ops);
    let drained = ops.push(MailboxOp::Drain);
    assert(drained.drop_last() =~= ops);
    assert(history_of(drained).pending is None);
    assert(history_of(drained).accepted == history_of(ops).accepted);
    assert(drained.push(MailboxOp::Post(token)).drop_last() =~= drained);
}

/// A drain of an empty slot changes nothing and yields nothing, however often
/// it is tried; once a token has been posted the next drain yields that token.
pub proof fn lemma_drain_while_empty_waits_for_a_post(ops: Seq<MailboxOp>, token: ModeToken)
    requires
        history_of(ops).pending is None,
    ensures
        history_of(ops.push(MailboxOp::Drain)) == history_of(ops),
        history_of(ops.push(MailboxOp::Post(token)).push(MailboxOp::Drain)).delivered
            == history_of(ops).delivered.push(token),
        history_of(ops.push(MailboxOp::Post(token)).push(MailboxOp::Drain)).pending is None,
{
    let retried = ops.push(MailboxOp::Drain);
    assert(retried.drop_last() =~= ops);
    let posted = ops.push(MailboxOp::Post(token));
    assert(posted.drop_last() =~= ops);
    assert(history_of(posted).pending == Some(token));
    assert(history_of(posted).delivered == history_of(ops).delivered);
    assert(posted.push(MailboxOp::Drain).drop_last() =~= posted);
}

/// Posts that are each drained before the next one arrives are all taken and
/// are handed out one by one in the order in which they were posted.
pub proof fn lemma_separated_posts_are_drained_in_order(tokens: Seq<ModeToken>)
    ensures
        history_of(separated_posts(tokens)).delivered =~= tokens,
        history_of(separated_posts(tokens)).accepted =~= tokens,
        history_of(separated_posts(tokens)).pending is None,
    decreases tokens.len(),
{
    if tokens.len() > 0 {
        let earlier = separated_posts(tokens.drop_last());
        lemma_separated_posts_are_drained_in_order(tokens.drop_last());
        lemma_drain_while_empty_waits_for_a_post(earlier, tokens.last());
        let posted = earlier.push(MailboxOp::Post(tokens.last()));
        assert(posted.drop_last() =~= earlier);
        assert(history_of(posted).accepted == history_of(earlier).accepted.push(tokens.last()));
        assert(posted.push(MailboxOp::Drain).drop_last() =~= posted);
        assert(tokens.drop_last().push(tokens.last()) =~= tokens);
    }
}

} // verus!
