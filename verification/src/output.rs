//! Pane output: how parsed actions are gathered before they reach the terminal,
//! and what follows the end of a pane's output.

use crate::mux_model::{PaneId, TerminalSize};
use vstd::prelude::*;

verus! {

/// What a parsed action means for the gathering.
#[derive(Clone, Copy, Debug, PartialEq, Eq, Structural)]
pub enum ActionKind {
    /// A frame of synchronized output begins.
    BeginSynchronized,
    /// A frame of synchronized output ends.
    EndSynchronized,
    /// The terminal is reset.
    SoftReset,
    /// Anything else.
    Other,
}

/// What to do after a read was parsed.
#[derive(Debug)]
pub enum ReadStep<A> {
    /// Read on.
    KeepReading,
    /// Wait this long, in milliseconds, for more to read.
    Poll(u64),
    /// Apply these actions to the pane.
    Send(Vec<A>),
}

/// Gathers the actions of a pane until they are worth sending.
pub struct Coalescer<A> {
    pub pending: Vec<A>,
    pub hold: bool,
    pub action_size: usize,
    pub deadline: Option<u64>,
}

/// The view of a [`Coalescer`].
#[verifier::ext_equal]
pub struct CoalescerView<A> {
    pub pending: Seq<A>,
    pub hold: bool,
    pub action_size: usize,
    pub deadline: Option<u64>,
}

impl<A> View for Coalescer<A> {
    type V = CoalescerView<A>;

    open spec fn view(&self) -> CoalescerView<A> {
        CoalescerView {
            pending: self.pending@,
            hold: self.hold,
            action_size: self.action_size,
            deadline: self.deadline,
        }
    }
}

/// The contents of an optional batch.
pub open spec fn batch<A>(sent: Option<Vec<A>>) -> Seq<A> {
    match sent {
        Some(actions) => actions@,
        None => Seq::empty(),
    }
}

/// The sum of two sizes, at most the greatest size.
pub open spec fn saturated(left: int, right: int, limit: int) -> int {
    if left + right > limit {
        limit
    } else {
        left + right
    }
}

/// What one action does: the gathering after it, and what is sent. An action
/// that begins or ends a frame, or resets, is sent at once, after all that was
/// gathered before it.
pub open spec fn after_action<A>(
    c: CoalescerView<A>,
    kind: ActionKind,
    action: A,
) -> (CoalescerView<A>, Option<Seq<A>>) {
    let gathered = c.pending.push(action);
    match kind {
        ActionKind::Other => (CoalescerView { pending: gathered, ..c }, None),
        _ => (
            CoalescerView {
                pending: Seq::empty(),
                hold: kind == ActionKind::BeginSynchronized,
                action_size: 0,
                ..c
            },
            Some(gathered),
        ),
    }
}

/// What the end of a read does: the gathering after it, whether to wait for
/// more and how long, and whether to send.
pub open spec fn after_read<A>(
    c: CoalescerView<A>,
    size: usize,
    buffer_len: usize,
    delay: u64,
    now: u64,
) -> (CoalescerView<A>, Option<u64>, bool) {
    let read = CoalescerView {
        action_size: saturated(c.action_size as int, size as int, usize::MAX as int) as usize,
        ..c
    };
    if read.pending.len() == 0 || read.hold {
        (read, None, false)
    } else if read.action_size < buffer_len {
        match read.deadline {
            None => (
                CoalescerView {
                    deadline: Some(saturated(now as int, delay as int, u64::MAX as int) as u64),
                    ..read
                },
                Some(delay),
                false,
            ),
            Some(target) => if now <= target {
                (read, Some((target - now) as u64), false)
            } else {
                (flushed(read), None, true)
            },
        }
    } else {
        (flushed(read), None, true)
    }
}

/// The gathering after all was sent.
pub open spec fn flushed<A>(c: CoalescerView<A>) -> CoalescerView<A> {
    CoalescerView { pending: Seq::empty(), deadline: None, action_size: 0, ..c }
}

impl<A> Coalescer<A> {
    /// Nothing gathered yet.
    pub fn new() -> (c: Self)
        ensures
            c@ == (CoalescerView::<A> {
                pending: Seq::empty(),
                hold: false,
                action_size: 0,
                deadline: None,
            }),
    {
        let c = Coalescer { pending: Vec::new(), hold: false, action_size: 0, deadline: None };
        assert(c@.pending =~= Seq::<A>::empty());
        c
    }

    fn take_pending(&mut self) -> (actions: Vec<A>)
        ensures
            actions@ == old(self)@.pending,
            final(self)@ == (CoalescerView { pending: Seq::empty(), ..old(self)@ }),
    {
        let mut actions: Vec<A> = Vec::new();
        std::mem::swap(&mut actions, &mut self.pending);
        assert(self@.pending =~= Seq::<A>::empty());
        actions
    }

    /// Gathers one action. What has to be applied now is returned.
    pub fn accept(&mut self, kind: ActionKind, action: A) -> (sent: Option<Vec<A>>)
        ensures
            ({
                let step = after_action(old(self)@, kind, action);
                &&& final(self)@ == step.0
                &&& sent is Some <==> step.1 is Some
                &&& sent is Some ==> sent->0@ == step.1->0
            }),
    {
        let flush = match kind {
            ActionKind::BeginSynchronized => {
                self.hold = true;
                true
            },
            ActionKind::EndSynchronized => {
                self.hold = false;
                true
            },
            ActionKind::SoftReset => {
                self.hold = false;
                true
            },
            ActionKind::Other => false,
        };
        self.pending.push(action);
        if flush {
            let actions = self.take_pending();
            self.action_size = 0;
            Some(actions)
        } else {
            None
        }
    }

    /// Decides what follows a read of so many bytes, once its actions were
    /// gathered.
    pub fn end_of_read(
        &mut self,
        size: usize,
        buffer_len: usize,
        delay: u64,
        now: u64,
    ) -> (step: ReadStep<A>)
        ensures
            ({
                let (after, wait, send) = after_read(old(self)@, size, buffer_len, delay, now);
                &&& final(self)@ == after
                &&& match step {
                    ReadStep::KeepReading => wait is None && !send,
                    ReadStep::Poll(d) => wait == Some(d) && !send,
                    ReadStep::Send(actions) => wait is None && send && actions@
                        == old(self)@.pending,
                }
            }),
    {
        self.action_size = self.action_size.saturating_add(size);
        if self.pending.len() == 0 || self.hold {
            return ReadStep::KeepReading;
        }
        if self.action_size < buffer_len {
            match self.deadline {
                None => {
                    self.deadline = Some(now.saturating_add(delay));
                    return ReadStep::Poll(delay);
                },
                Some(target) => {
                    if now <= target {
                        return ReadStep::Poll(target - now);
                    }
                },
            }
        }
        let actions = self.take_pending();
        self.deadline = None;
        self.action_size = 0;
        ReadStep::Send(actions)
    }

    /// Decides what follows a wait: if nothing can be read, what was gathered is
    /// sent.
    pub fn after_poll(&mut self, readable: bool) -> (sent: Option<Vec<A>>)
        ensures
            sent is Some <==> !readable,
            batch(sent) + final(self)@.pending == old(self)@.pending,
            final(self)@ == if readable {
                old(self)@
            } else {
                flushed(old(self)@)
            },
    {
        if readable {
            assert(batch(None::<Vec<A>>) + self@.pending =~= self@.pending);
            None
        } else {
            let actions = self.take_pending();
            self.deadline = None;
            self.action_size = 0;
            assert(actions@ + self@.pending =~= actions@);
            Some(actions)
        }
    }

    /// What is left when the output ends.
    pub fn finish(&mut self) -> (sent: Option<Vec<A>>)
        ensures
            sent is Some <==> old(self)@.pending.len() > 0,
            batch(sent) == old(self)@.pending,
            final(self)@ == (CoalescerView { pending: Seq::empty(), ..old(self)@ }),
    {
        if self.pending.len() == 0 {
            assert(self@.pending =~= Seq::<A>::empty());
            None
        } else {
            Some(self.take_pending())
        }
    }
}

/// The gathering after a row of actions, and all that was sent by then.
pub open spec fn after_actions<A>(
    c: CoalescerView<A>,
    row: Seq<(ActionKind, A)>,
) -> (CoalescerView<A>, Seq<A>)
    decreases row.len(),
{
    if row.len() == 0 {
        (c, Seq::empty())
    } else {
        let (mid, sent) = after_actions(c, row.drop_last());
        let (end, more) = after_action(mid, row.last().0, row.last().1);
        (
            end,
            match more {
                Some(actions) => sent + actions,
                None => sent,
            },
        )
    }
}

/// No action is lost, repeated or reordered: what was sent and what is still
/// gathered are, in order, what was gathered at first and what came in.
pub proof fn law_output_is_complete<A>(c: CoalescerView<A>, row: Seq<(ActionKind, A)>)
    ensures
        ({
            let (end, sent) = after_actions(c, row);
            sent + end.pending == c.pending + row.map_values(|x: (ActionKind, A)| x.1)
        }),
    decreases row.len(),
{
    let inputs = row.map_values(|x: (ActionKind, A)| x.1);
    if row.len() == 0 {
        assert(Seq::<A>::empty() + c.pending =~= c.pending + inputs);
    } else {
        let head = row.drop_last();
        law_output_is_complete(c, head);
        let (mid, sent) = after_actions(c, head);
        let head_inputs = head.map_values(|x: (ActionKind, A)| x.1);
        assert(inputs =~= head_inputs.push(row.last().1));
        let (end, all) = after_actions(c, row);
        assert(all + end.pending =~= (sent + mid.pending).push(row.last().1));
        assert(all + end.pending =~= c.pending + inputs);
    }
}

/// While a frame of synchronized output is held, ordinary actions are gathered
/// and nothing is sent, however much is read.
pub proof fn law_held_frame_is_not_split<A>(
    c: CoalescerView<A>,
    action: A,
    size: usize,
    buffer_len: usize,
    delay: u64,
    now: u64,
)
    requires
        c.hold,
    ensures
        after_action(c, ActionKind::Other, action).1 is None,
        after_action(c, ActionKind::Other, action).0.hold,
        !after_read(c, size, buffer_len, delay, now).2,
        after_read(c, size, buffer_len, delay, now).1 is None,
        after_read(c, size, buffer_len, delay, now).0.pending == c.pending,
{
}

/// Output that was gathered outside a synchronized frame is never left without a
/// bound. After a read it is all sent, exactly where the buffer is full or the
/// deadline is over; else the wait ends no later than the deadline, which a
/// later read does not move.
pub proof fn law_gathered_output_is_not_left_waiting<A>(
    c: CoalescerView<A>,
    size: usize,
    buffer_len: usize,
    delay: u64,
    now: u64,
)
    requires
        !c.hold,
        c.pending.len() > 0,
    ensures
        ({
            let (after, wait, send) = after_read(c, size, buffer_len, delay, now);
            let full = c.action_size + size >= buffer_len;
            let late = c.deadline is Some && now > c.deadline->0;
            &&& send <==> full || late
            &&& send ==> wait is None && after.pending.len() == 0 && after.deadline is None
                && after.action_size == 0
            &&& !send ==> wait is Some && after.deadline is Some && after.pending == c.pending
            &&& !send && c.deadline is Some ==> after.deadline == c.deadline && now + wait->0
                == c.deadline->0
            &&& !send && c.deadline is None ==> wait == Some(delay) && (now + delay <= u64::MAX
                ==> after.deadline == Some((now + delay) as u64))
            &&& !after.hold
        }),
{
}

/// However much is read meanwhile, output is sent once the time that was allowed
/// at its first read is over.
pub proof fn law_gathered_output_is_sent_in_time<A>(
    c: CoalescerView<A>,
    first: usize,
    second: usize,
    buffer_len: usize,
    delay: u64,
    now: u64,
    later: u64,
)
    requires
        !c.hold,
        c.pending.len() > 0,
        c.deadline is None,
        now + delay < later,
    ensures
        after_read(c, first, buffer_len, delay, now).2 || after_read(
            after_read(c, first, buffer_len, delay, now).0,
            second,
            buffer_len,
            delay,
            later,
        ).2,
{
}

/// With nothing gathered, a read leaves everything but the count of bytes as it
/// was, and asks for the next one.
pub proof fn law_nothing_gathered_is_not_sent<A>(
    c: CoalescerView<A>,
    size: usize,
    buffer_len: usize,
    delay: u64,
    now: u64,
)
    requires
        c.pending.len() == 0,
    ensures
        ({
            let (after, wait, send) = after_read(c, size, buffer_len, delay, now);
            &&& wait is None
            &&& !send
            &&& after.pending == c.pending
            &&& after.hold == c.hold
            &&& after.deadline == c.deadline
            &&& c.action_size + size <= usize::MAX ==> after.action_size == c.action_size + size
        }),
{
}

/// The start of a synchronized frame holds the output from there on, its end and
/// a reset release it, and each of the three is sent at once as the last of all
/// that was gathered. Any other action is gathered behind the rest.
pub proof fn law_frame_boundaries_are_sent_at_once<A>(
    c: CoalescerView<A>,
    kind: ActionKind,
    action: A,
)
    ensures
        ({
            let (after, sent) = after_action(c, kind, action);
            &&& after.deadline == c.deadline
            &&& kind == ActionKind::Other ==> sent is None && after.hold == c.hold
                && after.pending.drop_last() == c.pending && after.pending.last() == action
                && after.action_size == c.action_size
            &&& kind != ActionKind::Other ==> sent is Some && sent->0.drop_last() == c.pending
                && sent->0.last() == action && after.pending.len() == 0 && after.action_size == 0
            &&& kind == ActionKind::BeginSynchronized ==> after.hold
            &&& kind == ActionKind::EndSynchronized || kind == ActionKind::SoftReset
                ==> !after.hold
        }),
{
    assert(c.pending.push(action).drop_last() =~= c.pending);
}

/// What happens to a pane when its program has ended.
#[derive(Clone, Copy, Debug, PartialEq, Eq, Structural)]
pub enum ExitBehavior {
    Close,
    CloseOnCleanExit,
    Hold,
}

/// What is done at the end of a pane's output.
#[derive(Clone, Copy, Debug, PartialEq, Eq, Structural)]
pub enum EndAction {
    PruneDeadWindows,
    RemovePane(PaneId),
}

/// Decides what is done at the end of a pane's output, by the pane's own rule or
/// the configured one.
pub fn end_of_output(
    pane_id: PaneId,
    own: Option<ExitBehavior>,
    configured: ExitBehavior,
) -> (action: EndAction)
    ensures
        ({
            let behavior = match own {
                Some(behavior) => behavior,
                None => configured,
            };
            action == if behavior == ExitBehavior::Close {
                EndAction::RemovePane(pane_id)
            } else {
                EndAction::PruneDeadWindows
            }
        }),
{
    let behavior = match own {
        Some(behavior) => behavior,
        None => configured,
    };
    match behavior {
        ExitBehavior::Hold => EndAction::PruneDeadWindows,
        ExitBehavior::CloseOnCleanExit => EndAction::PruneDeadWindows,
        ExitBehavior::Close => EndAction::RemovePane(pane_id),
    }
}

/// The size of a pseudo terminal.
#[derive(Clone, Copy, Debug, PartialEq, Eq, Structural)]
pub struct PtySize {
    pub rows: u16,
    pub cols: u16,
    pub pixel_width: u16,
    pub pixel_height: u16,
}

/// Narrows a terminal's size to that of a pseudo terminal, where it fits.
pub fn terminal_size_to_pty_size(size: TerminalSize) -> (result: Result<PtySize, &'static str>)
    ensures
        ({
            let fits = size.rows <= u16::MAX && size.cols <= u16::MAX && size.pixel_height
                <= u16::MAX && size.pixel_width <= u16::MAX;
            match result {
                Ok(pty) => fits && pty.rows == size.rows && pty.cols == size.cols
                    && pty.pixel_height == size.pixel_height && pty.pixel_width
                    == size.pixel_width,
                Err(reason) => !fits && reason@
                    == "out of range integral type conversion attempted"@,
            }
        }),
{
    let limit: usize = u16::MAX as usize;
    if size.rows > limit || size.cols > limit || size.pixel_height > limit || size.pixel_width
        > limit {
        return Err("out of range integral type conversion attempted");
    }
    Ok(
        PtySize {
            rows: size.rows as u16,
            cols: size.cols as u16,
            pixel_width: size.pixel_width as u16,
            pixel_height: size.pixel_height as u16,
        },
    )
}

} // verus!
