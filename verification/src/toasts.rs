//! Notices shown one at a time: the one on screen and the ones waiting behind it.

use vstd::prelude::*;

verus! {

/// How long a notice stays on screen before it closes by itself, in milliseconds.
pub const TOAST_AUTO_DISMISS_MS: u64 = 10000;

/// A change to the notices: one pushed, or the one on screen closed.
pub enum ToastEvent {
    Pushed(String),
    Closed,
}

/// The notices still to be seen after `e`, when `p` were before it: a pushed
/// notice goes last, a close takes away the first (if any).
pub open spec fn notices_after_event(p: Seq<String>, e: ToastEvent) -> Seq<String> {
    match e {
        ToastEvent::Pushed(m) => p.push(m),
        ToastEvent::Closed => if p.len() > 0 {
            p.drop_first()
        } else {
            p
        },
    }
}

/// The notices still to be seen after the events `es`, in order, from `p`.
pub open spec fn notices_after(p: Seq<String>, es: Seq<ToastEvent>) -> Seq<String>
    decreases es.len(),
{
    if es.len() == 0 {
        p
    } else {
        notices_after_event(notices_after(p, es.drop_last()), es.last())
    }
}

/// `b` is what the notices `a` become through `e`.
pub open spec fn toast_step(a: Toasts, b: Toasts, e: ToastEvent) -> bool {
    &&& b.wf()
    &&& b.pending() == notices_after_event(a.pending(), e)
}

/// Pushing each of `ms` in turn.
pub open spec fn pushes(ms: Seq<String>) -> Seq<ToastEvent> {
    ms.map_values(|m: String| ToastEvent::Pushed(m))
}

/// Closing the notice on screen `k` times.
pub open spec fn closes(k: nat) -> Seq<ToastEvent> {
    Seq::new(k, |i: int| ToastEvent::Closed)
}

/// The notice on screen, the notices waiting, and when the one on screen appeared.
pub struct Toasts {
    pub current: Option<String>,
    pub queue: std::collections::VecDeque<String>,
    /// When the notice on screen appeared (milliseconds on the caller's clock).
    pub shown_at_ms: Option<u64>,
}

impl Toasts {
    /// Notices wait only behind one on screen.
    pub open spec fn wf(self) -> bool {
        self.current is None ==> self.queue@.len() == 0
    }

    /// The notices still to be seen, in order: the one on screen first.
    pub open spec fn pending(self) -> Seq<String> {
        match self.current {
            Some(m) => seq![m] + self.queue@,
            None => self.queue@,
        }
    }

    /// No notice; or `first` on screen since `now_ms`.
    pub fn new(first: Option<String>, now_ms: u64) -> (r: Toasts)
        ensures
            r.wf(),
            r.current == first,
            r.queue@ == Seq::<String>::empty(),
            r.shown_at_ms == (if first is Some {
                Some(now_ms)
            } else {
                None::<u64>
            }),
    {
        let shown_at_ms = match &first {
            Some(_) => Some(now_ms),
            None => None,
        };
        Toasts { current: first, queue: std::collections::VecDeque::new(), shown_at_ms }
    }

    /// Shows `msg` now when no notice is on screen; otherwise queues it.
    pub fn push(&mut self, msg: String, now_ms: u64)
        ensures
            old(self).current is None ==> final(self).current == Some(msg) && final(self).queue@
                == old(self).queue@ && final(self).shown_at_ms == Some(now_ms),
            old(self).current is Some ==> final(self).current == old(self).current
                && final(self).queue@ == old(self).queue@.push(msg) && final(self).shown_at_ms
                == old(self).shown_at_ms,
            old(self).wf() ==> final(self).wf(),
            old(self).wf() ==> final(self).pending() == old(self).pending().push(msg),
            old(self).wf() ==> toast_step(*old(self), *final(self), ToastEvent::Pushed(msg)),
    {
        if self.current.is_none() {
            self.current = Some(msg);
            self.shown_at_ms = Some(now_ms);
        } else {
            self.queue.push_back(msg);
        }
        proof {
            if old(self).wf() {
                if old(self).current is Some {
                    assert(self.pending() =~= old(self).pending().push(msg));
                } else {
                    assert(self.pending() =~= old(self).pending().push(msg));
                }
            }
        }
    }

    /// Closes the notice on screen; the first waiting one (if any) takes its place
    /// from `now_ms` on.
    pub fn dismiss(&mut self, now_ms: u64)
        ensures
            old(self).queue@.len() > 0 ==> final(self).current == Some(old(self).queue@[0])
                && final(self).queue@ == old(self).queue@.drop_first() && final(self).shown_at_ms
                == Some(now_ms),
            old(self).queue@.len() == 0 ==> final(self).current is None && final(self).queue@
                == old(self).queue@ && final(self).shown_at_ms is None,
            final(self).wf(),
            old(self).wf() && old(self).current is Some ==> final(self).pending() == old(self).pending().drop_first(),
            old(self).wf() && old(self).current is None ==> final(self).pending().len() == 0,
            old(self).wf() ==> toast_step(*old(self), *final(self), ToastEvent::Closed),
    {
        self.current = self.queue.pop_front();
        self.shown_at_ms = match &self.current {
            Some(_) => Some(now_ms),
            None => None,
        };
        proof {
            if old(self).queue@.len() > 0 {
                assert(self.queue@ =~= old(self).queue@.drop_first());
            }
            if old(self).wf() {
                if old(self).current is Some {
                    if old(self).queue@.len() > 0 {
                        assert(self.pending() =~= old(self).pending().drop_first());
                    } else {
                        assert(self.pending() =~= old(self).pending().drop_first());
                    }
                }
            }
        }
    }

    /// Closes the notice on screen once it has been there for
    /// `TOAST_AUTO_DISMISS_MS`; reports whether it did. A notice without a start
    /// time counts from `now_ms`.
    pub fn tick_auto_dismiss(&mut self, now_ms: u64) -> (closed: bool)
        ensures
            old(self).current is None ==> !closed && final(self).current is None
                && final(self).queue@ == old(self).queue@ && final(self).shown_at_ms is None,
            old(self).current is Some ==> ({
                let since = match old(self).shown_at_ms {
                    Some(t) => t,
                    None => now_ms,
                };
                &&& closed == (now_ms >= since && now_ms - since >= TOAST_AUTO_DISMISS_MS)
                &&& closed ==> (old(self).queue@.len() > 0 ==> final(self).current == Some(
                    old(self).queue@[0],
                ) && final(self).queue@ == old(self).queue@.drop_first()
                    && final(self).shown_at_ms == Some(now_ms))
                &&& closed ==> (old(self).queue@.len() == 0 ==> final(self).current is None
                    && final(self).shown_at_ms is None)
                &&& !closed ==> final(self).current == old(self).current && final(self).queue@
                    == old(self).queue@ && final(self).shown_at_ms == Some(since)
            }),
            old(self).wf() ==> final(self).wf(),
            old(self).wf() && closed ==> final(self).pending() == old(self).pending().drop_first(),
            !closed ==> final(self).pending() == old(self).pending(),
            old(self).wf() && closed ==> toast_step(*old(self), *final(self), ToastEvent::Closed),
    {
        if self.current.is_none() {
            self.shown_at_ms = None;
            return false;
        }
        let since = match self.shown_at_ms {
            Some(t) => t,
            None => now_ms,
        };
        self.shown_at_ms = Some(since);
        if now_ms >= since && now_ms - since >= TOAST_AUTO_DISMISS_MS {
            self.dismiss(now_ms);
            return true;
        }
        false
    }
}


/// The notice on screen is the first of those still to be seen.
pub proof fn lemma_on_screen_is_first(t: Toasts)
    requires
        t.wf(),
    ensures
        t.current == (if t.pending().len() > 0 {
            Some(t.pending()[0])
        } else {
            None::<String>
        }),
{
}

/// Replaying `es1` and then `es2` is replaying `es2` after `es1`.
pub proof fn lemma_notices_after_concat(p: Seq<String>, es1: Seq<ToastEvent>, es2: Seq<ToastEvent>)
    ensures
        notices_after(p, es1 + es2) == notices_after(notices_after(p, es1), es2),
    decreases es2.len(),
{
    if es2.len() == 0 {
        assert(es1 + es2 =~= es1);
    } else {
        assert((es1 + es2).drop_last() =~= es1 + es2.drop_last());
        assert((es1 + es2).last() == es2.last());
        lemma_notices_after_concat(p, es1, es2.drop_last());
    }
}

/// Pushing `ms` puts them behind `p`, in order.
pub proof fn lemma_notices_after_pushes(p: Seq<String>, ms: Seq<String>)
    ensures
        notices_after(p, pushes(ms)) == p + ms,
    decreases ms.len(),
{
    if ms.len() == 0 {
        assert(pushes(ms) =~= Seq::<ToastEvent>::empty());
        assert(p + ms =~= p);
    } else {
        assert(pushes(ms).drop_last() =~= pushes(ms.drop_last()));
        lemma_notices_after_pushes(p, ms.drop_last());
        assert(p + ms.drop_last() + seq![ms.last()] =~= p + ms);
    }
}

/// Closing `k` times takes away the first `k` notices (all of them when there
/// are fewer).
pub proof fn lemma_notices_after_closes(p: Seq<String>, k: nat)
    ensures
        notices_after(p, closes(k)) == p.skip(if k < p.len() {
            k as int
        } else {
            p.len() as int
        }),
    decreases k,
{
    if k == 0 {
        assert(closes(k) =~= Seq::<ToastEvent>::empty());
        assert(p.skip(0) =~= p);
    } else {
        assert(closes(k).drop_last() =~= closes((k - 1) as nat));
        lemma_notices_after_closes(p, (k - 1) as nat);
        let q = notices_after(p, closes((k - 1) as nat));
        if k <= p.len() {
            assert(q.drop_first() =~= p.skip(k as int));
        } else {
            assert(q =~= p.skip(p.len() as int));
        }
    }
}

/// Notices are shown one at a time, in the order they were pushed, none lost or
/// repeated: along any run of pushes and closes, what is still to be seen is the
/// replay of those events, and the notice on screen is its first.
pub proof fn lemma_notices_in_push_order(states: Seq<Toasts>, es: Seq<ToastEvent>)
    requires
        states.len() == es.len() + 1,
        states[0].wf(),
        forall|i: int| 0 <= i < es.len() ==> toast_step(#[trigger] states[i], states[i + 1], es[i]),
    ensures
        states.last().wf(),
        states.last().pending() == notices_after(states[0].pending(), es),
        states.last().current == (if notices_after(states[0].pending(), es).len() > 0 {
            Some(notices_after(states[0].pending(), es)[0])
        } else {
            None::<String>
        }),
    decreases es.len(),
{
    if es.len() > 0 {
        let n = es.len() as int;
        assert(toast_step(states[n - 1], states[n], es[n - 1]));
        assert forall|i: int| 0 <= i < es.drop_last().len() implies toast_step(
            #[trigger] states.drop_last()[i],
            states.drop_last()[i + 1],
            es.drop_last()[i],
        ) by {
            assert(toast_step(states[i], states[i + 1], es[i]));
        }
        lemma_notices_in_push_order(states.drop_last(), es.drop_last());
    }
    lemma_on_screen_is_first(states.last());
}

/// From no notice, after pushing `ms` and then closing `k` times, the notice on
/// screen is the `k`-th pushed (counting from 0), or none once all are closed.
pub proof fn lemma_pushed_then_closed(states: Seq<Toasts>, ms: Seq<String>, k: nat)
    requires
        states.len() == ms.len() + k + 1,
        states[0].wf(),
        states[0].current is None,
        forall|i: int|
            0 <= i < ms.len() + k ==> toast_step(
                #[trigger] states[i],
                states[i + 1],
                (pushes(ms) + closes(k))[i],
            ),
    ensures
        k < ms.len() ==> states.last().current == Some(ms[k as int]),
        k >= ms.len() ==> states.last().current is None,
{
    let es = pushes(ms) + closes(k);
    assert(es.len() == ms.len() + k);
    lemma_notices_in_push_order(states, es);
    assert(states[0].pending() =~= Seq::<String>::empty());
    lemma_notices_after_concat(states[0].pending(), pushes(ms), closes(k));
    lemma_notices_after_pushes(states[0].pending(), ms);
    assert(states[0].pending() + ms =~= ms);
    lemma_notices_after_closes(ms, k);
}

} // verus!
