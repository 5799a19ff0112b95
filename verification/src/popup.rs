//! The pop-up queue: at most one pop-up shows at a time; later items wait in
//! a bounded queue and follow one after another. Times are milliseconds of a
//! monotonic clock read by the caller, which also shows and hides the window.

use std::collections::VecDeque;
use vstd::prelude::*;
use crate::model::{ItemModel, NItem};

verus! {

/// The pop-up queue.
pub struct PopupMgr {
    queue: VecDeque<NItem>,
    shown: bool,
    delay: u64,
    maxq: usize,
    deadline: Option<u64>,
}

pub open spec fn queue_view(q: Seq<NItem>) -> Seq<ItemModel> {
    q.map_values(|x: NItem| x@)
}

/// How long a pop-up stays, in milliseconds: at least one second.
pub open spec fn delay_ms(secs: u64) -> nat {
    let s: nat = if secs < 1 { 1 } else { secs as nat };
    if s * 1000 > u64::MAX { u64::MAX as nat } else { s * 1000 }
}

/// `now + delay`, saturating.
pub open spec fn deadline_of(now: u64, delay: u64) -> u64 {
    if now + delay > u64::MAX { u64::MAX } else { (now + delay) as u64 }
}

impl PopupMgr {
    /// A queue is only non-empty while a pop-up shows, and never longer than
    /// its limit.
    pub closed spec fn wf(&self) -> bool {
        &&& (!self.shown ==> self.queue@.len() == 0)
        &&& self.queue@.len() <= self.maxq
    }

    /// The items waiting, first to show first.
    pub closed spec fn waiting(&self) -> Seq<ItemModel> {
        queue_view(self.queue@)
    }

    pub closed spec fn is_shown(&self) -> bool {
        self.shown
    }

    pub closed spec fn delay(&self) -> u64 {
        self.delay
    }

    pub closed spec fn limit(&self) -> usize {
        self.maxq
    }

    /// When the pop-up showing is due to go.
    pub closed spec fn deadline(&self) -> Option<u64> {
        self.deadline
    }

    /// A queue of at most `maxq` waiting items; pop-ups stay `secs` seconds
    /// (at least one).
    pub fn new(secs: u64, maxq: usize) -> (m: Self)
        ensures
            m.wf(),
            !m.is_shown(),
            m.waiting().len() == 0,
            m.delay() == delay_ms(secs),
            m.limit() == maxq,
            m.deadline() is None,
    {
        let s: u64 = if secs < 1 { 1 } else { secs };
        let delay: u64 = match s.checked_mul(1000) {
            Some(d) => d,
            None => u64::MAX,
        };
        let m = PopupMgr { queue: VecDeque::new(), shown: false, delay, maxq, deadline: None };
        assert(m.waiting() =~= Seq::<ItemModel>::empty());
        m
    }

    fn show(&mut self, now: u64)
        ensures
            final(self).shown,
            final(self).deadline == Some(deadline_of(now, old(self).delay)),
            final(self).queue == old(self).queue,
            final(self).delay == old(self).delay,
            final(self).maxq == old(self).maxq,
    {
        self.shown = true;
        self.deadline = Some(match now.checked_add(self.delay) {
            Some(d) => d,
            None => u64::MAX,
        });
    }

    /// A new item: shown at once (and handed back to be displayed) when no
    /// pop-up shows; else queued when the queue has room, dropped otherwise.
    pub fn push(&mut self, it: NItem, now: u64) -> (display: Option<NItem>)
        requires
            old(self).wf(),
        ensures
            final(self).wf(),
            final(self).delay() == old(self).delay(),
            final(self).limit() == old(self).limit(),
            final(self).is_shown(),
            !old(self).is_shown() ==> {
                &&& display matches Some(d) && d@ == it@
                &&& final(self).waiting() == old(self).waiting()
                &&& final(self).deadline() == Some(deadline_of(now, old(self).delay()))
            },
            old(self).is_shown() ==> {
                &&& display is None
                &&& final(self).deadline() == old(self).deadline()
                &&& final(self).waiting() == if old(self).waiting().len() < old(self).limit() {
                    old(self).waiting().push(it@)
                } else {
                    old(self).waiting()
                }
            },
    {
        if self.shown {
            if self.queue.len() < self.maxq {
                let ghost v = it@;
                self.queue.push_back(it);
                assert(queue_view(self.queue@) =~= queue_view(old(self).queue@).push(v));
            }
            None
        } else {
            self.show(now);
            Some(it)
        }
    }

    /// Closes the pop-up showing and hands back the next waiting item, which
    /// now shows.
    pub fn advance(&mut self, now: u64) -> (display: Option<NItem>)
        requires
            old(self).wf(),
        ensures
            final(self).wf(),
            final(self).delay() == old(self).delay(),
            final(self).limit() == old(self).limit(),
            old(self).waiting().len() == 0 ==> {
                &&& display is None
                &&& !final(self).is_shown()
                &&& final(self).deadline() is None
                &&& final(self).waiting().len() == 0
            },
            old(self).waiting().len() > 0 ==> {
                &&& display matches Some(d) && d@ == old(self).waiting()[0]
                &&& final(self).is_shown()
                &&& final(self).deadline() == Some(deadline_of(now, old(self).delay()))
                &&& final(self).waiting() == old(self).waiting().drop_first()
            },
    {
        self.shown = false;
        self.deadline = None;
        match self.queue.pop_front() {
            Some(it) => {
                assert(queue_view(self.queue@) =~= queue_view(old(self).queue@).drop_first());
                self.show(now);
                Some(it)
            },
            None => None,
        }
    }

    /// Whether the pop-up showing is due to go at `now`; the deadline is then
    /// spent, so the answer is `true` once.
    pub fn tick(&mut self, now: u64) -> (due: bool)
        requires
            old(self).wf(),
        ensures
            final(self).wf(),
            due == (old(self).deadline() matches Some(d) && now >= d),
            due ==> final(self).deadline() is None,
            !due ==> final(self).deadline() == old(self).deadline(),
            !due ==> *final(self) == *old(self),
            final(self).waiting() == old(self).waiting(),
            final(self).is_shown() == old(self).is_shown(),
            final(self).delay() == old(self).delay(),
            final(self).limit() == old(self).limit(),
    {
        match self.deadline {
            Some(d) => {
                if now >= d {
                    self.deadline = None;
                    true
                } else {
                    false
                }
            },
            None => false,
        }
    }
}

/// The screen size assumed where the system is not asked for it.
pub fn screen() -> (r: (i32, i32))
    ensures
        r == (1920i32, 1080i32),
{
    (1920, 1080)
}

} // verus!
