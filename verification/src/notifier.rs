//! The pop-up notifier's event pump: what each backend event and each tick of
//! the clock do to the notification center and the pop-up queue. The caller
//! reads the clocks, shows the pop-up it is handed and prints the status.

use vstd::prelude::*;
use crate::backend::Ev;
use crate::config::FilterCfg;
use crate::model::{after, item_spec, passes, passes_spec, to_item_at, IdSequence, ItemModel, NItem};
use crate::popup::{deadline_of, PopupMgr};
use crate::store::{add_spec, retimed, view_spec, Store};
use crate::text::{lowercase, texts};

verus! {

/// `new` is `old` after `it` was pushed at `now`, `display` being what shows.
pub open spec fn pushed(old: PopupMgr, new: PopupMgr, it: ItemModel, now: u64, display: Option<NItem>) -> bool {
    &&& new.wf()
    &&& new.delay() == old.delay()
    &&& new.limit() == old.limit()
    &&& new.is_shown()
    &&& !old.is_shown() ==> {
        &&& display matches Some(d) && d@ == it
        &&& new.waiting() == old.waiting()
        &&& new.deadline() == Some(deadline_of(now, old.delay()))
    }
    &&& old.is_shown() ==> {
        &&& display is None
        &&& new.deadline() == old.deadline()
        &&& new.waiting() == if old.waiting().len() < old.limit() { old.waiting().push(it) } else { old.waiting() }
    }
}

/// `new` is `old` after the pop-up showing closed at `now`, `display` being
/// the next one that shows.
pub open spec fn advanced(old: PopupMgr, new: PopupMgr, now: u64, display: Option<NItem>) -> bool {
    &&& new.wf()
    &&& new.delay() == old.delay()
    &&& new.limit() == old.limit()
    &&& old.waiting().len() == 0 ==> {
        &&& display is None
        &&& !new.is_shown()
        &&& new.deadline() is None
        &&& new.waiting().len() == 0
    }
    &&& old.waiting().len() > 0 ==> {
        &&& display matches Some(d) && d@ == old.waiting()[0]
        &&& new.is_shown()
        &&& new.deadline() == Some(deadline_of(now, old.delay()))
        &&& new.waiting() == old.waiting().drop_first()
    }
}

/// The notifier: the notification center's store, the pop-up queue and the
/// numbers for messages without an id.
pub struct Notifier {
    pub store: Store,
    pub popup: PopupMgr,
    pub ids: IdSequence,
}

impl Notifier {
    pub open spec fn wf(&self) -> bool {
        self.store.wf() && self.popup.wf()
    }

    /// An empty center and pop-up queue; pop-ups stay `popup_secs` seconds,
    /// at most `max_queue` wait.
    pub fn new(popup_secs: u64, max_queue: usize) -> (n: Self)
        ensures
            n.wf(),
            n.store.all_items().len() == 0,
            n.store.category() == -1,
            n.store.search_text().len() == 0,
            !n.popup.is_shown(),
            n.popup.waiting().len() == 0,
            n.popup.limit() == max_queue,
            n.ids.next() == 1,
    {
        Notifier { store: Store::new(), popup: PopupMgr::new(popup_secs, max_queue), ids: IdSequence::new() }
    }

    /// Handles a backend event at `now_unix` (Unix seconds) and `now_ms` (the
    /// pop-up clock, milliseconds). A message becomes an item; an item that
    /// fails the filter rules is dropped, one that passes is kept by the center,
    /// which shows anew, and, when pop-ups are on, goes to the pop-up queue. A
    /// dismissed pop-up makes way for the next waiting one. A status change
    /// changes nothing here. Returns the item that now pops up, if any.
    pub fn on_event(&mut self, event: Ev, filter: &FilterCfg, popups: bool, now_unix: i64, now_ms: u64) -> (display: Option<NItem>)
        requires
            old(self).wf(),
        ensures
            final(self).wf(),
            final(self).store.category() == old(self).store.category(),
            final(self).store.search_text() == old(self).store.search_text(),
            match event {
                Ev::N(m) => {
                    let it = item_spec(m, now_unix, old(self).ids.next());
                    let keep = passes_spec(texts(filter.categories@), filter.min_priority@, texts(filter.block@), texts(filter.only@), it);
                    let pops = popups && keep;
                    &&& keep ==> final(self).store.all_items() == retimed(add_spec(old(self).store.all_items(), it, 500), now_unix)
                    &&& keep ==> final(self).store.shown() == view_spec(final(self).store.all_items(), old(self).store.category(), lowercase(old(self).store.search_text()))
                    &&& !keep ==> final(self).store == old(self).store
                    &&& final(self).ids.next() == if m.id@.len() == 0 { after(old(self).ids.next()) } else { old(self).ids.next() }
                    &&& pops ==> pushed(old(self).popup, final(self).popup, it, now_ms, display)
                    &&& !pops ==> display is None && final(self).popup == old(self).popup
                },
                Ev::St(_) => {
                    &&& display is None
                    &&& final(self).store == old(self).store
                    &&& final(self).popup == old(self).popup
                    &&& final(self).ids == old(self).ids
                },
                Ev::PopDone => {
                    &&& advanced(old(self).popup, final(self).popup, now_ms, display)
                    &&& final(self).store == old(self).store
                    &&& final(self).ids == old(self).ids
                },
            },
    {
        match event {
            Ev::N(m) => {
                let ghost m0 = m;
                let seq = if m.id.unicode_len() == 0 { self.ids.take() } else { 0 };
                let it = to_item_at(m, now_unix, seq);
                assert(it@ == item_spec(m0, now_unix, old(self).ids.next()));
                if !passes(filter, &it) {
                    return None;
                }
                self.store.add(it.clone_item());
                self.store.refresh_at(now_unix);
                if popups {
                    self.popup.push(it, now_ms)
                } else {
                    None
                }
            },
            Ev::St(_) => None,
            Ev::PopDone => self.popup.advance(now_ms),
        }
    }

    /// A tick of the pop-up clock: when the pop-up showing is due to go, it
    /// closes and the next waiting one shows, handed back.
    pub fn on_tick(&mut self, now_ms: u64) -> (display: Option<NItem>)
        requires
            old(self).wf(),
        ensures
            final(self).wf(),
            final(self).store == old(self).store,
            final(self).ids == old(self).ids,
            ({
                let due = old(self).popup.deadline() matches Some(d) && now_ms >= d;
                &&& due ==> advanced(old(self).popup, final(self).popup, now_ms, display)
                &&& !due ==> display is None && final(self).popup == old(self).popup
            }),
    {
        if self.popup.tick(now_ms) {
            self.popup.advance(now_ms)
        } else {
            None
        }
    }
}

} // verus!
