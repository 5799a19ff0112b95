//! The notification center's store: every item received (newest first, no
//! duplicate ids, at most 500) and the list currently shown, filtered by
//! category and search text.

use vstd::prelude::*;
use vstd::string::StrSliceExecFns;
use crate::model::{ItemModel, NItem, rel_between, rel_text, now};
use crate::text::{contains_str, lowercase, occurs_in, to_lowercase};

verus! {

pub open spec fn items_view(v: Seq<NItem>) -> Seq<ItemModel> {
    v.map_values(|x: NItem| x@)
}

pub open spec fn has_item(all: Seq<ItemModel>, id: Seq<char>) -> bool {
    exists|i: int| 0 <= i < all.len() && all[i].id == id
}

/// Adding an item: a known id changes nothing; a new item goes first, and
/// when the store is then over its limit the oldest (last) item goes.
pub open spec fn add_spec(all: Seq<ItemModel>, it: ItemModel, max: nat) -> Seq<ItemModel> {
    if has_item(all, it.id) {
        all
    } else {
        let a = seq![it] + all;
        if a.len() > max { a.drop_last() } else { a }
    }
}

/// `x` read when its id is `id`.
pub open spec fn read_if(x: ItemModel, id: Seq<char>) -> ItemModel {
    if x.id == id { ItemModel { read: true, ..x } } else { x }
}

/// `all` without the items of id `id`.
pub open spec fn remove_spec(all: Seq<ItemModel>, id: Seq<char>) -> Seq<ItemModel>
    decreases all.len(),
{
    if all.len() == 0 {
        all
    } else if all.last().id == id {
        remove_spec(all.drop_last(), id)
    } else {
        remove_spec(all.drop_last(), id).push(all.last())
    }
}

pub open spec fn unread_count(all: Seq<ItemModel>) -> nat
    decreases all.len(),
{
    if all.len() == 0 {
        0
    } else {
        unread_count(all.drop_last()) + if all.last().read { 0nat } else { 1nat }
    }
}

/// Whether an item matches the lower-cased search text `q`: an empty search
/// matches everything, else `q` occurs in the lower-cased title or body.
pub open spec fn matches_search_spec(x: ItemModel, q: Seq<char>) -> bool {
    q.len() == 0 || occurs_in(q, lowercase(x.title)) || occurs_in(q, lowercase(x.body))
}

/// The list shown: items of the chosen category (any when negative) that
/// match the search, in store order.
pub open spec fn view_spec(all: Seq<ItemModel>, cat: i32, q: Seq<char>) -> Seq<ItemModel>
    decreases all.len(),
{
    if all.len() == 0 {
        Seq::empty()
    } else if (cat < 0 || all.last().cat == cat) && matches_search_spec(all.last(), q) {
        view_spec(all.drop_last(), cat, q).push(all.last())
    } else {
        view_spec(all.drop_last(), cat, q)
    }
}

/// Every item with its relative time taken anew at `now`.
pub open spec fn retimed(all: Seq<ItemModel>, now: i64) -> Seq<ItemModel> {
    all.map_values(|x: ItemModel| ItemModel { rel: rel_text(now - x.ts), ..x })
}

/// The notification center's store.
pub struct Store {
    all: Vec<NItem>,
    view: Vec<NItem>,
    search: String,
    cat: i32,
    max: usize,
}

impl Store {
    /// At most 500 items, no two with the same id.
    pub closed spec fn wf(&self) -> bool {
        &&& self.max == 500
        &&& self.all@.len() <= self.max
        &&& forall|i: int, j: int|
            0 <= i < self.all@.len() && 0 <= j < self.all@.len() && i != j ==> self.all@[i]@.id != self.all@[j]@.id
    }

    /// Every item, newest first.
    pub closed spec fn all_items(&self) -> Seq<ItemModel> {
        items_view(self.all@)
    }

    /// The list shown since the last refresh.
    pub closed spec fn shown(&self) -> Seq<ItemModel> {
        items_view(self.view@)
    }

    pub closed spec fn search_text(&self) -> Seq<char> {
        self.search@
    }

    /// The category shown; negative shows all.
    pub closed spec fn category(&self) -> i32 {
        self.cat
    }

    /// An empty store showing every category.
    pub fn new() -> (s: Self)
        ensures
            s.wf(),
            s.all_items().len() == 0,
            s.shown().len() == 0,
            s.search_text().len() == 0,
            s.category() == -1,
    {
        let s = Store { all: Vec::new(), view: Vec::new(), search: String::new(), cat: -1, max: 500 };
        assert(s.all_items() =~= Seq::<ItemModel>::empty());
        assert(s.shown() =~= Seq::<ItemModel>::empty());
        s
    }

    /// Adds an item unless its id is known.
    pub fn add(&mut self, it: NItem)
        requires
            old(self).wf(),
        ensures
            final(self).wf(),
            final(self).all_items() == add_spec(old(self).all_items(), it@, 500),
            final(self).shown() == old(self).shown(),
            final(self).search_text() == old(self).search_text(),
            final(self).category() == old(self).category(),
    {
        let ghost old_all = items_view(self.all@);
        let n = self.all.len();
        let mut i: usize = 0;
        while i < n
            invariant
                n == self.all@.len(),
                i <= n,
                self.all == old(self).all,
                self.max == old(self).max,
                self.view == old(self).view,
                self.search == old(self).search,
                self.cat == old(self).cat,
                old_all == items_view(self.all@),
                self.wf(),
                forall|j: int| 0 <= j < i ==> self.all@[j]@.id != it@.id,
            decreases n - i,
        {
            if self.all[i].id == it.id {
                assert(old_all[i as int].id == it@.id);
                return;
            }
            i = i + 1;
        }
        assert(!has_item(old_all, it@.id));
        let ghost itv = it@;
        self.all.insert(0, it);
        assert(items_view(self.all@) =~= seq![itv] + old_all);
        if self.all.len() > self.max {
            self.all.pop();
            assert(items_view(self.all@) =~= (seq![itv] + old_all).drop_last());
        }
        proof {
            let v = self.all@;
            assert forall|a: int, b: int| 0 <= a < v.len() && 0 <= b < v.len() && a != b implies v[a]@.id != v[b]@.id by {
                if a != 0 && b != 0 {
                    assert(old_all[a - 1].id != old_all[b - 1].id);
                } else {
                    let o = if a == 0 { b } else { a };
                    assert(v[o]@ == old_all[o - 1]);
                }
            }
        }
    }

    /// Marks the item of id `id` read.
    pub fn mark_read(&mut self, id: &str)
        requires
            old(self).wf(),
        ensures
            final(self).wf(),
            final(self).all_items() == old(self).all_items().map_values(|x: ItemModel| read_if(x, id@)),
            final(self).shown() == old(self).shown(),
            final(self).search_text() == old(self).search_text(),
            final(self).category() == old(self).category(),
    {
        let ghost old_all = items_view(self.all@);
        let key = id.to_owned();
        let n = self.all.len();
        let mut i: usize = 0;
        while i < n
            invariant
                n == self.all@.len(),
                n == old_all.len(),
                i <= n,
                key@ == id@,
                self.max == old(self).max,
                self.view == old(self).view,
                self.search == old(self).search,
                self.cat == old(self).cat,
                forall|j: int| 0 <= j < i ==> self.all@[j]@ == read_if(old_all[j], id@),
                forall|j: int| i <= j < n ==> self.all@[j]@ == old_all[j],
            decreases n - i,
        {
            if self.all[i].id == key {
                self.all[i].read = true;
            }
            i = i + 1;
        }
        assert(items_view(self.all@) =~= old_all.map_values(|x: ItemModel| read_if(x, id@)));
        proof {
            let v = self.all@;
            assert forall|a: int, b: int| 0 <= a < v.len() && 0 <= b < v.len() && a != b implies v[a]@.id != v[b]@.id by {
                assert(old_all[a].id != old_all[b].id);
            }
        }
    }

    /// Marks every item read.
    pub fn mark_all(&mut self)
        requires
            old(self).wf(),
        ensures
            final(self).wf(),
            final(self).all_items() == old(self).all_items().map_values(|x: ItemModel| ItemModel { read: true, ..x }),
            final(self).shown() == old(self).shown(),
            final(self).search_text() == old(self).search_text(),
            final(self).category() == old(self).category(),
    {
        let ghost old_all = items_view(self.all@);
        let n = self.all.len();
        let mut i: usize = 0;
        while i < n
            invariant
                n == self.all@.len(),
                n == old_all.len(),
                i <= n,
                self.max == old(self).max,
                self.view == old(self).view,
                self.search == old(self).search,
                self.cat == old(self).cat,
                forall|j: int| 0 <= j < i ==> self.all@[j]@ == (ItemModel { read: true, ..old_all[j] }),
                forall|j: int| i <= j < n ==> self.all@[j]@ == old_all[j],
            decreases n - i,
        {
            self.all[i].read = true;
            i = i + 1;
        }
        assert(items_view(self.all@) =~= old_all.map_values(|x: ItemModel| ItemModel { read: true, ..x }));
        proof {
            let v = self.all@;
            assert forall|a: int, b: int| 0 <= a < v.len() && 0 <= b < v.len() && a != b implies v[a]@.id != v[b]@.id by {
                assert(old_all[a].id != old_all[b].id);
            }
        }
    }

    /// Removes the item of id `id`.
    pub fn remove(&mut self, id: &str)
        requires
            old(self).wf(),
        ensures
            final(self).wf(),
            final(self).all_items() == remove_spec(old(self).all_items(), id@),
            final(self).shown() == old(self).shown(),
            final(self).search_text() == old(self).search_text(),
            final(self).category() == old(self).category(),
    {
        let ghost old_all = items_view(self.all@);
        let key = id.to_owned();
        let mut all: Vec<NItem> = Vec::new();
        std::mem::swap(&mut all, &mut self.all);
        let n = all.len();
        let mut kept: Vec<NItem> = Vec::new();
        let mut i: usize = 0;
        while i < n
            invariant
                n == all@.len(),
                old_all == items_view(all@),
                i <= n,
                key@ == id@,
                self.max == old(self).max,
                self.view == old(self).view,
                self.search == old(self).search,
                self.cat == old(self).cat,
                self.max == 500,
                n <= 500,
                forall|a: int, b: int| 0 <= a < n && 0 <= b < n && a != b ==> old_all[a].id != old_all[b].id,
                items_view(kept@) == remove_spec(old_all.take(i as int), id@),
            decreases n - i,
        {
            assert(old_all.take(i + 1).drop_last() =~= old_all.take(i as int));
            if !(all[i].id == key) {
                let x = all[i].clone_item();
                kept.push(x);
                assert(items_view(kept@) =~= remove_spec(old_all.take(i as int), id@).push(old_all[i as int]));
            }
            i = i + 1;
        }
        assert(old_all.take(n as int) =~= old_all);
        proof {
            lemma_remove_sub(old_all, id@);
        }
        self.all = kept;
        proof {
            let v = self.all@;
            assert forall|a: int, b: int| 0 <= a < v.len() && 0 <= b < v.len() && a != b implies v[a]@.id != v[b]@.id by {
                assert(items_view(v)[a] == v[a]@);
                assert(items_view(v)[b] == v[b]@);
            }
        }
    }

    /// Removes every item (the shown list keeps its items until the next refresh).
    pub fn clear(&mut self)
        requires
            old(self).wf(),
        ensures
            final(self).wf(),
            final(self).all_items().len() == 0,
            final(self).shown() == old(self).shown(),
            final(self).search_text() == old(self).search_text(),
            final(self).category() == old(self).category(),
    {
        self.all.clear();
    }

    pub fn set_search(&mut self, s: String)
        requires
            old(self).wf(),
        ensures
            final(self).wf(),
            final(self).search_text() == s@,
            final(self).all_items() == old(self).all_items(),
            final(self).shown() == old(self).shown(),
            final(self).category() == old(self).category(),
    {
        self.search = s;
    }

    pub fn set_cat(&mut self, c: i32)
        requires
            old(self).wf(),
        ensures
            final(self).wf(),
            final(self).category() == c,
            final(self).all_items() == old(self).all_items(),
            final(self).shown() == old(self).shown(),
            final(self).search_text() == old(self).search_text(),
    {
        self.cat = c;
    }

    /// Unread items.
    pub fn unread(&self) -> (n: i32)
        requires
            self.wf(),
        ensures
            n == unread_count(self.all_items()),
    {
        let ghost v = items_view(self.all@);
        let len = self.all.len();
        let mut c: i32 = 0;
        let mut i: usize = 0;
        while i < len
            invariant
                len == self.all@.len(),
                len <= 500,
                v == items_view(self.all@),
                i <= len,
                c == unread_count(v.take(i as int)),
                c <= i,
            decreases len - i,
        {
            assert(v.take(i + 1).drop_last() =~= v.take(i as int));
            if !self.all[i].read {
                c = c + 1;
            }
            i = i + 1;
        }
        assert(v.take(len as int) =~= v);
        c
    }

    /// All items.
    pub fn total(&self) -> (n: i32)
        requires
            self.wf(),
        ensures
            n == self.all_items().len(),
    {
        self.all.len() as i32
    }

    /// The list shown since the last refresh.
    pub fn view(&self) -> (v: &Vec<NItem>)
        ensures
            items_view(v@) == self.shown(),
    {
        &self.view
    }

    /// Rebuilds the shown list at time `now`: every item's relative time is
    /// taken anew, then the items of the chosen category that match the
    /// lower-cased search are shown, in store order.
    pub fn refresh_at(&mut self, now: i64)
        requires
            old(self).wf(),
        ensures
            final(self).wf(),
            final(self).all_items() == retimed(old(self).all_items(), now),
            final(self).shown() == view_spec(final(self).all_items(), old(self).category(), lowercase(old(self).search_text())),
            final(self).search_text() == old(self).search_text(),
            final(self).category() == old(self).category(),
    {
        let ghost old_all = items_view(self.all@);
        let n = self.all.len();
        let mut i: usize = 0;
        while i < n
            invariant
                n == self.all@.len(),
                n == old_all.len(),
                i <= n,
                self.max == old(self).max,
                self.search == old(self).search,
                self.cat == old(self).cat,
                forall|j: int| 0 <= j < i ==> self.all@[j]@ == (ItemModel { rel: rel_text(now - old_all[j].ts), ..old_all[j] }),
                forall|j: int| i <= j < n ==> self.all@[j]@ == old_all[j],
            decreases n - i,
        {
            let ts = self.all[i].ts as i64;
            let rel = crate::model::rel_time_at(ts, now);
            self.all[i].rel = rel;
            i = i + 1;
        }
        assert(items_view(self.all@) =~= retimed(old_all, now));
        proof {
            let v = self.all@;
            assert forall|a: int, b: int| 0 <= a < v.len() && 0 <= b < v.len() && a != b implies v[a]@.id != v[b]@.id by {
                assert(old_all[a].id != old_all[b].id);
            }
        }
        let q = to_lowercase(self.search.as_str());
        let ghost all = items_view(self.all@);
        let mut view: Vec<NItem> = Vec::new();
        let mut k: usize = 0;
        while k < n
            invariant
                n == self.all@.len(),
                all == items_view(self.all@),
                k <= n,
                q@ == lowercase(self.search@),
                items_view(view@) == view_spec(all.take(k as int), self.cat, q@),
            decreases n - k,
        {
            assert(all.take(k + 1).drop_last() =~= all.take(k as int));
            let x = &self.all[k];
            if (self.cat < 0 || x.cat == self.cat) && matches_search(x, q.as_str()) {
                view.push(x.clone_item());
                assert(items_view(view@) =~= view_spec(all.take(k as int), self.cat, q@).push(all[k as int]));
            }
            k = k + 1;
        }
        assert(all.take(n as int) =~= all);
        self.view = view;
    }

    /// Rebuilds the shown list at the time of the call.
    pub fn refresh(&mut self)
        requires
            old(self).wf(),
        ensures
            final(self).wf(),
            exists|t: i64| #[trigger] retimed(old(self).all_items(), t) == final(self).all_items(),
            final(self).shown() == view_spec(final(self).all_items(), old(self).category(), lowercase(old(self).search_text())),
            final(self).search_text() == old(self).search_text(),
            final(self).category() == old(self).category(),
    {
        let t = now();
        self.refresh_at(t);
    }
}

impl NItem {
    /// A copy of the item.
    pub fn clone_item(&self) -> (r: NItem)
        ensures
            r@ == self@,
    {
        NItem {
            id: self.id.clone(),
            title: self.title.clone(),
            body: self.body.clone(),
            cat: self.cat,
            prio: self.prio,
            ts: self.ts,
            read: self.read,
            rel: self.rel.clone(),
            url: self.url.clone(),
        }
    }
}

/// Whether an item matches the lower-cased search text `q`.
pub fn matches_search(x: &NItem, q: &str) -> (r: bool)
    ensures
        r == matches_search_spec(x@, q@),
{
    if q.unicode_len() == 0 {
        return true;
    }
    let t = to_lowercase(x.title.as_str());
    if contains_str(t.as_str(), q) {
        return true;
    }
    let b = to_lowercase(x.body.as_str());
    contains_str(b.as_str(), q)
}

proof fn lemma_remove_sub(all: Seq<ItemModel>, id: Seq<char>)
    ensures
        remove_spec(all, id).len() <= all.len(),
        forall|x: ItemModel| remove_spec(all, id).contains(x) ==> all.contains(x),
        forall|i: int| 0 <= i < remove_spec(all, id).len() ==> remove_spec(all, id)[i].id != id,
        (forall|i: int, j: int| 0 <= i < all.len() && 0 <= j < all.len() && i != j ==> all[i].id != all[j].id)
            ==> (forall|i: int, j: int| 0 <= i < remove_spec(all, id).len() && 0 <= j < remove_spec(all, id).len() && i != j
                ==> remove_spec(all, id)[i].id != remove_spec(all, id)[j].id),
    decreases all.len(),
{
    if all.len() > 0 {
        let rest = all.drop_last();
        lemma_remove_sub(rest, id);
        let w = remove_spec(rest, id);
        assert forall|x: ItemModel| w.contains(x) implies all.contains(x) by {
            assert(rest.contains(x));
            let j = choose|j: int| 0 <= j < rest.len() && rest[j] == x;
            assert(all[j] == x);
        }
        if all.last().id != id {
            let w2 = w.push(all.last());
            assert forall|x: ItemModel| w2.contains(x) implies all.contains(x) by {
                if x == all.last() {
                    assert(all[all.len() - 1] == x);
                } else {
                    let k = choose|k: int| 0 <= k < w2.len() && w2[k] == x;
                    assert(w[k] == x);
                    assert(w.contains(x));
                }
            }
            if forall|i: int, j: int| 0 <= i < all.len() && 0 <= j < all.len() && i != j ==> all[i].id != all[j].id {
                assert(forall|i: int, j: int| 0 <= i < rest.len() && 0 <= j < rest.len() && i != j ==> rest[i].id != rest[j].id);
                assert forall|i: int, j: int| 0 <= i < w2.len() && 0 <= j < w2.len() && i != j implies w2[i].id != w2[j].id by {
                    if i == w.len() as int || j == w.len() as int {
                        let o = if i == w.len() as int { j } else { i };
                        assert(w.contains(w[o]));
                        assert(rest.contains(w[o]));
                        let k = choose|k: int| 0 <= k < rest.len() && rest[k] == w[o];
                        assert(all[k] == w[o]);
                    }
                }
            }
        }
    }
}

/// Adding an item whose id is already stored changes nothing: the store
/// deduplicates.
pub proof fn lemma_add_known_id(all: Seq<ItemModel>, it: ItemModel, i: int)
    requires
        0 <= i < all.len(),
        all[i].id == it.id,
    ensures
        add_spec(all, it, 500) == all,
{
}

/// A new item is shown first after it is added, and the store keeps its limit.
pub proof fn lemma_add_new_first(all: Seq<ItemModel>, it: ItemModel)
    requires
        !has_item(all, it.id),
        all.len() <= 500,
    ensures
        add_spec(all, it, 500)[0] == it,
        add_spec(all, it, 500).len() <= 500,
        add_spec(all, it, 500).len() == if all.len() < 500 { all.len() + 1 } else { 500 },
{
}

/// After removing an id, no stored item has it.
pub proof fn lemma_remove_gone(all: Seq<ItemModel>, id: Seq<char>)
    ensures
        !has_item(remove_spec(all, id), id),
{
    lemma_remove_sub(all, id);
}

/// After marking everything read, nothing is unread.
pub proof fn lemma_mark_all_unread_zero(all: Seq<ItemModel>)
    ensures
        unread_count(all.map_values(|x: ItemModel| ItemModel { read: true, ..x })) == 0,
    decreases all.len(),
{
    let f = |x: ItemModel| ItemModel { read: true, ..x };
    if all.len() > 0 {
        lemma_mark_all_unread_zero(all.drop_last());
        assert(all.map_values(f).drop_last() =~= all.drop_last().map_values(f));
    }
}

} // verus!
