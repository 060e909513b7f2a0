//! The song catalogue as the player shows it: filtered by a search text, and the
//! bookkeeping of the cover pictures that are shown, failed or on their way.

use vstd::prelude::*;
use crate::api::MusicItem;
use crate::text::{chars_of, contains_chars, contains_spec, lemma_contains_iff_piece, string_of, trim, trim_spec};

verus! {

broadcast use vstd::std_specs::hash::group_hash_axioms;

// ---------------------------------------------------------------------------
// Lower case
// ---------------------------------------------------------------------------

/// What `str::to_lowercase` gives for `s` (Unicode lower case mapping).
pub uninterp spec fn lowercase_spec(s: Seq<char>) -> Seq<char>;

/// Runs `str::to_lowercase`. The contract only names the result as the lower case
/// form of the argument; the Unicode mapping itself is left unstated.
#[verifier::external_body]
fn to_lowercase(s: &str) -> (r: String)
    ensures
        r@ == lowercase_spec(s@),
{
    s.to_lowercase()
}

/// Whether a song whose lower-case name is `name_lower` matches the lower-case
/// search text `query_lower`: the name contains it.
pub fn name_matches(name_lower: &str, query_lower: &str) -> (r: bool)
    ensures
        r == contains_spec(name_lower@, query_lower@),
{
    let n = chars_of(name_lower);
    let q = chars_of(query_lower);
    contains_chars(&n, &q)
}

// ---------------------------------------------------------------------------
// Filtering
// ---------------------------------------------------------------------------

/// The search text as it is matched: trimmed, then in lower case.
pub open spec fn filter_query(filter: Seq<char>) -> Seq<char> {
    lowercase_spec(trim_spec(filter))
}

/// Song `m` matches the non-empty query `q`.
pub open spec fn item_matches(m: MusicItem, q: Seq<char>) -> bool {
    contains_spec(lowercase_spec(m.name@), q)
}

/// The songs of `list` that the query `q` lets through, in their order; all of
/// them for an empty query.
pub open spec fn shown_items(list: Seq<MusicItem>, q: Seq<char>) -> Seq<MusicItem>
    decreases list.len(),
{
    if q.len() == 0 {
        list
    } else if list.len() == 0 {
        Seq::empty()
    } else {
        let rest = shown_items(list.drop_last(), q);
        if item_matches(list.last(), q) {
            rest.push(list.last())
        } else {
            rest
        }
    }
}

/// The catalogue, the search text, and the songs that the search lets through.
pub struct Library {
    pub music_list: Vec<MusicItem>,
    pub filtered_display: Vec<MusicItem>,
    pub filter: String,
}

impl Library {
    /// The shown songs are those of the catalogue that the search lets through.
    pub open spec fn wf(self) -> bool {
        self.filtered_display@ == shown_items(self.music_list@, filter_query(self.filter@))
    }

    /// An empty catalogue with an empty search.
    pub fn new() -> (r: Library)
        ensures
            r.wf(),
            r.music_list@.len() == 0,
            r.filter@.len() == 0,
    {
        let l = Library { music_list: Vec::new(), filtered_display: Vec::new(), filter: String::new() };
        proof {
            if filter_query(l.filter@).len() != 0 {
                assert(shown_items(l.music_list@, filter_query(l.filter@)) =~= Seq::<MusicItem>::empty());
            }
        }
        l
    }

    /// Recomputes the shown songs from the catalogue and the search text.
    pub fn rebuild_filtered_display(&mut self)
        ensures
            final(self).wf(),
            final(self).music_list == old(self).music_list,
            final(self).filter == old(self).filter,
    {
        let f = chars_of(self.filter.as_str());
        let t = trim(&f);
        let q = to_lowercase(string_of(&t).as_str());
        let ghost qv = filter_query(self.filter@);
        assert(q@ == qv);
        let mut out: Vec<MusicItem> = Vec::new();
        let n = self.music_list.len();
        let mut i: usize = 0;
        if q.as_str().is_empty() {
            while i < n
                invariant
                    n == self.music_list@.len(),
                    i <= n,
                    out@ == self.music_list@.subrange(0, i as int),
                decreases n - i,
            {
                out.push(self.music_list[i].duplicate());
                i = i + 1;
                assert(out@ =~= self.music_list@.subrange(0, i as int));
            }
            assert(self.music_list@.subrange(0, n as int) =~= self.music_list@);
        } else {
            while i < n
                invariant
                    n == self.music_list@.len(),
                    i <= n,
                    qv.len() > 0,
                    q@ == qv,
                    out@ == shown_items(self.music_list@.subrange(0, i as int), qv),
                decreases n - i,
            {
                let name_lower = to_lowercase(self.music_list[i].name.as_str());
                let ghost pre = self.music_list@.subrange(0, i as int);
                let ghost next = self.music_list@.subrange(0, i + 1);
                assert(next.drop_last() =~= pre);
                assert(next.last() == self.music_list@[i as int]);
                if name_matches(name_lower.as_str(), q.as_str()) {
                    out.push(self.music_list[i].duplicate());
                }
                i = i + 1;
            }
            assert(self.music_list@.subrange(0, n as int) =~= self.music_list@);
        }
        self.filtered_display = out;
    }

    /// Sets the search text and recomputes the shown songs.
    pub fn set_filter(&mut self, filter: String)
        ensures
            final(self).wf(),
            final(self).filter == filter,
            final(self).music_list == old(self).music_list,
    {
        self.filter = filter;
        self.rebuild_filtered_display();
    }

    /// Replaces the catalogue and recomputes the shown songs.
    pub fn set_music_list(&mut self, list: Vec<MusicItem>)
        ensures
            final(self).wf(),
            final(self).music_list == list,
            final(self).filter == old(self).filter,
    {
        self.music_list = list;
        self.rebuild_filtered_display();
    }
}

/// The search finds a song by any piece of its lower-case name: with a non-empty
/// search text, a song of the catalogue is shown exactly when the lower-case
/// search text stands somewhere in its lower-case name (at the start, inside a
/// word, after a space: anywhere).
pub proof fn lemma_shown_by_any_piece_of_the_name(list: Seq<MusicItem>, filter: Seq<char>, m: MusicItem, at: int)
    requires
        filter_query(filter).len() > 0,
        list.contains(m),
    ensures
        ({
            let q = filter_query(filter);
            let name = lowercase_spec(m.name@);
            0 <= at && at + q.len() <= name.len() && name.subrange(at, at + q.len()) == q
                ==> shown_items(list, q).contains(m)
        }),
        ({
            let q = filter_query(filter);
            let name = lowercase_spec(m.name@);
            shown_items(list, q).contains(m) ==> exists|k: int|
                0 <= k && k + q.len() <= name.len() && #[trigger] name.subrange(k, k + q.len()) == q
        }),
{
    let q = filter_query(filter);
    let name = lowercase_spec(m.name@);
    lemma_shown_items_are_matches(list, q, m);
    lemma_contains_iff_piece(name, q, at);
}

/// A song is shown exactly when it is in the catalogue and the search lets it
/// through; an empty search shows the whole catalogue.
pub proof fn lemma_shown_items_are_matches(list: Seq<MusicItem>, q: Seq<char>, m: MusicItem)
    ensures
        q.len() == 0 ==> shown_items(list, q) == list,
        q.len() > 0 ==> (shown_items(list, q).contains(m) <==> list.contains(m) && item_matches(
            m,
            q,
        )),
    decreases list.len(),
{
    if q.len() > 0 && list.len() > 0 {
        lemma_shown_items_are_matches(list.drop_last(), q, m);
        let rest = shown_items(list.drop_last(), q);
        assert(list =~= list.drop_last().push(list.last()));
        if list.contains(m) {
            let k = choose|k: int| 0 <= k < list.len() && list[k] == m;
            if k < list.len() - 1 {
                assert(list.drop_last()[k] == m);
            }
        }
        if list.drop_last().contains(m) {
            let k = choose|k: int| 0 <= k < list.drop_last().len() && list.drop_last()[k] == m;
            assert(list[k] == m);
        }
        if item_matches(list.last(), q) {
            assert(rest.push(list.last())[rest.len() as int] == list.last());
            if rest.contains(m) {
                let k = choose|k: int| 0 <= k < rest.len() && rest[k] == m;
                assert(rest.push(list.last())[k] == m);
            }
            if rest.push(list.last()).contains(m) && m != list.last() {
                let k = choose|k: int| 0 <= k < rest.len() + 1 && rest.push(list.last())[k] == m;
                assert(rest[k] == m);
            }
        }
    }
}

// ---------------------------------------------------------------------------
// Covers
// ---------------------------------------------------------------------------

/// Which covers are shown, which failed to load, and which are on their way.
pub struct Covers {
    pub shown: std::collections::HashSet<i64>,
    pub failed: std::collections::HashSet<i64>,
    pub inflight: std::collections::HashSet<i64>,
}

/// The covers to fetch for `ids` in order, and the covers on their way afterwards:
/// an id is fetched when its cover is not shown, has not failed, and is not on its
/// way (fetching puts it on its way).
pub open spec fn cover_plan(ids: Seq<i64>, shown: Set<i64>, failed: Set<i64>, inflight: Set<i64>) -> (
    Seq<i64>,
    Set<i64>,
)
    decreases ids.len(),
{
    if ids.len() == 0 {
        (Seq::empty(), inflight)
    } else {
        let before = cover_plan(ids.drop_last(), shown, failed, inflight);
        let id = ids.last();
        if shown.contains(id) || failed.contains(id) || before.1.contains(id) {
            before
        } else {
            (before.0.push(id), before.1.insert(id))
        }
    }
}

impl Covers {
    /// No cover known.
    pub fn new() -> (r: Covers)
        ensures
            r.shown@ == Set::<i64>::empty(),
            r.failed@ == Set::<i64>::empty(),
            r.inflight@ == Set::<i64>::empty(),
    {
        Covers {
            shown: std::collections::HashSet::new(),
            failed: std::collections::HashSet::new(),
            inflight: std::collections::HashSet::new(),
        }
    }

    /// Forgets all covers.
    pub fn clear(&mut self)
        ensures
            final(self).shown@ == Set::<i64>::empty(),
            final(self).failed@ == Set::<i64>::empty(),
            final(self).inflight@ == Set::<i64>::empty(),
    {
        self.shown.clear();
        self.failed.clear();
        self.inflight.clear();
    }

    /// Marks the covers of `ids` that still need fetching as on their way, and
    /// returns them in order.
    pub fn enqueue_music_cover_fetches(&mut self, ids: &[i64]) -> (fetch: Vec<i64>)
        ensures
            (fetch@, final(self).inflight@) == cover_plan(
                ids@,
                old(self).shown@,
                old(self).failed@,
                old(self).inflight@,
            ),
            final(self).shown@ == old(self).shown@,
            final(self).failed@ == old(self).failed@,
    {
        let mut fetch: Vec<i64> = Vec::new();
        let mut i: usize = 0;
        let ghost shown0 = self.shown@;
        let ghost failed0 = self.failed@;
        let ghost inflight0 = self.inflight@;
        while i < ids.len()
            invariant
                i <= ids@.len(),
                self.shown@ == shown0,
                self.failed@ == failed0,
                (fetch@, self.inflight@) == cover_plan(ids@.subrange(0, i as int), shown0, failed0, inflight0),
            decreases ids.len() - i,
        {
            let id = ids[i];
            let ghost pre = ids@.subrange(0, i as int);
            let ghost next = ids@.subrange(0, i + 1);
            assert(next.drop_last() =~= pre);
            assert(next.last() == id);
            if self.shown.contains(&id) || self.failed.contains(&id) {
            } else if self.inflight.insert(id) {
                fetch.push(id);
            }
            i = i + 1;
        }
        assert(ids@.subrange(0, ids@.len() as int) =~= ids@);
        fetch
    }

    /// A cover arrived: it is no longer on its way, and is shown.
    pub fn cover_loaded(&mut self, id: i64)
        ensures
            final(self).inflight@ == old(self).inflight@.remove(id),
            final(self).shown@ == old(self).shown@.insert(id),
            final(self).failed@ == old(self).failed@,
    {
        self.inflight.remove(&id);
        self.shown.insert(id);
    }

    /// A cover could not be fetched: it is no longer on its way, and is not asked
    /// for again.
    pub fn cover_failed(&mut self, id: i64)
        ensures
            final(self).inflight@ == old(self).inflight@.remove(id),
            final(self).failed@ == old(self).failed@.insert(id),
            final(self).shown@ == old(self).shown@,
    {
        self.inflight.remove(&id);
        self.failed.insert(id);
    }
}

/// A fetch plan asks for each cover at most once, never for one that is shown,
/// failed or already on its way, and leaves every cover it asks for on its way.
pub proof fn lemma_cover_plan_no_repeats(ids: Seq<i64>, shown: Set<i64>, failed: Set<i64>, inflight: Set<i64>)
    ensures
        ({
            let p = cover_plan(ids, shown, failed, inflight);
            &&& forall|a: int, b: int| 0 <= a < b < p.0.len() ==> p.0[a] != p.0[b]
            &&& forall|a: int| 0 <= a < p.0.len() ==> !shown.contains(#[trigger] p.0[a])
                && !failed.contains(p.0[a]) && !inflight.contains(p.0[a]) && p.1.contains(p.0[a])
            &&& p.1 == inflight + p.0.to_set()
        }),
    decreases ids.len(),
{
    if ids.len() > 0 {
        lemma_cover_plan_no_repeats(ids.drop_last(), shown, failed, inflight);
        let before = cover_plan(ids.drop_last(), shown, failed, inflight);
        let id = ids.last();
        if !(shown.contains(id) || failed.contains(id) || before.1.contains(id)) {
            let p0 = before.0.push(id);
            assert(p0.to_set() =~= before.0.to_set().insert(id)) by {
                assert forall|x: i64| p0.to_set().contains(x) <==> before.0.to_set().insert(id).contains(x) by {
                    if p0.to_set().contains(x) && x != id {
                        let k = choose|k: int| 0 <= k < p0.len() && p0[k] == x;
                        assert(before.0[k] == x);
                    }
                    if before.0.to_set().contains(x) {
                        let k = choose|k: int| 0 <= k < before.0.len() && before.0[k] == x;
                        assert(p0[k] == x);
                    }
                    if x == id {
                        assert(p0[before.0.len() as int] == id);
                    }
                }
            }
            assert((inflight + before.0.to_set()).insert(id) =~= inflight + p0.to_set());
            assert forall|a: int, b: int| 0 <= a < b < p0.len() implies p0[a] != p0[b] by {
                if b == before.0.len() {
                    assert(before.1.contains(before.0[a]));
                }
            }
        }
    } else {
        assert(Seq::<i64>::empty().to_set() =~= Set::<i64>::empty());
        assert(inflight + Set::<i64>::empty() =~= inflight);
    }
}

} // verus!
