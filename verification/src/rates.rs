//! The table of the rates that authorities reported, and what follows from them.

use vstd::prelude::*;
use crate::bytes::{comes_before, lemma_lex_irreflexive, lemma_lex_total, lemma_lex_transitive};
use crate::bytes::{lex_less, same_bytes};
use crate::hashing::{storage_key, storage_key_of};
use crate::rate_filter::{filter_consume, filter_new, filter_width, filter_window, filtered};
use crate::rate_filter::{last_of, lemma_last_of_push};
use crate::types::{AuthorityId, Dollars, Moment};

verus! {

/// What an authority reported last.
#[derive(Clone, Copy, Debug, PartialEq, Eq)]
pub struct RateEntry {
    /// Who reported.
    pub authority: AuthorityId,
    /// When.
    pub time: Moment,
    /// Dollars for one BTC.
    pub btc: Dollars,
    /// Dollars for one ETH.
    pub eth: Dollars,
}

/// Whether the walk through the table meets `a` before `b`.
pub open spec fn walks_before(a: RateEntry, b: RateEntry) -> bool {
    lex_less(storage_key_of(a.authority), storage_key_of(b.authority))
}

/// Whether some entries stand in the order of the walk, no authority twice.
pub open spec fn in_walk_order(entries: Seq<RateEntry>) -> bool {
    forall|i: int, j: int|
        0 <= i < j < entries.len() ==> #[trigger] walks_before(entries[i], entries[j])
}

/// The table after a report: the entry stands at its place in the walk, instead of an older
/// report of the same authority.
pub open spec fn reported(entries: Seq<RateEntry>, entry: RateEntry) -> Seq<RateEntry> {
    entries.filter(|e: RateEntry| walks_before(e, entry)).push(entry) + entries.filter(
        |e: RateEntry| walks_before(entry, e),
    )
}

/// How old a report is.
pub open spec fn age(entry: RateEntry, now: Moment) -> nat {
    if entry.time <= now {
        (now - entry.time) as nat
    } else {
        0
    }
}

/// Whether a report still counts.
pub open spec fn is_fresh(entry: RateEntry, now: Moment, expire: Moment) -> bool {
    age(entry, now) < expire
}

/// The reports that still count.
pub open spec fn fresh(entries: Seq<RateEntry>, now: Moment, expire: Moment) -> Seq<RateEntry> {
    entries.filter(|e: RateEntry| is_fresh(e, now, expire))
}

/// The dollar rates for BTC among some reports.
pub open spec fn btc_rates(entries: Seq<RateEntry>) -> Seq<u128> {
    entries.map_values(|e: RateEntry| e.btc)
}

/// The dollar rates for ETH among some reports.
pub open spec fn eth_rates(entries: Seq<RateEntry>) -> Seq<u128> {
    entries.map_values(|e: RateEntry| e.eth)
}

/// The pair of dollar rates that follows from fresh reports: each passes through a median filter,
/// and the current pair stays where there is no report.
pub open spec fn median_rates(
    current: (Dollars, Dollars),
    entries: Seq<RateEntry>,
    width: nat,
) -> (Dollars, Dollars) {
    (
        filtered(current.0, btc_rates(entries), width),
        filtered(current.1, eth_rates(entries), width),
    )
}

/// The report of an authority: time, BTC, ETH; zeros where there is none.
pub open spec fn report_of(entries: Seq<RateEntry>, authority: AuthorityId) -> (
    Moment,
    Dollars,
    Dollars,
) {
    if exists|i: int| 0 <= i < entries.len() && (#[trigger] entries[i]).authority == authority {
        let i = choose|i: int|
            0 <= i < entries.len() && (#[trigger] entries[i]).authority == authority;
        (entries[i].time, entries[i].btc, entries[i].eth)
    } else {
        (0, 0, 0)
    }
}

/// A filter that exactly the first few entries pass keeps just those.
proof fn lemma_filter_first(
    entries: Seq<RateEntry>,
    place: int,
    test: spec_fn(RateEntry) -> bool,
)
    requires
        0 <= place <= entries.len(),
        forall|i: int| 0 <= i < entries.len() ==> test(#[trigger] entries[i]) == (i < place),
    ensures
        entries.filter(test) == entries.take(place),
    decreases entries.len(),
{
    reveal(Seq::filter);
    if entries.len() > 0 {
        let (rest, last) = (entries.drop_last(), entries.len() - 1);
        assert(test(entries[last]) == (last < place));
        if place <= last {
            lemma_filter_first(rest, place, test);
            assert(rest.take(place) =~= entries.take(place));
        } else {
            lemma_filter_first(rest, last, test);
            assert(rest.take(last).push(entries[last]) =~= entries.take(place));
        }
    } else {
        assert(entries.filter(test) =~= entries.take(place));
    }
}

/// A filter that exactly the last few entries pass keeps just those.
proof fn lemma_filter_last(
    entries: Seq<RateEntry>,
    place: int,
    test: spec_fn(RateEntry) -> bool,
)
    requires
        0 <= place <= entries.len(),
        forall|i: int| 0 <= i < entries.len() ==> test(#[trigger] entries[i]) == (place <= i),
    ensures
        entries.filter(test) == entries.skip(place),
    decreases entries.len(),
{
    reveal(Seq::filter);
    if entries.len() > 0 {
        let (rest, last) = (entries.drop_last(), entries.len() - 1);
        assert(test(entries[last]) == (place <= last));
        if place <= last {
            lemma_filter_last(rest, place, test);
            assert(rest.skip(place).push(entries[last]) =~= entries.skip(place));
        } else {
            lemma_filter_last(rest, last, test);
            assert(rest.skip(last) =~= entries.skip(place));
        }
    } else {
        assert(entries.filter(test) =~= entries.skip(place));
    }
}

/// Leaving entries out keeps the order of the walk.
proof fn lemma_filter_keeps_order(entries: Seq<RateEntry>, test: spec_fn(RateEntry) -> bool)
    requires
        in_walk_order(entries),
    ensures
        in_walk_order(entries.filter(test)),
    decreases entries.len(),
{
    reveal(Seq::filter);
    if entries.len() > 0 {
        let rest = entries.drop_last();
        assert forall|i: int, j: int| 0 <= i < j < rest.len() implies #[trigger] walks_before(
            rest[i],
            rest[j],
        ) by {
            assert(walks_before(entries[i], entries[j]));
        }
        lemma_filter_keeps_order(rest, test);
        let out = entries.filter(test);
        if test(entries.last()) {
            assert(out == rest.filter(test).push(entries.last()));
            assert forall|i: int, j: int| 0 <= i < j < out.len() implies #[trigger] walks_before(
                out[i],
                out[j],
            ) by {
                if j == out.len() - 1 {
                    assert(rest.filter(test).contains(out[i]));
                    rest.lemma_filter_contains_rev(test, out[i]);
                    let k = choose|k: int| 0 <= k < rest.len() && rest[k] == out[i];
                    assert(walks_before(entries[k], entries[entries.len() - 1]));
                } else {
                    assert(walks_before(rest.filter(test)[i], rest.filter(test)[j]));
                }
            }
        }
    }
}

/// The table of the rates that authorities reported.
pub struct RateTable {
    entries: Vec<RateEntry>,
}

impl View for RateTable {
    type V = Seq<RateEntry>;

    closed spec fn view(&self) -> Seq<RateEntry> {
        self.entries@
    }
}

impl RateTable {
    #[verifier::type_invariant]
    spec fn ordered(self) -> bool {
        in_walk_order(self.entries@)
    }

    /// A table without reports.
    pub fn new() -> (table: RateTable)
        ensures
            table@ == Seq::<RateEntry>::empty(),
    {
        RateTable { entries: Vec::new() }
    }

    /// The reports, in the order of the walk.
    pub fn entries(&self) -> (entries: &Vec<RateEntry>)
        ensures
            entries@ == self@,
            in_walk_order(entries@),
    {
        proof {
            use_type_invariant(self);
        }
        &self.entries
    }

    /// Enters a report.
    pub fn report(&mut self, entry: RateEntry)
        ensures
            final(self)@ == reported(old(self)@, entry),
    {
        proof {
            use_type_invariant(&*self);
        }
        let mut entries: Vec<RateEntry> = Vec::new();
        std::mem::swap(&mut entries, &mut self.entries);
        let ghost before = entries@;
        let key = storage_key(&entry.authority);
        let mut place: usize = 0;
        while place < entries.len() && comes_before(
            storage_key(&entries[place].authority).as_slice(),
            key.as_slice(),
        )
            invariant
                place <= entries@.len(),
                entries@ == before,
                key@ == storage_key_of(entry.authority),
                forall|i: int| 0 <= i < place ==> walks_before(#[trigger] before[i], entry),
            ensures
                place <= entries@.len(),
                entries@ == before,
                forall|i: int| 0 <= i < place ==> walks_before(#[trigger] before[i], entry),
                place < entries@.len() ==> !walks_before(before[place as int], entry),
            decreases entries@.len() - place,
        {
            place += 1;
        }
        if place < entries.len() && same_bytes(&entries[place].authority, &entry.authority) {
            entries[place] = entry;
            proof {
                lemma_reported_replaces(before, place as int, entry);
            }
        } else {
            if place < entries.len() {
                let other = storage_key(&entries[place].authority);
                proof {
                    lemma_lex_total(other@, key@);
                    if other@ == key@ {
                        assert(entries@[place as int].authority@ == entry.authority@);
                        assert(entries@[place as int].authority =~= entry.authority);
                    }
                }
            }
            entries.insert(place, entry);
            proof {
                lemma_reported_inserts(before, place as int, entry);
            }
        }
        proof {
            lemma_reported_is_ordered(before, entry);
        }
        self.entries = entries;
    }

    /// The report of an authority: time, BTC, ETH; zeros where there is none.
    pub fn report_by(&self, authority: &AuthorityId) -> (report: (Moment, Dollars, Dollars))
        ensures
            report == report_of(self@, *authority),
    {
        proof {
            use_type_invariant(self);
        }
        let mut i: usize = 0;
        while i < self.entries.len()
            invariant
                i <= self.entries@.len(),
                in_walk_order(self.entries@),
                forall|j: int| 0 <= j < i ==> (#[trigger] self.entries@[j]).authority != *authority,
            decreases self.entries@.len() - i,
        {
            let entry: RateEntry = self.entries[i];
            if same_bytes(&entry.authority, authority) {
                proof {
                    assert(self@[i as int].authority == *authority);
                    let k = choose|k: int|
                        0 <= k < self@.len() && (#[trigger] self@[k]).authority == *authority;
                    lemma_lex_irreflexive(storage_key_of(*authority));
                    if i < k {
                        assert(walks_before(self.entries@[i as int], self.entries@[k]));
                    }
                }
                return (entry.time, entry.btc, entry.eth);
            }
            i += 1;
        }
        (0, 0, 0)
    }

    /// Walks through the table: drops the reports that have expired, and passes the others through
    /// the median filters.
    pub fn sweep(
        &mut self,
        now: Moment,
        expire: Moment,
        width: usize,
        current: (Dollars, Dollars),
    ) -> (rates: (Dollars, Dollars))
        requires
            width * 48 <= isize::MAX,
            fresh(old(self)@, now, expire).len() > 0 ==> width > 0,
        ensures
            final(self)@ == fresh(old(self)@, now, expire),
            rates == median_rates(current, fresh(old(self)@, now, expire), width as nat),
    {
        proof {
            use_type_invariant(&*self);
        }
        let mut entries: Vec<RateEntry> = Vec::new();
        std::mem::swap(&mut entries, &mut self.entries);
        let ghost all = entries@;
        let ghost test = |e: RateEntry| is_fresh(e, now, expire);
        let mut kept: Vec<RateEntry> = Vec::new();
        let mut btc_filter = filter_new(width);
        let mut eth_filter = filter_new(width);
        let mut btc_filtered_rate: Dollars = current.0;
        let mut eth_filtered_rate: Dollars = current.1;
        let mut i: usize = 0;
        proof {
            reveal(Seq::filter);
            assert(all.take(0).filter(test) =~= Seq::empty());
            assert(btc_rates(kept@) =~= Seq::empty());
            assert(eth_rates(kept@) =~= Seq::empty());
        }
        while i < entries.len()
            invariant
                i <= entries@.len(),
                entries@ == all,
                test == |e: RateEntry| is_fresh(e, now, expire),
                fresh(all, now, expire).len() > 0 ==> width > 0,
                kept@ == all.take(i as int).filter(test),
                filter_width(btc_filter) == width,
                filter_width(eth_filter) == width,
                filter_window(btc_filter) == last_of(btc_rates(kept@), width as nat),
                filter_window(eth_filter) == last_of(eth_rates(kept@), width as nat),
                (btc_filtered_rate, eth_filtered_rate) == median_rates(
                    current,
                    kept@,
                    width as nat,
                ),
            decreases entries@.len() - i,
        {
            let entry: RateEntry = entries[i];
            let ghost before = kept@;
            proof {
                assert(all.take(i + 1) =~= all.take(i as int).push(entry));
                all.take(i as int).lemma_filter_push(entry, test);
            }
            if now.saturating_sub(entry.time) < expire {
                proof {
                    assert(test(all[i as int]));
                    all.lemma_filter_contains(test, i as int);
                    assert(fresh(all, now, expire).contains(entry));
                    lemma_last_of_push(btc_rates(before), entry.btc, width as nat);
                    lemma_last_of_push(eth_rates(before), entry.eth, width as nat);
                }
                // Use value in filter when not expired
                btc_filtered_rate = filter_consume(&mut btc_filter, entry.btc);
                eth_filtered_rate = filter_consume(&mut eth_filter, entry.eth);
                kept.push(entry);
                proof {
                    assert(btc_rates(kept@) =~= btc_rates(before).push(entry.btc));
                    assert(eth_rates(kept@) =~= eth_rates(before).push(entry.eth));
                }
            }
            i += 1;
        }
        proof {
            assert(all.take(i as int) =~= all);
            lemma_filter_keeps_order(all, test);
        }
        self.entries = kept;
        (btc_filtered_rate, eth_filtered_rate)
    }
}

/// Of two entries only one comes first.
proof fn lemma_order_is_strict(a: RateEntry, b: RateEntry)
    requires
        walks_before(a, b),
    ensures
        !walks_before(b, a),
{
    if walks_before(b, a) {
        lemma_lex_transitive(
            storage_key_of(a.authority),
            storage_key_of(b.authority),
            storage_key_of(a.authority),
        );
        lemma_lex_irreflexive(storage_key_of(a.authority));
    }
}

/// A report of an authority that is in the table already.
proof fn lemma_reported_replaces(entries: Seq<RateEntry>, place: int, entry: RateEntry)
    requires
        in_walk_order(entries),
        0 <= place < entries.len(),
        entries[place].authority == entry.authority,
    ensures
        reported(entries, entry) == entries.update(place, entry),
{
    let own = entries[place];
    lemma_lex_irreflexive(storage_key_of(entry.authority));
    assert forall|i: int| 0 <= i < entries.len() implies (i < place <==> walks_before(
        #[trigger] entries[i],
        entry,
    )) && (place < i <==> walks_before(entry, entries[i])) by {
        if i < place {
            assert(walks_before(entries[i], own));
            lemma_order_is_strict(entries[i], entry);
        } else if place < i {
            assert(walks_before(own, entries[i]));
            lemma_order_is_strict(entry, entries[i]);
        }
    }
    lemma_filter_first(entries, place, |e: RateEntry| walks_before(e, entry));
    lemma_filter_last(entries, place + 1, |e: RateEntry| walks_before(entry, e));
    assert(entries.update(place, entry) =~= entries.take(place).push(entry) + entries.skip(
        place + 1,
    ));
}

/// A report of an authority that is not in the table.
proof fn lemma_reported_inserts(entries: Seq<RateEntry>, place: int, entry: RateEntry)
    requires
        in_walk_order(entries),
        0 <= place <= entries.len(),
        forall|i: int| 0 <= i < place ==> walks_before(#[trigger] entries[i], entry),
        place < entries.len() ==> walks_before(entry, entries[place]),
    ensures
        reported(entries, entry) == entries.insert(place, entry),
{
    assert forall|i: int| 0 <= i < entries.len() implies (i < place <==> walks_before(
        #[trigger] entries[i],
        entry,
    )) && (place <= i <==> walks_before(entry, entries[i])) by {
        if i < place {
            lemma_order_is_strict(entries[i], entry);
        } else {
            if place < i {
                assert(walks_before(entries[place], entries[i]));
                lemma_lex_transitive(
                    storage_key_of(entry.authority),
                    storage_key_of(entries[place].authority),
                    storage_key_of(entries[i].authority),
                );
            }
            lemma_order_is_strict(entry, entries[i]);
        }
    }
    lemma_filter_first(entries, place, |e: RateEntry| walks_before(e, entry));
    lemma_filter_last(entries, place, |e: RateEntry| walks_before(entry, e));
    assert(entries.insert(place, entry) =~= entries.take(place).push(entry) + entries.skip(place));
}

/// A report keeps the table in the order of the walk.
proof fn lemma_reported_is_ordered(entries: Seq<RateEntry>, entry: RateEntry)
    requires
        in_walk_order(entries),
    ensures
        in_walk_order(reported(entries, entry)),
{
    let smaller = |e: RateEntry| walks_before(e, entry);
    let larger = |e: RateEntry| walks_before(entry, e);
    let (head, tail) = (entries.filter(smaller), entries.filter(larger));
    let all = reported(entries, entry);
    lemma_filter_keeps_order(entries, smaller);
    lemma_filter_keeps_order(entries, larger);
    assert(all == head.push(entry) + tail);
    assert forall|i: int, j: int| 0 <= i < j < all.len() implies #[trigger] walks_before(
        all[i],
        all[j],
    ) by {
        let h = head.len();
        if j < h {
            assert(walks_before(head[i], head[j]));
        } else if i > h {
            assert(walks_before(tail[i - h - 1], tail[j - h - 1]));
        } else {
            if i < h {
                entries.lemma_filter_pred(smaller, i);
            }
            if j > h {
                entries.lemma_filter_pred(larger, j - h - 1);
            }
            if i < h && j > h {
                lemma_lex_transitive(
                    storage_key_of(all[i].authority),
                    storage_key_of(entry.authority),
                    storage_key_of(all[j].authority),
                );
            }
        }
    }
}

/// After a report and after expired ones are dropped, the table is still in the lexicographic order
/// of storage keys.
pub proof fn law_the_table_stays_in_order(
    entries: Seq<RateEntry>,
    entry: RateEntry,
    now: Moment,
    expire: Moment,
    i: int,
    j: int,
)
    requires
        forall|i: int, j: int|
            0 <= i < j < entries.len() ==> lex_less(
                storage_key_of((#[trigger] entries[i]).authority),
                storage_key_of((#[trigger] entries[j]).authority),
            ),
        0 <= i < j < fresh(reported(entries, entry), now, expire).len(),
    ensures
        lex_less(
            storage_key_of(fresh(reported(entries, entry), now, expire)[i].authority),
            storage_key_of(fresh(reported(entries, entry), now, expire)[j].authority),
        ),
{
    assert forall|i: int, j: int| 0 <= i < j < entries.len() implies #[trigger] walks_before(
        entries[i],
        entries[j],
    ) by {}
    lemma_reported_is_ordered(entries, entry);
    lemma_filter_keeps_order(reported(entries, entry), |e: RateEntry| is_fresh(e, now, expire));
    let table = fresh(reported(entries, entry), now, expire);
    assert(walks_before(table[i], table[j]));
}

/// Each report counts for BTC with what it says of BTC, and for ETH with what it says of ETH.
pub proof fn law_rates_do_not_mix(entries: Seq<RateEntry>, i: int)
    requires
        0 <= i < entries.len(),
    ensures
        btc_rates(entries).len() == entries.len(),
        eth_rates(entries).len() == entries.len(),
        btc_rates(entries)[i] == entries[i].btc,
        eth_rates(entries)[i] == entries[i].eth,
{
}

/// What an authority reported last is found in the table; an authority without a report has zeros.
pub proof fn law_reports_are_found(entries: Seq<RateEntry>, i: int, authority: AuthorityId)
    requires
        in_walk_order(entries),
    ensures
        0 <= i < entries.len() && entries[i].authority == authority ==> report_of(
            entries,
            authority,
        ) == (entries[i].time, entries[i].btc, entries[i].eth),
        (forall|k: int| 0 <= k < entries.len() ==> (#[trigger] entries[k]).authority != authority)
            ==> report_of(entries, authority) == (0u64, 0u128, 0u128),
{
    if 0 <= i < entries.len() && entries[i].authority == authority {
        let k = choose|k: int|
            0 <= k < entries.len() && (#[trigger] entries[k]).authority == authority;
        lemma_lex_irreflexive(storage_key_of(authority));
        if i < k {
            assert(walks_before(entries[i], entries[k]));
        } else if k < i {
            assert(walks_before(entries[k], entries[i]));
        }
    }
}

} // verus!
