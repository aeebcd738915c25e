//! A per-domain cache of resolved addresses with lazy expiry: an entry
//! whose time has come is removed by the lookup that finds it.

use vstd::prelude::*;

use crate::addr::IpAddress;
use crate::clock::{clock_now, millis_since};

verus! {

/// A cached answer: the address and the instant (milliseconds on the
/// cache's clock) from which it is no longer served.
#[derive(Clone, Copy, Debug, PartialEq, Eq, Structural)]
pub struct DnsEntry {
    pub address: IpAddress,
    pub expired_time: u128,
}

/// The entry that an update at `now` (milliseconds) with a lifetime of
/// `ttl_secs` seconds records.
pub open spec fn fresh_entry(address: IpAddress, now: u64, ttl_secs: u64) -> DnsEntry {
    DnsEntry { address, expired_time: (now + ttl_secs * 1000) as u128 }
}

/// Whether `m` holds an entry for `d` that is still served at `now`.
pub open spec fn live_at(m: Map<Seq<char>, DnsEntry>, d: Seq<char>, now: u64) -> bool {
    m.contains_key(d) && (now as u128) < m[d].expired_time
}

/// The cache's contents after an update.
pub open spec fn after_update(
    m: Map<Seq<char>, DnsEntry>,
    d: Seq<char>,
    address: IpAddress,
    now: u64,
    ttl_secs: u64,
) -> Map<Seq<char>, DnsEntry> {
    m.insert(d, fresh_entry(address, now, ttl_secs))
}

/// What a lookup of `d` at `now` answers.
pub open spec fn lookup_answer(m: Map<Seq<char>, DnsEntry>, d: Seq<char>, now: u64) -> Option<
    IpAddress,
> {
    if live_at(m, d, now) {
        Some(m[d].address)
    } else {
        None
    }
}

/// The cache's contents after a lookup of `d` at `now`: an expired entry
/// for `d` is gone, all else stays.
pub open spec fn after_lookup(m: Map<Seq<char>, DnsEntry>, d: Seq<char>, now: u64) -> Map<
    Seq<char>,
    DnsEntry,
> {
    if m.contains_key(d) && !live_at(m, d, now) {
        m.remove(d)
    } else {
        m
    }
}

/// A lookup made after an update of the same domain, before its lifetime
/// has run out, answers the address just recorded.
pub proof fn lemma_update_then_query(
    m: Map<Seq<char>, DnsEntry>,
    d: Seq<char>,
    address: IpAddress,
    now: u64,
    ttl_secs: u64,
    later: u64,
)
    requires
        now <= later,
        later < now + ttl_secs * 1000,
    ensures
        lookup_answer(after_update(m, d, address, now, ttl_secs), d, later) == Some(address),
        after_lookup(after_update(m, d, address, now, ttl_secs), d, later) == after_update(
            m,
            d,
            address,
            now,
            ttl_secs,
        ),
{
}

/// A lookup at or after the expiry answers nothing and removes the entry,
/// so a further lookup of that domain answers nothing as well.
pub proof fn lemma_expired_entry_evicted(
    m: Map<Seq<char>, DnsEntry>,
    d: Seq<char>,
    address: IpAddress,
    now: u64,
    ttl_secs: u64,
    later: u64,
    again: u64,
)
    requires
        later >= now + ttl_secs * 1000,
    ensures
        lookup_answer(after_update(m, d, address, now, ttl_secs), d, later) is None,
        !after_lookup(after_update(m, d, address, now, ttl_secs), d, later).contains_key(d),
        lookup_answer(after_lookup(after_update(m, d, address, now, ttl_secs), d, later), d, again)
            is None,
{
}

/// Two updates of one domain leave a single entry for it, holding the
/// second address and the expiry computed by the second update.
pub proof fn lemma_second_update_wins(
    m: Map<Seq<char>, DnsEntry>,
    d: Seq<char>,
    first: IpAddress,
    first_now: u64,
    second: IpAddress,
    second_now: u64,
    ttl_secs: u64,
)
    ensures
        after_update(after_update(m, d, first, first_now, ttl_secs), d, second, second_now, ttl_secs)
            == m.insert(d, fresh_entry(second, second_now, ttl_secs)),
        after_update(
            after_update(m, d, first, first_now, ttl_secs),
            d,
            second,
            second_now,
            ttl_secs,
        ).dom() == m.dom().insert(d),
        after_update(
            after_update(m, d, first, first_now, ttl_secs),
            d,
            second,
            second_now,
            ttl_secs,
        )[d] == fresh_entry(second, second_now, ttl_secs),
{
    assert(after_update(after_update(m, d, first, first_now, ttl_secs), d, second, second_now, ttl_secs)
        =~= m.insert(d, fresh_entry(second, second_now, ttl_secs)));
}

/// Domains (compared exactly, case included) mapped to their cached entry,
/// at most one per domain.
pub struct DnsCache {
    domains: Vec<String>,
    entries: Vec<DnsEntry>,
    origin: std::time::Instant,
    contents: Ghost<Map<Seq<char>, DnsEntry>>,
}

impl View for DnsCache {
    type V = Map<Seq<char>, DnsEntry>;

    closed spec fn view(&self) -> Map<Seq<char>, DnsEntry> {
        self.contents@
    }
}

impl DnsCache {
    /// The domains and entries line up, no domain appears twice, and the
    /// contents are exactly those pairs.
    pub closed spec fn wf(&self) -> bool {
        &&& self.domains.len() == self.entries.len()
        &&& forall|i: int, j: int|
            0 <= i < j < self.domains.len() ==> self.domains@[i]@ != self.domains@[j]@
        &&& forall|i: int|
            0 <= i < self.domains.len() ==> #[trigger] self.contents@.contains_key(
                self.domains@[i]@,
            ) && self.contents@[self.domains@[i]@] == self.entries@[i]
        &&& forall|k: Seq<char>|
            #[trigger] self.contents@.contains_key(k) ==> exists|i: int|
                0 <= i < self.domains.len() && self.domains@[i]@ == k
    }

    /// An empty cache, whose clock starts now.
    pub fn new() -> (r: DnsCache)
        ensures
            r.wf(),
            r@ == Map::<Seq<char>, DnsEntry>::empty(),
    {
        DnsCache {
            domains: Vec::new(),
            entries: Vec::new(),
            origin: clock_now(),
            contents: Ghost(Map::empty()),
        }
    }

    /// Milliseconds on the cache's clock.
    pub fn now(&self) -> u64 {
        millis_since(&self.origin)
    }

    /// The number of domains held.
    pub fn len(&self) -> (r: usize)
        requires
            self.wf(),
        ensures
            r == self@.len(),
    {
        proof {
            self.lemma_len();
        }
        self.domains.len()
    }

    proof fn lemma_len(&self)
        requires
            self.wf(),
        ensures
            self@.dom().finite(),
            self@.len() == self.domains.len(),
    {
        let keys = self.domains@.map_values(|s: String| s@);
        assert(keys.no_duplicates()) by {
            assert forall|i: int, j: int| 0 <= i < keys.len() && 0 <= j < keys.len() && i != j
                implies keys[i] != keys[j] by {
                if i < j {
                } else {
                }
            }
        }
        assert(keys.to_set() =~= self@.dom()) by {
            assert forall|k: Seq<char>| self@.dom().contains(k) implies keys.to_set().contains(k) by {
                let i = choose|i: int| 0 <= i < self.domains.len() && self.domains@[i]@ == k;
                assert(keys[i] == k);
            }
            assert forall|k: Seq<char>| keys.to_set().contains(k) implies self@.dom().contains(k) by {
                let i = choose|i: int| 0 <= i < keys.len() && keys[i] == k;
                assert(self.contents@.contains_key(self.domains@[i]@));
            }
        }
        keys.unique_seq_to_set();
    }

    /// The position of `d` among the domains held.
    fn find(&self, d: &String) -> (r: Option<usize>)
        requires
            self.wf(),
        ensures
            match r {
                None => !self@.contains_key(d@),
                Some(i) => i < self.domains.len() && self.domains@[i as int]@ == d@,
            },
    {
        let mut i: usize = 0;
        while i < self.domains.len()
            invariant
                self.wf(),
                i <= self.domains.len(),
                forall|j: int| 0 <= j < i ==> self.domains@[j]@ != d@,
            decreases self.domains.len() - i,
        {
            if self.domains[i] == *d {
                return Some(i);
            }
            i = i + 1;
        }
        None
    }

    /// Records `address` for `domain`, served until `ttl_secs` seconds after
    /// `now`, in place of any earlier entry for it.
    pub fn update_at(&mut self, domain: String, address: IpAddress, now: u64, ttl_secs: u64)
        requires
            old(self).wf(),
        ensures
            final(self).wf(),
            final(self)@ == after_update(old(self)@, domain@, address, now, ttl_secs),
    {
        let expired_time: u128 = now as u128 + ttl_secs as u128 * 1000;
        let entry = DnsEntry { address, expired_time };
        let ghost d = domain@;
        match self.find(&domain) {
            Some(i) => {
                self.entries.set(i, entry);
                self.contents = Ghost(self.contents@.insert(d, entry));
                assert forall|k: Seq<char>| #[trigger] self.contents@.contains_key(k) implies exists|
                    j: int,
                | 0 <= j < self.domains.len() && self.domains@[j]@ == k by {
                    if k == d {
                        assert(self.domains@[i as int]@ == k);
                    } else {
                        assert(old(self).contents@.contains_key(k));
                    }
                }
            },
            None => {
                proof {
                    old(self).lemma_len();
                }
                self.domains.push(domain);
                self.entries.push(entry);
                self.contents = Ghost(self.contents@.insert(d, entry));
                assert forall|k: Seq<char>| #[trigger] self.contents@.contains_key(k) implies exists|
                    j: int,
                | 0 <= j < self.domains.len() && self.domains@[j]@ == k by {
                    if k == d {
                        assert(self.domains@[self.domains.len() - 1]@ == k);
                    } else {
                        assert(old(self).contents@.contains_key(k));
                        let j = choose|j: int|
                            0 <= j < old(self).domains.len() && old(self).domains@[j]@ == k;
                        assert(self.domains@[j]@ == k);
                    }
                }
            },
        }
    }

    /// The address cached for `domain` if it is still served at `now`; an
    /// entry found expired is removed.
    pub fn query_at(&mut self, domain: &String, now: u64) -> (r: Option<IpAddress>)
        requires
            old(self).wf(),
        ensures
            final(self).wf(),
            r == lookup_answer(old(self)@, domain@, now),
            final(self)@ == after_lookup(old(self)@, domain@, now),
    {
        match self.find(domain) {
            None => None,
            Some(i) => {
                assert(self.contents@.contains_key(self.domains@[i as int]@));
                let entry = self.entries[i];
                if (now as u128) < entry.expired_time {
                    Some(entry.address)
                } else {
                    let ghost d = domain@;
                    let _ = self.domains.remove(i);
                    let _ = self.entries.remove(i);
                    self.contents = Ghost(self.contents@.remove(d));
                    assert forall|a: int, b: int| 0 <= a < b < self.domains.len() implies self.domains@[a]@
                        != self.domains@[b]@ by {
                        let oa = if a < i { a } else { a + 1 };
                        let ob = if b < i { b } else { b + 1 };
                        assert(self.domains@[a] == old(self).domains@[oa]);
                        assert(self.domains@[b] == old(self).domains@[ob]);
                    }
                    assert forall|a: int| 0 <= a < self.domains.len() implies #[trigger] self.contents@.contains_key(
                        self.domains@[a]@,
                    ) && self.contents@[self.domains@[a]@] == self.entries@[a] by {
                        let oa = if a < i { a } else { a + 1 };
                        assert(self.domains@[a] == old(self).domains@[oa]);
                        assert(self.entries@[a] == old(self).entries@[oa]);
                        assert(old(self).contents@.contains_key(old(self).domains@[oa]@));
                        if oa < i {
                            assert(old(self).domains@[oa]@ != old(self).domains@[i as int]@);
                        } else {
                            assert(old(self).domains@[i as int]@ != old(self).domains@[oa]@);
                        }
                    }
                    assert forall|k: Seq<char>| #[trigger] self.contents@.contains_key(k) implies exists|
                        j: int,
                    | 0 <= j < self.domains.len() && self.domains@[j]@ == k by {
                        let oj = choose|j: int|
                            0 <= j < old(self).domains.len() && old(self).domains@[j]@ == k;
                        assert(oj != i);
                        let j = if oj < i { oj } else { oj - 1 };
                        assert(self.domains@[j] == old(self).domains@[oj]);
                    }
                    assert(self.domains.len() == self.entries.len());
                    assert(self.wf());
                    None
                }
            },
        }
    }
}

} // verus!
