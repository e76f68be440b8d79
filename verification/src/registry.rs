//! The tunnel registry: which local endpoint the traffic of each tunnel is
//! delivered to. It is built once from the configured tunnels and only read
//! afterwards.

use crate::address::Endpoint;
use std::collections::HashMap;
use vstd::prelude::*;

verus! {

broadcast use vstd::std_specs::hash::group_hash_axioms;

/// One configured tunnel. Local traffic that arrives at
/// `uplink_listen_address` is encapsulated with `teid`; encapsulated traffic
/// that arrives with `teid` is delivered to `downlink_target_address`.
#[derive(Clone, Copy, Debug, PartialEq, Eq, Structural)]
pub struct TunnelEntry {
    pub teid: u32,
    pub uplink_listen_address: Endpoint,
    pub downlink_target_address: Endpoint,
}

/// The routes that a list of tunnels defines: each tunnel identifier leads to
/// the downlink target of the entry that names it. Entries are taken in
/// order, so where two share an identifier the later one stands.
pub open spec fn routes(entries: Seq<TunnelEntry>) -> Map<u32, Endpoint>
    decreases entries.len(),
{
    if entries.len() == 0 {
        Map::empty()
    } else {
        routes(entries.drop_last()).insert(
            entries.last().teid,
            entries.last().downlink_target_address,
        )
    }
}

/// Whether some entry of the list names `teid`.
pub open spec fn teid_listed(entries: Seq<TunnelEntry>, teid: u32) -> bool {
    exists|i: int| 0 <= i < entries.len() && entries[i].teid == teid
}

/// Whether the entry at `index` decides the route of its tunnel identifier:
/// every later entry with the same identifier has the same downlink target.
pub open spec fn decides_route(entries: Seq<TunnelEntry>, index: int) -> bool {
    &&& 0 <= index < entries.len()
    &&& forall|j: int|
        index < j < entries.len() && entries[j].teid == entries[index].teid
            ==> entries[j].downlink_target_address == entries[index].downlink_target_address
}

/// Whether a later entry names the tunnel identifier of the entry at `index`
/// again.
pub open spec fn overridden(entries: Seq<TunnelEntry>, index: int) -> bool {
    exists|j: int| index < j < entries.len() && entries[j].teid == entries[index].teid
}

/// Whether two entries of the list share a tunnel identifier.
pub open spec fn has_collision(entries: Seq<TunnelEntry>) -> bool {
    exists|i: int, j: int| 0 <= i < j < entries.len() && entries[i].teid == entries[j].teid
}

/// The tunnels that are in force: the entries that no later entry overrides,
/// in the order of the list.
pub open spec fn effective(entries: Seq<TunnelEntry>) -> Seq<TunnelEntry>
    decreases entries.len(),
{
    if entries.len() == 0 {
        Seq::empty()
    } else {
        let rest = entries.drop_first();
        if teid_listed(rest, entries[0].teid) {
            effective(rest)
        } else {
            seq![entries[0]] + effective(rest)
        }
    }
}

/// A mapping from tunnel identifier to downlink target, fixed once built.
pub struct TunnelRegistry {
    targets: HashMap<u32, Endpoint>,
}

impl View for TunnelRegistry {
    type V = Map<u32, Endpoint>;

    closed spec fn view(&self) -> Map<u32, Endpoint> {
        self.targets@
    }
}

impl TunnelRegistry {
    /// Builds the registry of a list of tunnels. Where identifiers collide
    /// the last entry wins.
    pub fn build(entries: &[TunnelEntry]) -> (registry: TunnelRegistry)
        ensures
            registry@ == routes(entries@),
            forall|teid: u32| registry@.contains_key(teid) <==> teid_listed(entries@, teid),
            forall|i: int|
                #[trigger] decides_route(entries@, i) ==> registry@.get(entries@[i].teid) == Some(
                    entries@[i].downlink_target_address,
                ),
    {
        let mut targets: HashMap<u32, Endpoint> = HashMap::new();
        let mut i: usize = 0;
        while i < entries.len()
            invariant
                i <= entries.len(),
                targets@ == routes(entries@.take(i as int)),
            decreases entries.len() - i,
        {
            let entry: TunnelEntry = entries[i];
            targets.insert(entry.teid, entry.downlink_target_address);
            proof {
                let upto = entries@.take(i + 1);
                assert(upto.drop_last() == entries@.take(i as int));
                assert(upto.last() == entry);
            }
            i += 1;
        }
        proof {
            assert(entries@.take(i as int) == entries@);
            assert forall|teid: u32| routes(entries@).contains_key(teid) <==> teid_listed(
                entries@,
                teid,
            ) by {
                lemma_routes_domain(entries@, teid);
            }
            assert forall|k: int| #[trigger] decides_route(entries@, k) implies routes(entries@).get(
                entries@[k].teid,
            ) == Some(entries@[k].downlink_target_address) by {
                lemma_deciding_entry_is_found(entries@, k);
            }
        }
        TunnelRegistry { targets }
    }

    /// The downlink target of tunnel `teid`, or nothing where the registry
    /// does not know the tunnel.
    pub fn lookup(&self, teid: u32) -> (target: Option<Endpoint>)
        ensures
            target == self@.get(teid),
    {
        match self.targets.get(&teid) {
            Some(endpoint) => Some(*endpoint),
            None => None,
        }
    }
}

/// The tunnels that are in force, one for each tunnel identifier of the
/// list: where identifiers collide only the last entry stays. The list held a
/// collision exactly when the result is shorter than the list.
pub fn effective_tunnels(entries: &[TunnelEntry]) -> (tunnels: Vec<TunnelEntry>)
    ensures
        tunnels@ == effective(entries@),
        routes(tunnels@) == routes(entries@),
        !has_collision(tunnels@),
        tunnels@.len() <= entries@.len(),
        tunnels@.len() == entries@.len() <==> !has_collision(entries@),
{
    let mut tunnels: Vec<TunnelEntry> = Vec::new();
    let mut i: usize = 0;
    proof {
        assert(entries@.skip(0) == entries@);
        assert(tunnels@ + effective(entries@) == effective(entries@));
    }
    while i < entries.len()
        invariant
            i <= entries.len(),
            effective(entries@) == tunnels@ + effective(entries@.skip(i as int)),
        decreases entries.len() - i,
    {
        let entry: TunnelEntry = entries[i];
        let overridden: bool = listed_from(entries, i + 1, entry.teid);
        proof {
            let pending = entries@.skip(i as int);
            assert(pending.drop_first() == entries@.skip(i + 1));
            assert(pending[0] == entry);
            assert(tunnels@ + (seq![entry] + effective(entries@.skip(i + 1))) == tunnels@.push(
                entry,
            ) + effective(entries@.skip(i + 1)));
        }
        if !overridden {
            tunnels.push(entry);
        }
        i += 1;
    }
    proof {
        assert(tunnels@ + Seq::<TunnelEntry>::empty() == tunnels@);
        lemma_effective_keeps_routes(entries@);
        lemma_effective_has_no_collision(entries@);
        lemma_effective_length(entries@);
    }
    tunnels
}

/// Whether an entry at `start` or later names `teid`.
fn listed_from(entries: &[TunnelEntry], start: usize, teid: u32) -> (found: bool)
    requires
        start <= entries@.len(),
    ensures
        found == teid_listed(entries@.skip(start as int), teid),
{
    let mut j: usize = start;
    while j < entries.len()
        invariant
            start <= j <= entries.len(),
            forall|k: int| start <= k < j ==> entries@[k].teid != teid,
        decreases entries.len() - j,
    {
        if entries[j].teid == teid {
            assert(entries@.skip(start as int)[j - start].teid == teid);
            return true;
        }
        j += 1;
    }
    assert forall|k: int| 0 <= k < entries@.skip(start as int).len() implies entries@.skip(
        start as int,
    )[k].teid != teid by {
        assert(entries@.skip(start as int)[k] == entries@[start + k]);
    }
    false
}

/// The registry knows exactly the tunnel identifiers that the list names.
pub proof fn lemma_routes_domain(entries: Seq<TunnelEntry>, teid: u32)
    ensures
        routes(entries).contains_key(teid) <==> teid_listed(entries, teid),
        routes(entries).get(teid) is None <==> !teid_listed(entries, teid),
    decreases entries.len(),
{
    if entries.len() > 0 {
        let init = entries.drop_last();
        lemma_routes_domain(init, teid);
        if teid_listed(init, teid) {
            let i = choose|i: int| 0 <= i < init.len() && init[i].teid == teid;
            assert(entries[i].teid == teid);
        }
        if teid_listed(entries, teid) {
            let i = choose|i: int| 0 <= i < entries.len() && entries[i].teid == teid;
            if i < init.len() {
                assert(init[i].teid == teid);
            }
        }
    }
}

/// Looking up the identifier of a listed entry gives that entry's downlink
/// target, provided no later entry names the same identifier with another
/// target.
pub proof fn lemma_deciding_entry_is_found(entries: Seq<TunnelEntry>, index: int)
    requires
        decides_route(entries, index),
    ensures
        routes(entries).get(entries[index].teid) == Some(entries[index].downlink_target_address),
    decreases entries.len(),
{
    if index < entries.len() - 1 {
        let init = entries.drop_last();
        assert forall|j: int|
            index < j < init.len() && init[j].teid == init[index].teid implies init[j].downlink_target_address
            == init[index].downlink_target_address by {
            assert(init[j] == entries[j]);
        }
        lemma_deciding_entry_is_found(init, index);
    }
}

/// Where two entries share a tunnel identifier, the later one's downlink
/// target is the one found.
pub proof fn lemma_later_entry_wins(entries: Seq<TunnelEntry>, earlier: int, later: int)
    requires
        0 <= earlier < later < entries.len(),
        entries[earlier].teid == entries[later].teid,
        decides_route(entries, later),
    ensures
        routes(entries).get(entries[earlier].teid) == Some(entries[later].downlink_target_address),
{
    lemma_deciding_entry_is_found(entries, later);
}

/// A registry built from two entries that share one tunnel identifier leads
/// to the second entry's downlink target.
pub proof fn lemma_duplicate_teid_keeps_second(first: TunnelEntry, second: TunnelEntry)
    requires
        first.teid == second.teid,
    ensures
        routes(seq![first, second]).get(first.teid) == Some(second.downlink_target_address),
{
    lemma_deciding_entry_is_found(seq![first, second], 1);
}

/// The routes of a list that starts with `head`: those of the rest, and the
/// route of `head` unless the rest names its identifier again.
proof fn lemma_routes_prepend(head: TunnelEntry, rest: Seq<TunnelEntry>)
    ensures
        routes(seq![head] + rest) == if teid_listed(rest, head.teid) {
            routes(rest)
        } else {
            routes(rest).insert(head.teid, head.downlink_target_address)
        },
    decreases rest.len(),
{
    let all = seq![head] + rest;
    if rest.len() == 0 {
        assert(all.drop_last() == rest);
        assert(all.last() == head);
        assert(routes(rest) == Map::<u32, Endpoint>::empty());
    } else {
        let init = rest.drop_last();
        let last = rest.last();
        assert(all.drop_last() == seq![head] + init);
        assert(all.last() == last);
        lemma_routes_prepend(head, init);
        if teid_listed(init, head.teid) {
            let i = choose|i: int| 0 <= i < init.len() && init[i].teid == head.teid;
            assert(rest[i].teid == head.teid);
        }
        if last.teid == head.teid {
            assert(rest[rest.len() - 1].teid == head.teid);
        }
        if teid_listed(rest, head.teid) {
            let i = choose|i: int| 0 <= i < rest.len() && rest[i].teid == head.teid;
            if i < init.len() {
                assert(init[i].teid == head.teid);
            }
        }
        assert(routes(all) =~= if teid_listed(rest, head.teid) {
            routes(rest)
        } else {
            routes(rest).insert(head.teid, head.downlink_target_address)
        });
    }
}

/// The list that starts with `head` and goes on with `rest`, split again.
proof fn lemma_split_first(entries: Seq<TunnelEntry>)
    requires
        entries.len() > 0,
    ensures
        entries == seq![entries[0]] + entries.drop_first(),
{
    assert(entries =~= seq![entries[0]] + entries.drop_first());
}

/// The tunnels in force define the same routes as the whole list, and name
/// the same identifiers.
pub proof fn lemma_effective_keeps_routes(entries: Seq<TunnelEntry>)
    ensures
        routes(effective(entries)) == routes(entries),
        forall|teid: u32| teid_listed(effective(entries), teid) <==> teid_listed(entries, teid),
    decreases entries.len(),
{
    if entries.len() > 0 {
        let head = entries[0];
        let rest = entries.drop_first();
        lemma_effective_keeps_routes(rest);
        lemma_split_first(entries);
        lemma_routes_prepend(head, rest);
        lemma_routes_prepend(head, effective(rest));
    }
    assert forall|teid: u32| teid_listed(effective(entries), teid) <==> teid_listed(
        entries,
        teid,
    ) by {
        lemma_routes_domain(effective(entries), teid);
        lemma_routes_domain(entries, teid);
    }
}

/// The tunnels in force are the entries that no later entry overrides, and
/// no others.
pub proof fn lemma_effective_members(entries: Seq<TunnelEntry>, entry: TunnelEntry)
    ensures
        effective(entries).contains(entry) <==> exists|i: int|
            0 <= i < entries.len() && entries[i] == entry && !overridden(entries, i),
    decreases entries.len(),
{
    if entries.len() > 0 {
        let head = entries[0];
        let rest = entries.drop_first();
        let kept = effective(rest);
        lemma_effective_members(rest, entry);
        assert(overridden(entries, 0) <==> teid_listed(rest, head.teid)) by {
            if overridden(entries, 0) {
                let j = choose|j: int| 0 < j < entries.len() && entries[j].teid == head.teid;
                assert(rest[j - 1].teid == head.teid);
            }
            if teid_listed(rest, head.teid) {
                let j = choose|j: int| 0 <= j < rest.len() && rest[j].teid == head.teid;
                assert(entries[j + 1].teid == head.teid);
            }
        }
        assert forall|i: int| 0 <= i < rest.len() implies (overridden(rest, i) <==> overridden(
            entries,
            i + 1,
        )) by {
            if overridden(rest, i) {
                let j = choose|j: int| i < j < rest.len() && rest[j].teid == rest[i].teid;
                assert(entries[j + 1].teid == entries[i + 1].teid);
            }
            let shifted = i + 1;
            if overridden(entries, shifted) {
                let j = choose|j: int|
                    shifted < j < entries.len() && entries[j].teid == entries[shifted].teid;
                assert(rest[j - 1].teid == rest[i].teid);
            }
        }
        if effective(entries).contains(entry) {
            let k = choose|k: int| 0 <= k < effective(entries).len() && effective(entries)[k] == entry;
            if !teid_listed(rest, head.teid) && k == 0 {
                assert(entries[0] == entry && !overridden(entries, 0));
            } else {
                if !teid_listed(rest, head.teid) {
                    assert(kept[k - 1] == entry);
                }
                assert(kept.contains(entry));
                let i = choose|i: int| 0 <= i < rest.len() && rest[i] == entry && !overridden(rest, i);
                assert(entries[i + 1] == entry && !overridden(entries, i + 1));
            }
        }
        if exists|i: int| 0 <= i < entries.len() && entries[i] == entry && !overridden(entries, i) {
            let i = choose|i: int|
                0 <= i < entries.len() && entries[i] == entry && !overridden(entries, i);
            if i == 0 {
                assert(effective(entries)[0] == entry);
            } else {
                assert(rest[i - 1] == entry && !overridden(rest, i - 1));
                let k = choose|k: int| 0 <= k < kept.len() && kept[k] == entry;
                if !teid_listed(rest, head.teid) {
                    assert(effective(entries)[k + 1] == entry);
                }
            }
        }
    }
}

/// No two of the tunnels in force share an identifier.
pub proof fn lemma_effective_has_no_collision(entries: Seq<TunnelEntry>)
    ensures
        !has_collision(effective(entries)),
    decreases entries.len(),
{
    if entries.len() > 0 {
        let head = entries[0];
        let rest = entries.drop_first();
        lemma_effective_has_no_collision(rest);
        lemma_effective_keeps_routes(rest);
        let kept = effective(rest);
        if !teid_listed(rest, head.teid) {
            let all = seq![head] + kept;
            assert forall|i: int, j: int| 0 <= i < j < all.len() implies all[i].teid
                != all[j].teid by {
                assert(all[j] == kept[j - 1]);
                if i == 0 {
                    assert(!teid_listed(kept, head.teid));
                } else {
                    assert(all[i] == kept[i - 1]);
                    assert(!(0 <= i - 1 < j - 1 < kept.len() && kept[i - 1].teid == kept[j
                        - 1].teid));
                }
            }
        }
    }
}

/// Overriding only removes entries: the tunnels in force are as many as the
/// entries exactly when no two entries share an identifier.
pub proof fn lemma_effective_length(entries: Seq<TunnelEntry>)
    ensures
        effective(entries).len() <= entries.len(),
        effective(entries).len() == entries.len() <==> !has_collision(entries),
    decreases entries.len(),
{
    if entries.len() > 0 {
        let head = entries[0];
        let rest = entries.drop_first();
        lemma_effective_length(rest);
        if has_collision(rest) {
            let (i, j) = choose|i: int, j: int|
                0 <= i < j < rest.len() && rest[i].teid == rest[j].teid;
            assert(entries[i + 1].teid == entries[j + 1].teid);
        }
        if teid_listed(rest, head.teid) {
            let j = choose|j: int| 0 <= j < rest.len() && rest[j].teid == head.teid;
            assert(entries[0].teid == entries[j + 1].teid);
        }
        if has_collision(entries) {
            let (i, j) = choose|i: int, j: int|
                0 <= i < j < entries.len() && entries[i].teid == entries[j].teid;
            if i == 0 {
                assert(rest[j - 1].teid == head.teid);
            } else {
                assert(rest[i - 1].teid == rest[j - 1].teid);
            }
        }
    }
}

} // verus!
