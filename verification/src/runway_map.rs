//! The runway selected at each airport, for one role.

use vstd::prelude::*;

verus! {

/// Airports, each with the runway assigned to it.
pub type Assignments = Seq<(Seq<char>, Seq<char>)>;

/// No airport stands twice in the list.
pub open spec fn airports_distinct(pairs: Assignments) -> bool {
    forall|i: int, j: int| 0 <= i < j < pairs.len() ==> pairs[i].0 != pairs[j].0
}

/// The list holds the airport `icao`.
pub open spec fn holds_airport(pairs: Assignments, icao: Seq<char>) -> bool {
    exists|i: int| 0 <= i < pairs.len() && (#[trigger] pairs[i]).0 == icao
}

/// The mapping that a list of airports and runways stands for.
pub open spec fn mapping_of(pairs: Assignments) -> Map<Seq<char>, Seq<char>> {
    Map::new(
        |icao: Seq<char>| holds_airport(pairs, icao),
        |icao: Seq<char>|
            pairs[choose|i: int| 0 <= i < pairs.len() && (#[trigger] pairs[i]).0 == icao].1,
    )
}

/// A mapping from airports to runways that keeps the airports in the order
/// in which they were first entered.
#[derive(Debug)]
pub struct RunwayMap {
    entries: Vec<(String, String)>,
}

impl View for RunwayMap {
    type V = Map<Seq<char>, Seq<char>>;

    open spec fn view(&self) -> Map<Seq<char>, Seq<char>> {
        mapping_of(self.pairs())
    }
}

impl RunwayMap {
    /// No airport is entered twice.
    pub open spec fn wf(&self) -> bool {
        airports_distinct(self.pairs())
    }

    /// The airports with their runways, in the order in which the airports
    /// were first entered.
    pub closed spec fn pairs(&self) -> Assignments {
        self.entries.deep_view()
    }

    /// A mapping without airports.
    pub fn new() -> (map: RunwayMap)
        ensures
            map.wf(),
            map.pairs() == Seq::<(Seq<char>, Seq<char>)>::empty(),
            map@ == Map::<Seq<char>, Seq<char>>::empty(),
    {
        RunwayMap { entries: Vec::new() }
    }

    /// Enters `runway` for the airport `icao`, in place of the runway
    /// entered for it before if there is one.
    pub fn insert(&mut self, icao: String, runway: String)
        requires
            old(self).wf(),
        ensures
            final(self).wf(),
            final(self)@ == old(self)@.insert(icao@, runway@),
            holds_airport(old(self).pairs(), icao@) ==> exists|i: int|
                0 <= i < old(self).pairs().len()
                    && (#[trigger] old(self).pairs()[i]).0 == icao@
                    && final(self).pairs() == old(self).pairs().update(i, (icao@, runway@)),
            !holds_airport(old(self).pairs(), icao@)
                ==> final(self).pairs() == old(self).pairs().push((icao@, runway@)),
    {
        let ghost before = self.pairs();
        let ghost key = icao@;
        let ghost value = runway@;
        let n: usize = self.entries.len();
        let mut i: usize = 0;
        while i < n
            invariant
                n == self.entries.len(),
                i <= n,
                key == icao@,
                value == runway@,
                self.pairs() == before,
                old(self).pairs() == before,
                airports_distinct(before),
                forall|j: int| 0 <= j < i ==> (#[trigger] before[j]).0 != key,
            decreases n - i,
        {
            assert(before[i as int].0 == self.entries[i as int].0@);
            if self.entries[i].0 == icao {
                self.entries.set(i, (icao, runway));
                proof {
                    let after = self.pairs();
                    assert(after =~= before.update(i as int, (key, value)));
                    lemma_update_inserts(before, i as int, key, value);
                }
                return;
            }
            i += 1;
        }
        self.entries.push((icao, runway));
        proof {
            let after = self.pairs();
            assert(after =~= before.push((key, value)));
            lemma_push_inserts(before, key, value);
        }
    }

    /// The airports with their runways as a list, in the order in which the
    /// airports were first entered.
    pub fn as_pairs(&self) -> (pairs: &Vec<(String, String)>)
        ensures
            pairs.deep_view() == self.pairs(),
    {
        &self.entries
    }
}

/// In a list without an airport twice, the mapping gives for each airport
/// the runway that stands with it.
pub proof fn lemma_mapping_at(pairs: Assignments, i: int)
    requires
        airports_distinct(pairs),
        0 <= i < pairs.len(),
    ensures
        mapping_of(pairs).dom().contains(pairs[i].0),
        mapping_of(pairs)[pairs[i].0] == pairs[i].1,
{
    let icao = pairs[i].0;
    let chosen = choose|k: int| 0 <= k < pairs.len() && (#[trigger] pairs[k]).0 == icao;
    assert(chosen == i);
}

/// To put a runway in the place of an airport's runway is to map the
/// airport to it.
pub proof fn lemma_update_inserts(pairs: Assignments, i: int, icao: Seq<char>, runway: Seq<char>)
    requires
        airports_distinct(pairs),
        0 <= i < pairs.len(),
        pairs[i].0 == icao,
    ensures
        airports_distinct(pairs.update(i, (icao, runway))),
        mapping_of(pairs.update(i, (icao, runway))) == mapping_of(pairs).insert(icao, runway),
{
    let after = pairs.update(i, (icao, runway));
    assert(airports_distinct(after)) by {
        assert forall|a: int, b: int| 0 <= a < b < after.len() implies after[a].0 != after[b].0 by {
            assert(after[a].0 == pairs[a].0 && after[b].0 == pairs[b].0);
        }
    }
    let wanted = mapping_of(pairs).insert(icao, runway);
    assert forall|k: Seq<char>| #[trigger]
        mapping_of(after).dom().contains(k) == wanted.dom().contains(k) by {
        if holds_airport(after, k) {
            let a = choose|a: int| 0 <= a < after.len() && (#[trigger] after[a]).0 == k;
            assert(pairs[a].0 == k);
        }
        if holds_airport(pairs, k) {
            let a = choose|a: int| 0 <= a < pairs.len() && (#[trigger] pairs[a]).0 == k;
            assert(after[a].0 == k);
        }
        if k == icao {
            assert(after[i].0 == k);
        }
    }
    assert forall|k: Seq<char>| mapping_of(after).dom().contains(k) implies #[trigger] mapping_of(
        after,
    )[k] == wanted[k] by {
        let a = choose|a: int| 0 <= a < after.len() && (#[trigger] after[a]).0 == k;
        lemma_mapping_at(after, a);
        if k != icao {
            assert(pairs[a] == after[a]);
            lemma_mapping_at(pairs, a);
        } else {
            assert(a == i);
        }
    }
    assert(mapping_of(after) =~= wanted);
}

/// To add an airport that the list lacks is to map the airport to its
/// runway.
pub proof fn lemma_push_inserts(pairs: Assignments, icao: Seq<char>, runway: Seq<char>)
    requires
        airports_distinct(pairs),
        forall|j: int| 0 <= j < pairs.len() ==> (#[trigger] pairs[j]).0 != icao,
    ensures
        !holds_airport(pairs, icao),
        airports_distinct(pairs.push((icao, runway))),
        mapping_of(pairs.push((icao, runway))) == mapping_of(pairs).insert(icao, runway),
{
    let after = pairs.push((icao, runway));
    assert(airports_distinct(after)) by {
        assert forall|a: int, b: int| 0 <= a < b < after.len() implies after[a].0 != after[b].0 by {
            if b < pairs.len() {
                assert(after[a].0 == pairs[a].0 && after[b].0 == pairs[b].0);
            } else {
                assert(after[a] == pairs[a]);
            }
        }
    }
    let wanted = mapping_of(pairs).insert(icao, runway);
    assert forall|k: Seq<char>| #[trigger]
        mapping_of(after).dom().contains(k) == wanted.dom().contains(k) by {
        if holds_airport(after, k) {
            let a = choose|a: int| 0 <= a < after.len() && (#[trigger] after[a]).0 == k;
            if a < pairs.len() {
                assert(pairs[a].0 == k);
            }
        }
        if holds_airport(pairs, k) {
            let a = choose|a: int| 0 <= a < pairs.len() && (#[trigger] pairs[a]).0 == k;
            assert(after[a].0 == k);
        }
        if k == icao {
            assert(after[pairs.len() as int].0 == k);
        }
    }
    assert forall|k: Seq<char>| mapping_of(after).dom().contains(k) implies #[trigger] mapping_of(
        after,
    )[k] == wanted[k] by {
        let a = choose|a: int| 0 <= a < after.len() && (#[trigger] after[a]).0 == k;
        lemma_mapping_at(after, a);
        if k != icao {
            assert(pairs[a] == after[a]);
            lemma_mapping_at(pairs, a);
        }
    }
    assert(mapping_of(after) =~= wanted);
}

} // verus!
