//! What the two selection modes choose, stated over plain values.

use vstd::prelude::*;
use crate::error::{Choice, SelectionErrorView};
use crate::geometry::RunwayView;

verus! {

/// A preferred runway is taken only if it lies less than this many degrees
/// off the wind.
pub const PREFERENCE_LIMIT: u32 = 90;

/// Position `k` holds the runway nearest the wind: none lies nearer, and all
/// before it lie farther.
pub open spec fn is_closest(runways: Seq<RunwayView>, direction: int, k: int) -> bool {
    let nearest = runways[k].off_wind(direction);
    &&& 0 <= k < runways.len()
    &&& forall|j: int|
        0 <= j < runways.len() ==> nearest <= (#[trigger] runways[j]).off_wind(direction)
    &&& forall|j: int| 0 <= j < k ==> nearest < (#[trigger] runways[j]).off_wind(direction)
}

/// The position of the runway that closest-match selection takes.
pub open spec fn closest(runways: Seq<RunwayView>, direction: int) -> int {
    choose|k: int| is_closest(runways, direction, k)
}

/// Closest-match selection: the first of the runways nearest the wind, and
/// a failure only where there is no runway.
pub open spec fn closest_choice(runways: Seq<RunwayView>, direction: int) -> Choice {
    if runways.len() == 0 {
        Err(SelectionErrorView::NoRunwaysDefined)
    } else {
        Ok(runways[closest(runways, direction)].id)
    }
}

/// Some runway carries the designator `id`.
pub open spec fn names_runway(runways: Seq<RunwayView>, id: Seq<char>) -> bool {
    exists|i: int| 0 <= i < runways.len() && (#[trigger] runways[i]).id == id
}

/// Position `i` holds the first runway with the designator `id`: the one a
/// lookup of `id` resolves to.
pub open spec fn is_first_named(runways: Seq<RunwayView>, id: Seq<char>, i: int) -> bool {
    &&& 0 <= i < runways.len()
    &&& runways[i].id == id
    &&& forall|j: int| 0 <= j < i ==> (#[trigger] runways[j]).id != id
}

/// The runway that `id` resolves to lies within the preference limit of
/// `direction`.
pub open spec fn favours(runways: Seq<RunwayView>, id: Seq<char>, direction: int) -> bool {
    exists|i: int|
        is_first_named(runways, id, i)
            && (#[trigger] runways[i]).off_wind(direction) < PREFERENCE_LIMIT
}

/// The search through a preference list ends at `id`: it resolves to no
/// runway, or to one within the preference limit.
pub open spec fn settles(runways: Seq<RunwayView>, id: Seq<char>, direction: int) -> bool {
    !names_runway(runways, id) || favours(runways, id, direction)
}

/// Position `k` is the first of `prefs` at which the search ends.
pub open spec fn is_first_settling(
    runways: Seq<RunwayView>,
    prefs: Seq<Seq<char>>,
    direction: int,
    k: int,
) -> bool {
    &&& 0 <= k < prefs.len()
    &&& settles(runways, prefs[k], direction)
    &&& forall|j: int| 0 <= j < k ==> !settles(runways, #[trigger] prefs[j], direction)
}

/// The search ends somewhere in `prefs`.
pub open spec fn settles_within(
    runways: Seq<RunwayView>,
    prefs: Seq<Seq<char>>,
    direction: int,
) -> bool {
    exists|k: int| 0 <= k < prefs.len() && settles(runways, #[trigger] prefs[k], direction)
}

/// The position of `prefs` at which the search ends.
pub open spec fn first_settling(
    runways: Seq<RunwayView>,
    prefs: Seq<Seq<char>>,
    direction: int,
) -> int {
    choose|k: int| is_first_settling(runways, prefs, direction, k)
}

/// Preferred-list selection at the airport `icao`: the first listed runway
/// within the preference limit of the wind. An entry that resolves to no
/// runway, met before that, is a failure; so is a list without such a runway.
pub open spec fn preferred_choice(
    icao: Seq<char>,
    runways: Seq<RunwayView>,
    prefs: Seq<Seq<char>>,
    direction: u32,
) -> Choice {
    if !settles_within(runways, prefs, direction as int) {
        Err(SelectionErrorView::NoSuitableRunway { direction })
    } else {
        let id = prefs[first_settling(runways, prefs, direction as int)];
        if names_runway(runways, id) {
            Ok(id)
        } else {
            Err(SelectionErrorView::UnknownRunway { icao, runway: id })
        }
    }
}

/// Only one position can hold the nearest runway.
pub proof fn lemma_closest_unique(runways: Seq<RunwayView>, direction: int, k1: int, k2: int)
    requires
        is_closest(runways, direction, k1),
        is_closest(runways, direction, k2),
    ensures
        k1 == k2,
{
    let d1 = runways[k1].off_wind(direction);
    let d2 = runways[k2].off_wind(direction);
    assert(d1 <= d2 && d2 <= d1);
}

/// Among one or more runways, one is nearest the wind.
pub proof fn lemma_closest_exists(runways: Seq<RunwayView>, direction: int)
    requires
        runways.len() > 0,
    ensures
        is_closest(runways, direction, closest(runways, direction)),
    decreases runways.len(),
{
    if runways.len() == 1 {
        assert(is_closest(runways, direction, 0));
    } else {
        let front = runways.drop_last();
        lemma_closest_exists(front, direction);
        let k = closest(front, direction);
        let last = runways.len() - 1;
        assert(forall|j: int| 0 <= j < last ==> front[j] == runways[j]);
        if runways[last].off_wind(direction) < runways[k].off_wind(direction) {
            assert(is_closest(runways, direction, last));
        } else {
            assert(is_closest(runways, direction, k));
        }
    }
}

/// Closest-match selection takes the runway nearest the wind, and of
/// several equally near the one that comes first.
pub proof fn lemma_closest_choice(runways: Seq<RunwayView>, direction: int, k: int)
    requires
        is_closest(runways, direction, k),
    ensures
        closest_choice(runways, direction) == Ok::<Seq<char>, SelectionErrorView>(runways[k].id),
{
    lemma_closest_unique(runways, direction, k, closest(runways, direction));
}

/// Only one position can be the first at which the search ends.
pub proof fn lemma_first_settling_unique(
    runways: Seq<RunwayView>,
    prefs: Seq<Seq<char>>,
    direction: int,
    k1: int,
    k2: int,
)
    requires
        is_first_settling(runways, prefs, direction, k1),
        is_first_settling(runways, prefs, direction, k2),
    ensures
        k1 == k2,
{
}

/// Preferred-list selection takes the first listed runway within the
/// preference limit of the wind. What the list holds after it does not
/// count, were it a runway nearer the wind.
pub proof fn lemma_preferred_choice(
    icao: Seq<char>,
    runways: Seq<RunwayView>,
    prefs: Seq<Seq<char>>,
    direction: u32,
    k: int,
)
    requires
        0 <= k < prefs.len(),
        favours(runways, prefs[k], direction as int),
        forall|j: int|
            0 <= j < k ==> names_runway(runways, #[trigger] prefs[j])
                && !favours(runways, prefs[j], direction as int),
    ensures
        preferred_choice(icao, runways, prefs, direction) == Ok::<Seq<char>, SelectionErrorView>(
            prefs[k],
        ),
{
    lemma_first_settling_unique(
        runways,
        prefs,
        direction as int,
        k,
        first_settling(runways, prefs, direction as int),
    );
}

/// Preferred-list selection fails at the first entry that names no runway,
/// if no runway within the preference limit stands before it.
pub proof fn lemma_preferred_choice_unknown(
    icao: Seq<char>,
    runways: Seq<RunwayView>,
    prefs: Seq<Seq<char>>,
    direction: u32,
    k: int,
)
    requires
        0 <= k < prefs.len(),
        !names_runway(runways, prefs[k]),
        forall|j: int|
            0 <= j < k ==> names_runway(runways, #[trigger] prefs[j])
                && !favours(runways, prefs[j], direction as int),
    ensures
        preferred_choice(icao, runways, prefs, direction) == Err::<Seq<char>, SelectionErrorView>(
            SelectionErrorView::UnknownRunway { icao, runway: prefs[k] },
        ),
{
    lemma_first_settling_unique(
        runways,
        prefs,
        direction as int,
        k,
        first_settling(runways, prefs, direction as int),
    );
}

/// Preferred-list selection finds no suitable runway where every entry
/// names a runway and none of them lies within the preference limit.
pub proof fn lemma_preferred_choice_unsuitable(
    icao: Seq<char>,
    runways: Seq<RunwayView>,
    prefs: Seq<Seq<char>>,
    direction: u32,
)
    requires
        forall|j: int|
            0 <= j < prefs.len() ==> names_runway(runways, #[trigger] prefs[j])
                && !favours(runways, prefs[j], direction as int),
    ensures
        preferred_choice(icao, runways, prefs, direction) == Err::<Seq<char>, SelectionErrorView>(
            SelectionErrorView::NoSuitableRunway { direction },
        ),
{
}

/// Where every entry of a preference list names a runway, the selection
/// does not fail for an unknown runway.
pub proof fn lemma_resolving_preferences(
    icao: Seq<char>,
    runways: Seq<RunwayView>,
    prefs: Seq<Seq<char>>,
    direction: u32,
)
    requires
        forall|j: int| 0 <= j < prefs.len() ==> names_runway(runways, #[trigger] prefs[j]),
    ensures
        !(preferred_choice(icao, runways, prefs, direction) matches Err(
            SelectionErrorView::UnknownRunway { .. },
        )),
{
    if settles_within(runways, prefs, direction as int) {
        let k = choose|k: int|
            0 <= k < prefs.len() && settles(runways, #[trigger] prefs[k], direction as int);
        lemma_first_settling_exists(runways, prefs, direction as int, k);
    }
}

/// Where the search ends at some position, there is a first such position.
pub proof fn lemma_first_settling_exists(
    runways: Seq<RunwayView>,
    prefs: Seq<Seq<char>>,
    direction: int,
    k: int,
)
    requires
        0 <= k < prefs.len(),
        settles(runways, prefs[k], direction),
    ensures
        is_first_settling(runways, prefs, direction, first_settling(runways, prefs, direction)),
        first_settling(runways, prefs, direction) <= k,
    decreases k,
{
    if exists|j: int| 0 <= j < k && settles(runways, #[trigger] prefs[j], direction) {
        let j = choose|j: int| 0 <= j < k && settles(runways, #[trigger] prefs[j], direction);
        lemma_first_settling_exists(runways, prefs, direction, j);
    } else {
        lemma_first_settling_unique(
            runways,
            prefs,
            direction,
            k,
            first_settling(runways, prefs, direction),
        );
    }
}

} // verus!
