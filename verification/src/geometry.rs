//! Compass arithmetic: how far a runway heading lies from a wind direction.

use vstd::prelude::*;

verus! {

/// The distance in degrees between two compass bearings, taken the short way
/// round the circle. Bearings a whole number of turns apart are the same
/// bearing, so 360 stands for north just as 0 does.
pub open spec fn angular_difference(a: int, b: int) -> int {
    let gap = (if a >= b { a - b } else { b - a }) % 360;
    if gap <= 180 { gap } else { 360 - gap }
}

/// A runway end as a plain value.
pub struct RunwayView {
    pub id: Seq<char>,
    pub true_heading: nat,
}

/// One end of a runway: its designator and the heading it faces.
#[derive(Debug)]
pub struct Runway {
    pub id: String,
    pub true_heading: u32,
}

impl View for Runway {
    type V = RunwayView;

    open spec fn view(&self) -> RunwayView {
        RunwayView { id: self.id@, true_heading: self.true_heading as nat }
    }
}

impl Clone for Runway {
    fn clone(&self) -> (copy: Runway)
        ensures
            copy == *self,
    {
        Runway { id: self.id.clone(), true_heading: self.true_heading }
    }
}

impl DeepView for Runway {
    type V = RunwayView;

    open spec fn deep_view(&self) -> RunwayView {
        self@
    }
}

impl RunwayView {
    /// How far this runway's heading lies from `direction`.
    pub open spec fn off_wind(self, direction: int) -> int {
        angular_difference(self.true_heading as int, direction)
    }
}

impl Runway {
    /// The runway end `id`, which faces `true_heading`.
    pub fn new(id: String, true_heading: u32) -> (runway: Runway)
        ensures
            runway.id == id,
            runway.true_heading == true_heading,
    {
        Runway { id, true_heading }
    }

    /// The angle between the heading of this runway and the wind.
    pub fn get_wind_dir_difference(&self, wind_dir: u32) -> (diff: u32)
        ensures
            diff == self@.off_wind(wind_dir as int),
            diff <= 180,
            self.true_heading == wind_dir ==> diff == 0,
            wind_dir == (self.true_heading + 180) % 360 ==> diff == 180,
    {
        let gap: u32 = if self.true_heading >= wind_dir {
            self.true_heading - wind_dir
        } else {
            wind_dir - self.true_heading
        };
        let turn: u32 = gap % 360;
        if turn <= 180 {
            turn
        } else {
            360 - turn
        }
    }
}

/// A bearing is at no distance from itself.
pub proof fn lemma_difference_to_self(h: int)
    ensures
        angular_difference(h, h) == 0,
{
}

/// The distance does not depend on which bearing is named first.
pub proof fn lemma_difference_symmetric(h1: int, h2: int)
    ensures
        angular_difference(h1, h2) == angular_difference(h2, h1),
{
}

/// The opposite bearing is half a turn away.
pub proof fn lemma_difference_to_opposite(h: int)
    ensures
        angular_difference(h, (h + 180) % 360) == 180,
{
}

/// No two bearings are more than half a turn apart.
pub proof fn lemma_difference_bounded(h1: int, h2: int)
    ensures
        0 <= angular_difference(h1, h2) <= 180,
{
}

/// For bearings no more than one turn apart the distance is the smaller of
/// the plain gap and what the gap leaves of the full circle.
pub proof fn lemma_difference_within_turn(h1: int, h2: int)
    requires
        -360 <= h1 - h2 <= 360,
    ensures
        angular_difference(h1, h2) == ({
            let gap = if h1 >= h2 { h1 - h2 } else { h2 - h1 };
            if gap <= 360 - gap { gap } else { 360 - gap }
        }),
{
}

} // verus!
