use vstd::prelude::*;

verus! {

/// One of the five fixed observation stations.
#[derive(Copy, Clone, Debug, PartialEq, Eq, Structural)]
pub enum StationType {
    StationA,
    StationB,
    StationC,
    StationD,
    StationE,
}

/// The display name of a station.
pub open spec fn station_name(s: StationType) -> Seq<char> {
    match s {
        StationType::StationA => "StationA"@,
        StationType::StationB => "StationB"@,
        StationType::StationC => "StationC"@,
        StationType::StationD => "StationD"@,
        StationType::StationE => "StationE"@,
    }
}

/// The stations in their canonical order.
pub open spec fn station_at(i: int) -> StationType {
    if i <= 0 {
        StationType::StationA
    } else if i == 1 {
        StationType::StationB
    } else if i == 2 {
        StationType::StationC
    } else if i == 3 {
        StationType::StationD
    } else {
        StationType::StationE
    }
}

impl StationType {
    /// The station's name, `StationA` to `StationE`.
    pub fn to_string(&self) -> (r: String)
        ensures
            r@ == station_name(*self),
    {
        match self {
            StationType::StationA => String::from_str("StationA"),
            StationType::StationB => String::from_str("StationB"),
            StationType::StationC => String::from_str("StationC"),
            StationType::StationD => String::from_str("StationD"),
            StationType::StationE => String::from_str("StationE"),
        }
    }

    /// All five stations, in canonical order.
    pub fn all() -> (r: [StationType; 5])
        ensures
            forall|i: int| 0 <= i < 5 ==> #[trigger] r@[i] == station_at(i),
    {
        [
            StationType::StationA,
            StationType::StationB,
            StationType::StationC,
            StationType::StationD,
            StationType::StationE,
        ]
    }
}

} // verus!
