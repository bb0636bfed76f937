//! What the map's coloring reads from the database.

use vstd::prelude::*;

use crate::query::{column_spec, DataStream};

verus! {

/// The datastream that colors the map's points.
#[derive(Debug, Clone, Copy, PartialEq, Eq, Structural)]
pub enum ColoredDataStream {
    Uncolored,
    Time,
    TimeOfDay,
    HorizAccuracy,
    Altitude,
    VertAccuracy,
    Speed,
    SpeedAccuracy,
    Course,
    CourseAccuracy,
    ShortDwellDetection,
    LongDwellDetection,
    DwellScore,
}

pub open spec fn field1_spec(ds: ColoredDataStream) -> Option<Seq<char>> {
    match ds {
        ColoredDataStream::Uncolored | ColoredDataStream::Time | ColoredDataStream::TimeOfDay => None,
        ColoredDataStream::HorizAccuracy => Some("horizontal_accuracy"@),
        ColoredDataStream::Altitude => Some("msl_altitude"@),
        ColoredDataStream::VertAccuracy => Some("vertical_accuracy"@),
        ColoredDataStream::Speed => Some("speed"@),
        ColoredDataStream::SpeedAccuracy => Some("speed_accuracy"@),
        ColoredDataStream::Course => Some("course"@),
        ColoredDataStream::CourseAccuracy => Some("course_accuracy"@),
        ColoredDataStream::ShortDwellDetection | ColoredDataStream::LongDwellDetection
        | ColoredDataStream::DwellScore => Some("ellipsoid_altitude"@),
    }
}

/// The column the map query fetches into the first extra field for this
/// coloring: the point colorings read their value from it, and the dwell
/// colorings need the ellipsoid altitude for their distances. Time and time
/// of day come from the timestamp alone.
pub fn field1_column(ds: &ColoredDataStream) -> (col: Option<&'static str>)
    ensures
        match col { Some(c) => field1_spec(*ds) == Some(c@), None => field1_spec(*ds) is None },
{
    match ds {
        ColoredDataStream::Uncolored | ColoredDataStream::Time | ColoredDataStream::TimeOfDay => None,
        ColoredDataStream::HorizAccuracy => Some("horizontal_accuracy"),
        ColoredDataStream::Altitude => Some("msl_altitude"),
        ColoredDataStream::VertAccuracy => Some("vertical_accuracy"),
        ColoredDataStream::Speed => Some("speed"),
        ColoredDataStream::SpeedAccuracy => Some("speed_accuracy"),
        ColoredDataStream::Course => Some("course"),
        ColoredDataStream::CourseAccuracy => Some("course_accuracy"),
        ColoredDataStream::ShortDwellDetection | ColoredDataStream::LongDwellDetection
        | ColoredDataStream::DwellScore => Some("ellipsoid_altitude"),
    }
}

/// The filterable datastream a coloring shows the values of, for the
/// colorings by a point's own recorded value.
pub open spec fn colored_value_stream(ds: ColoredDataStream) -> Option<DataStream> {
    match ds {
        ColoredDataStream::HorizAccuracy => Some(DataStream::HorizAccuracy),
        ColoredDataStream::Altitude => Some(DataStream::Altitude),
        ColoredDataStream::VertAccuracy => Some(DataStream::VertAccuracy),
        ColoredDataStream::Speed => Some(DataStream::Speed),
        ColoredDataStream::SpeedAccuracy => Some(DataStream::SpeedAccuracy),
        ColoredDataStream::Course => Some(DataStream::Course),
        ColoredDataStream::CourseAccuracy => Some(DataStream::CourseAccuracy),
        _ => None,
    }
}

/// Coloring by a datastream fetches that datastream's own column, the one
/// a filter on the same datastream tests; the colorings by time fetch
/// nothing extra.
pub proof fn coloring_fetches_its_own_column(ds: ColoredDataStream)
    ensures
        colored_value_stream(ds) matches Some(s) ==> field1_spec(ds) == Some(column_spec(s)),
        (ds == ColoredDataStream::Uncolored || ds == ColoredDataStream::Time || ds == ColoredDataStream::TimeOfDay)
            ==> field1_spec(ds) is None,
{
}

} // verus!
