//! The data points of a recorded activity file.

use vstd::prelude::*;
use vstd::string::*;
use crate::scalar::Scalar;
use crate::text::same_text;

verus! {

/// One sample of a recording: what its fields give of time, power, heart
/// rate, cadence and distance.
#[derive(Debug, Clone, Copy)]
pub struct DataPoint {
    pub timestamp: Option<i64>,
    pub power: Option<i64>,
    pub heart_rate: Option<i64>,
    pub cadence: Option<i64>,
    pub distance: Option<Scalar>,
}

/// The later reading where there is one, else the earlier.
pub open spec fn latest<T>(earlier: Option<T>, later: Option<T>) -> Option<T> {
    match later {
        Some(v) => Some(v),
        None => earlier,
    }
}

impl DataPoint {
    /// The point of a record without fields.
    pub open spec fn spec_empty() -> DataPoint {
        DataPoint { timestamp: None, power: None, heart_rate: None, cadence: None, distance: None }
    }

    /// The point after the field `name` was read, with the value of the
    /// field as an integer and as a decimal number, as far as it has them. A
    /// field that the point does not keep, or a value of the wrong kind,
    /// leaves the point as it is.
    pub open spec fn spec_with_field(
        self,
        name: Seq<char>,
        integer: Option<i64>,
        decimal: Option<Scalar>,
    ) -> DataPoint {
        if name == "timestamp"@ {
            DataPoint { timestamp: latest(self.timestamp, integer), ..self }
        } else if name == "power"@ {
            DataPoint { power: latest(self.power, integer), ..self }
        } else if name == "heart_rate"@ {
            DataPoint { heart_rate: latest(self.heart_rate, integer), ..self }
        } else if name == "cadence"@ {
            DataPoint { cadence: latest(self.cadence, integer), ..self }
        } else if name == "distance"@ {
            DataPoint { distance: latest(self.distance, decimal), ..self }
        } else {
            self
        }
    }

    /// The point of a record without fields.
    pub fn empty() -> (r: DataPoint)
        ensures
            r == DataPoint::spec_empty(),
    {
        DataPoint { timestamp: None, power: None, heart_rate: None, cadence: None, distance: None }
    }

    /// The point after the field `name` was read.
    pub fn with_field(self, name: &str, integer: Option<i64>, decimal: Option<Scalar>) -> (r:
        DataPoint)
        ensures
            r == self.spec_with_field(name@, integer, decimal),
    {
        let mut point = self;
        if same_text(name, "timestamp") {
            if integer.is_some() {
                point.timestamp = integer;
            }
        } else if same_text(name, "power") {
            if integer.is_some() {
                point.power = integer;
            }
        } else if same_text(name, "heart_rate") {
            if integer.is_some() {
                point.heart_rate = integer;
            }
        } else if same_text(name, "cadence") {
            if integer.is_some() {
                point.cadence = integer;
            }
        } else if same_text(name, "distance") {
            if decimal.is_some() {
                point.distance = decimal;
            }
        }
        point
    }
}

} // verus!
