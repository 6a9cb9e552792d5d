//! Units of measurement.

use vstd::prelude::*;

verus! {

/// A unit in which a metric is expressed.
#[derive(Clone, Copy, Debug, PartialEq, Eq, Hash, Structural)]
pub enum Unit {
    /// A dimensionless quantity, such as a count of bytes.
    Unity,
    Second,
    Watt,
    Joule,
    Volt,
    Ampere,
    Hertz,
    DegreeCelsius,
    WattHour,
    Byte,
}

/// A decimal prefix of the international system of units.
#[derive(Clone, Copy, Debug, PartialEq, Eq, Hash, Structural)]
pub enum UnitPrefix {
    Nano,
    Micro,
    Milli,
    Plain,
    Kilo,
    Mega,
    Giga,
}

/// A unit together with a prefix: `nano` + `Second` is the nanosecond.
#[derive(Clone, Copy, Debug, PartialEq, Eq, Hash, Structural)]
pub struct PrefixedUnit {
    pub base_unit: Unit,
    pub prefix: UnitPrefix,
}

impl UnitPrefix {
    /// The power of ten that the prefix stands for.
    pub open spec fn spec_exponent(self) -> int {
        match self {
            UnitPrefix::Nano => -9,
            UnitPrefix::Micro => -6,
            UnitPrefix::Milli => -3,
            UnitPrefix::Plain => 0,
            UnitPrefix::Kilo => 3,
            UnitPrefix::Mega => 6,
            UnitPrefix::Giga => 9,
        }
    }

    /// The power of ten that the prefix stands for.
    pub fn exponent(self) -> (e: i8)
        ensures
            e == self.spec_exponent(),
    {
        match self {
            UnitPrefix::Nano => -9,
            UnitPrefix::Micro => -6,
            UnitPrefix::Milli => -3,
            UnitPrefix::Plain => 0,
            UnitPrefix::Kilo => 3,
            UnitPrefix::Mega => 6,
            UnitPrefix::Giga => 9,
        }
    }
}

impl PrefixedUnit {
    pub fn new(base_unit: Unit, prefix: UnitPrefix) -> (u: PrefixedUnit)
        ensures
            u == (PrefixedUnit { base_unit, prefix }),
    {
        PrefixedUnit { base_unit, prefix }
    }

    /// The unit itself, without a prefix.
    pub fn plain(base_unit: Unit) -> (u: PrefixedUnit)
        ensures
            u == (PrefixedUnit { base_unit, prefix: UnitPrefix::Plain }),
    {
        PrefixedUnit { base_unit, prefix: UnitPrefix::Plain }
    }

    pub fn nano(base_unit: Unit) -> (u: PrefixedUnit)
        ensures
            u == (PrefixedUnit { base_unit, prefix: UnitPrefix::Nano }),
    {
        PrefixedUnit { base_unit, prefix: UnitPrefix::Nano }
    }

    pub fn micro(base_unit: Unit) -> (u: PrefixedUnit)
        ensures
            u == (PrefixedUnit { base_unit, prefix: UnitPrefix::Micro }),
    {
        PrefixedUnit { base_unit, prefix: UnitPrefix::Micro }
    }

    pub fn milli(base_unit: Unit) -> (u: PrefixedUnit)
        ensures
            u == (PrefixedUnit { base_unit, prefix: UnitPrefix::Milli }),
    {
        PrefixedUnit { base_unit, prefix: UnitPrefix::Milli }
    }

    pub fn kilo(base_unit: Unit) -> (u: PrefixedUnit)
        ensures
            u == (PrefixedUnit { base_unit, prefix: UnitPrefix::Kilo }),
    {
        PrefixedUnit { base_unit, prefix: UnitPrefix::Kilo }
    }

    pub fn mega(base_unit: Unit) -> (u: PrefixedUnit)
        ensures
            u == (PrefixedUnit { base_unit, prefix: UnitPrefix::Mega }),
    {
        PrefixedUnit { base_unit, prefix: UnitPrefix::Mega }
    }

    pub fn giga(base_unit: Unit) -> (u: PrefixedUnit)
        ensures
            u == (PrefixedUnit { base_unit, prefix: UnitPrefix::Giga }),
    {
        PrefixedUnit { base_unit, prefix: UnitPrefix::Giga }
    }
}

} // verus!
