//! The small, data-only vocabulary shared with the external plotting and
//! reporting layer.

use vstd::prelude::*;

verus! {

/// The four axes of a 2-d plot.
#[derive(Clone, Copy, Debug, PartialEq, Eq, Structural)]
pub enum Axis {
    BottomX,
    LeftY,
    RightY,
    TopX,
}

/// Scale of an axis.
#[derive(Clone, Copy, Debug, PartialEq, Eq, Structural)]
pub enum Scale {
    Linear,
    Logarithmic,
}

/// Style of an error-bar plot element.
#[derive(Clone, Copy, Debug, PartialEq, Eq, Structural)]
pub enum Style {
    XErrorBar,
    XErrorLines,
    YErrorBar,
    YErrorLines,
}

/// A named link to a generated plot, as listed in a report.
#[derive(Clone, Debug, PartialEq, Eq)]
pub struct Plot {
    pub name: String,
    pub url: String,
}

impl Plot {
    pub fn new(name: &str, url: &str) -> (r: Plot)
        ensures
            r.name@ == name@,
            r.url@ == url@,
    {
        Plot { name: String::from_str(name), url: String::from_str(url) }
    }
}

} // verus!
