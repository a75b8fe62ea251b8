//! The effect graph behind the blur: what its nodes answer when the compositor walks
//! them.
//!
//! Single-precision numbers are carried as their bits.

use vstd::prelude::*;

use crate::text::same_text;

verus! {

/// Property numbers of the effects.
pub const GAUSSIANBLUR_PROP_STANDARD_DEVIATION: u32 = 0;

pub const FLOOD_PROP_COLOR: u32 = 0;

pub const COMPOSITE_PROP_MODE: u32 = 0;

/// Stacking the source over the destination.
pub const COMPOSITE_MODE_SOURCE_OVER: u32 = 0;

/// The value of a property.
#[derive(Clone, Copy, Debug, PartialEq, Eq)]
pub enum Property {
    Single(u32),
    Unsigned(u32),
    Singles([u32; 4]),
}

/// The number of the property called `name`, when the node's one named property is
/// called `property`.
pub fn map_property(name: &str, property: &str, index: u32) -> (r: Option<u32>)
    ensures
        r == (if name@ == property@ {
            Some(index)
        } else {
            None
        }),
{
    if same_text(name, property) {
        Some(index)
    } else {
        None
    }
}

/// A Gaussian blur; only the standard deviation matters.
#[derive(Clone, Copy, Debug, PartialEq, Eq)]
pub struct GaussianBlurEffect {
    pub blur_amount: u32,
    pub source: Option<usize>,
}

impl GaussianBlurEffect {
    pub fn new(blur_amount: u32, source: usize) -> (r: GaussianBlurEffect)
        ensures
            r == (GaussianBlurEffect { blur_amount, source: Some(source) }),
    {
        GaussianBlurEffect { blur_amount, source: Some(source) }
    }

    /// The other properties keep their defaults, but still have to be answered.
    pub fn get_property(&self, index: u32) -> (r: Property)
        ensures
            r == (if index == GAUSSIANBLUR_PROP_STANDARD_DEVIATION {
                Property::Single(self.blur_amount)
            } else {
                Property::Unsigned(0)
            }),
    {
        if index == GAUSSIANBLUR_PROP_STANDARD_DEVIATION {
            Property::Single(self.blur_amount)
        } else {
            Property::Unsigned(0)
        }
    }

    pub fn get_source(&self, index: u32) -> (r: Option<usize>)
        ensures
            r == (if index == 0 {
                self.source
            } else {
                None
            }),
    {
        if index == 0 {
            self.source
        } else {
            None
        }
    }

    pub fn source_count(&self) -> (r: u32)
        ensures
            r == 1,
    {
        1
    }

    pub fn property_count(&self) -> (r: u32)
        ensures
            r == 3,
    {
        3
    }

    /// The number of a named property.
    pub fn named_property(&self, name: &str) -> (r: Option<u32>)
        ensures
            r == (if name@ == "BlurAmount"@ {
                Some(GAUSSIANBLUR_PROP_STANDARD_DEVIATION)
            } else {
                None
            }),
    {
        map_property(name, "BlurAmount", GAUSSIANBLUR_PROP_STANDARD_DEVIATION)
    }
}

/// A flood of one colour: red, green, blue and alpha.
#[derive(Clone, Copy, Debug, PartialEq, Eq)]
pub struct FloodEffect {
    pub color: [u32; 4],
}

impl FloodEffect {
    pub fn new(color: [u32; 4]) -> (r: FloodEffect)
        ensures
            r.color == color,
    {
        FloodEffect { color }
    }

    pub fn get_property(&self, index: u32) -> (r: Option<Property>)
        ensures
            r == (if index == FLOOD_PROP_COLOR {
                Some(Property::Singles(self.color))
            } else {
                None
            }),
    {
        if index == FLOOD_PROP_COLOR {
            Some(Property::Singles(self.color))
        } else {
            None
        }
    }

    pub fn get_source(&self, _index: u32) -> (r: Option<usize>)
        ensures
            r is None,
    {
        None
    }

    pub fn source_count(&self) -> (r: u32)
        ensures
            r == 0,
    {
        0
    }

    pub fn property_count(&self) -> (r: u32)
        ensures
            r == 1,
    {
        1
    }

    pub fn named_property(&self, name: &str) -> (r: Option<u32>)
        ensures
            r == (if name@ == "Color"@ {
                Some(FLOOD_PROP_COLOR)
            } else {
                None
            }),
    {
        map_property(name, "Color", FLOOD_PROP_COLOR)
    }
}

/// A stack of inputs: the first is the destination, the second the source over it.
pub struct CompositeEffect {
    pub mode: u32,
    pub sources: Vec<usize>,
}

impl CompositeEffect {
    pub fn new(sources: Vec<usize>) -> (r: CompositeEffect)
        ensures
            r.mode == COMPOSITE_MODE_SOURCE_OVER,
            r.sources@ == sources@,
    {
        CompositeEffect { mode: COMPOSITE_MODE_SOURCE_OVER, sources }
    }

    pub fn get_property(&self, index: u32) -> (r: Option<Property>)
        ensures
            r == (if index == COMPOSITE_PROP_MODE {
                Some(Property::Unsigned(self.mode))
            } else {
                None
            }),
    {
        if index == COMPOSITE_PROP_MODE {
            Some(Property::Unsigned(self.mode))
        } else {
            None
        }
    }

    pub fn get_source(&self, index: u32) -> (r: Option<usize>)
        ensures
            r == (if index < self.sources@.len() {
                Some(self.sources@[index as int])
            } else {
                None
            }),
    {
        if (index as usize) < self.sources.len() {
            Some(self.sources[index as usize])
        } else {
            None
        }
    }

    pub fn source_count(&self) -> (r: u32)
        requires
            self.sources@.len() <= u32::MAX,
        ensures
            r == self.sources@.len(),
    {
        self.sources.len() as u32
    }

    pub fn property_count(&self) -> (r: u32)
        ensures
            r == 1,
    {
        1
    }

    pub fn named_property(&self, name: &str) -> (r: Option<u32>)
        ensures
            r == (if name@ == "Mode"@ {
                Some(COMPOSITE_PROP_MODE)
            } else {
                None
            }),
    {
        map_property(name, "Mode", COMPOSITE_PROP_MODE)
    }
}

} // verus!
