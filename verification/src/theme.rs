use vstd::prelude::*;

verus! {

/// Shade step of a color scale, from lightest to darkest.
#[derive(Debug, Clone, Copy, PartialEq, Eq, Structural)]
pub enum Shade {
    S50,
    S100,
    S200,
    S300,
    S400,
    S500,
    S600,
    S700,
    S800,
    S900,
}

impl Shade {
    /// The numeric weight of the shade, as color palettes name them.
    pub fn value(self) -> (r: u16)
        ensures
            r == self.spec_value(),
    {
        match self {
            Shade::S50 => 50,
            Shade::S100 => 100,
            Shade::S200 => 200,
            Shade::S300 => 300,
            Shade::S400 => 400,
            Shade::S500 => 500,
            Shade::S600 => 600,
            Shade::S700 => 700,
            Shade::S800 => 800,
            Shade::S900 => 900,
        }
    }

    pub open spec fn spec_value(self) -> u16 {
        match self {
            Shade::S50 => 50,
            Shade::S100 => 100,
            Shade::S200 => 200,
            Shade::S300 => 300,
            Shade::S400 => 400,
            Shade::S500 => 500,
            Shade::S600 => 600,
            Shade::S700 => 700,
            Shade::S800 => 800,
            Shade::S900 => 900,
        }
    }
}

/// Corner radius step of the theme's radius scale.
#[derive(Debug, Clone, Copy, PartialEq, Eq, Structural)]
pub enum RadiusSize {
    Zero,
    Xs,
    Sm,
    Md,
    Lg,
    Xl,
    Xl2,
    Full,
}

impl RadiusSize {
    /// Position of the step within the radius scale's table.
    pub fn index(self) -> (r: usize)
        ensures
            r == self.spec_index(),
    {
        match self {
            RadiusSize::Zero => 0,
            RadiusSize::Xs => 1,
            RadiusSize::Sm => 2,
            RadiusSize::Md => 3,
            RadiusSize::Lg => 4,
            RadiusSize::Xl => 5,
            RadiusSize::Xl2 => 6,
            RadiusSize::Full => 7,
        }
    }

    pub open spec fn spec_index(self) -> usize {
        match self {
            RadiusSize::Zero => 0,
            RadiusSize::Xs => 1,
            RadiusSize::Sm => 2,
            RadiusSize::Md => 3,
            RadiusSize::Lg => 4,
            RadiusSize::Xl => 5,
            RadiusSize::Xl2 => 6,
            RadiusSize::Full => 7,
        }
    }
}

/// Spacing step of the theme's spacing scale.
#[derive(Debug, Clone, Copy, PartialEq, Eq, Structural)]
pub enum SpacingSize {
    Xxs,
    Xs,
    Sm,
    Md,
    Lg,
    Xl,
    Xl2,
    Xl3,
    Xl4,
    Xl5,
}

impl SpacingSize {
    /// Position of the step within the spacing scale's table.
    pub fn index(self) -> (r: usize)
        ensures
            r == self.spec_index(),
    {
        match self {
            SpacingSize::Xxs => 0,
            SpacingSize::Xs => 1,
            SpacingSize::Sm => 2,
            SpacingSize::Md => 3,
            SpacingSize::Lg => 4,
            SpacingSize::Xl => 5,
            SpacingSize::Xl2 => 6,
            SpacingSize::Xl3 => 7,
            SpacingSize::Xl4 => 8,
            SpacingSize::Xl5 => 9,
        }
    }

    pub open spec fn spec_index(self) -> usize {
        match self {
            SpacingSize::Xxs => 0,
            SpacingSize::Xs => 1,
            SpacingSize::Sm => 2,
            SpacingSize::Md => 3,
            SpacingSize::Lg => 4,
            SpacingSize::Xl => 5,
            SpacingSize::Xl2 => 6,
            SpacingSize::Xl3 => 7,
            SpacingSize::Xl4 => 8,
            SpacingSize::Xl5 => 9,
        }
    }
}

} // verus!
