//! Rotation and parent-relative placement rules for screens.

use vstd::prelude::*;

verus! {

/// Rotation/flip state of a screen, as a profile configures it.
#[derive(Clone, Copy, Debug, PartialEq, Eq, Structural)]
pub enum ScreenRotation {
    Landscape,
    LandscapeReversed,
    Portrait,
    PortraitReversed,
}

impl ScreenRotation {
    /// Effective pixel size of a screen once the rotation is applied:
    /// portrait orientations swap width and height, landscape ones keep them.
    pub open spec fn transform_size_spec(self, size: (int, int)) -> (int, int) {
        match self {
            ScreenRotation::Landscape | ScreenRotation::LandscapeReversed => size,
            ScreenRotation::Portrait | ScreenRotation::PortraitReversed => (size.1, size.0),
        }
    }

    /// Wire-protocol transform code for this rotation.
    pub open spec fn transform_id_spec(self) -> u8 {
        match self {
            ScreenRotation::Landscape => 0,
            ScreenRotation::LandscapeReversed => 2,
            ScreenRotation::Portrait => 1,
            ScreenRotation::PortraitReversed => 3,
        }
    }

    pub fn transform_size(&self, size: (i32, i32)) -> (r: (i32, i32))
        ensures
            (r.0 as int, r.1 as int) == self.transform_size_spec((size.0 as int, size.1 as int)),
    {
        match self {
            ScreenRotation::Landscape | ScreenRotation::LandscapeReversed => size,
            ScreenRotation::Portrait | ScreenRotation::PortraitReversed => (size.1, size.0),
        }
    }

    pub fn transform_id(&self) -> (r: u8)
        ensures
            r == self.transform_id_spec(),
    {
        match self {
            ScreenRotation::Landscape => 0,
            ScreenRotation::LandscapeReversed => 2,
            ScreenRotation::Portrait => 1,
            ScreenRotation::PortraitReversed => 3,
        }
    }
}

/// Rotation law: portrait orientations swap width and height, landscape
/// orientations leave the size unchanged, and applying the landscape
/// transform twice is the same as applying it once.
pub proof fn lemma_transform_size_laws(r: ScreenRotation, size: (int, int))
    ensures
        (r is Portrait || r is PortraitReversed) ==> r.transform_size_spec(size) == (
        size.1,
        size.0,
        ),
        (r is Landscape || r is LandscapeReversed) ==> r.transform_size_spec(size) == size,
        ScreenRotation::Landscape.transform_size_spec(
            ScreenRotation::Landscape.transform_size_spec(size),
        ) == ScreenRotation::Landscape.transform_size_spec(size),
{
}

/// Where a screen sits relative to another screen of the same profile.
/// `Root` anchors the layout; every other variant names the parent screen's
/// identifier. `Mirror` copies the parent's position instead of offsetting.
#[derive(Clone, Debug)]
pub enum ScreenPositionRelative {
    Root,
    Over(String),
    Under(String),
    Left(String),
    Right(String),
    LeftOver(String),
    LeftUnder(String),
    RightOver(String),
    RightUnder(String),
    Mirror(String),
}

impl ScreenPositionRelative {
    /// The parent identifier this placement refers to, if any.
    pub open spec fn parent_spec(self) -> Option<Seq<char>> {
        match self {
            ScreenPositionRelative::Root => None,
            ScreenPositionRelative::Over(identifier)
            | ScreenPositionRelative::Under(identifier)
            | ScreenPositionRelative::Left(identifier)
            | ScreenPositionRelative::Right(identifier)
            | ScreenPositionRelative::LeftOver(identifier)
            | ScreenPositionRelative::LeftUnder(identifier)
            | ScreenPositionRelative::RightOver(identifier)
            | ScreenPositionRelative::RightUnder(identifier)
            | ScreenPositionRelative::Mirror(identifier) => Some(identifier@),
        }
    }

    pub fn parent(&self) -> (r: Option<&str>)
        ensures
            r is Some <==> self.parent_spec() is Some,
            r matches Some(s) ==> self.parent_spec() == Some(s@),
    {
        match self {
            ScreenPositionRelative::Root => None,
            ScreenPositionRelative::Over(identifier)
            | ScreenPositionRelative::Under(identifier)
            | ScreenPositionRelative::Left(identifier)
            | ScreenPositionRelative::Right(identifier)
            | ScreenPositionRelative::LeftOver(identifier)
            | ScreenPositionRelative::LeftUnder(identifier)
            | ScreenPositionRelative::RightOver(identifier)
            | ScreenPositionRelative::RightUnder(identifier)
            | ScreenPositionRelative::Mirror(identifier) => Some(identifier.as_str()),
        }
    }

    /// Pixel offset of a screen from its parent's position, given the
    /// parent's and the screen's own effective (rotated) sizes.
    pub open spec fn offset_spec(self, parent_size: (int, int), own_size: (int, int)) -> (
        int,
        int,
    ) {
        match self {
            ScreenPositionRelative::Root => (0, 0),
            ScreenPositionRelative::Over(_) => (0, -own_size.1),
            ScreenPositionRelative::Under(_) => (0, parent_size.1),
            ScreenPositionRelative::Left(_) => (-own_size.0, 0),
            ScreenPositionRelative::Right(_) => (parent_size.0, 0),
            ScreenPositionRelative::LeftOver(_) => (-own_size.0, -own_size.1),
            ScreenPositionRelative::LeftUnder(_) => (-own_size.0, parent_size.1),
            ScreenPositionRelative::RightOver(_) => (parent_size.0, -own_size.1),
            ScreenPositionRelative::RightUnder(_) => (parent_size.0, parent_size.1),
            ScreenPositionRelative::Mirror(_) => (0, 0),
        }
    }

    pub fn offset(&self, parent_size: (i32, i32), own_size: (i32, i32)) -> (r: (i32, i32))
        requires
            own_size.0 > i32::MIN,
            own_size.1 > i32::MIN,
        ensures
            (r.0 as int, r.1 as int) == self.offset_spec(
                (parent_size.0 as int, parent_size.1 as int),
                (own_size.0 as int, own_size.1 as int),
            ),
    {
        match self {
            ScreenPositionRelative::Root => (0, 0),
            ScreenPositionRelative::Over(_) => (0, -own_size.1),
            ScreenPositionRelative::Under(_) => (0, parent_size.1),
            ScreenPositionRelative::Left(_) => (-own_size.0, 0),
            ScreenPositionRelative::Right(_) => (parent_size.0, 0),
            ScreenPositionRelative::LeftOver(_) => (-own_size.0, -own_size.1),
            ScreenPositionRelative::LeftUnder(_) => (-own_size.0, parent_size.1),
            ScreenPositionRelative::RightOver(_) => (parent_size.0, -own_size.1),
            ScreenPositionRelative::RightUnder(_) => (parent_size.0, parent_size.1),
            ScreenPositionRelative::Mirror(_) => (0, 0),
        }
    }
}

} // verus!
