//! Describes orientations of a direction.
use vstd::prelude::*;

verus! {

/// A direction along an axis.
#[derive(Clone, Copy, Debug, PartialEq, Eq, Structural)]
pub enum AxialDirection {
    /// Towards the primary direction of the axis.
    Positive,
    /// Opposite the primary direction of the axis.
    Negative,
}

/// An axis along a plane.
#[derive(Clone, Copy, Debug, PartialEq, Eq, Structural)]
pub enum PlaneAxis {
    /// The first axis.
    First,
    /// The second axis.
    Second,
}

/// Describes a direction on a planar surface.
#[derive(Clone, Copy, Debug, PartialEq, Eq, Structural)]
pub struct PlanarDirection {
    /// Describes the axis on which the direction lies.
    pub axis: PlaneAxis,
    /// Describes the direction along `axis`.
    pub direction: AxialDirection,
}

/// Describes a direction on a planar surface that is facing the user.
#[derive(Clone, Copy, Debug, PartialEq, Eq, Structural)]
pub enum ScreenDirection {
    /// Towards the top of the screen.
    Up,
    /// Towards the bottom of the screen.
    Down,
    /// Towards the left side of the screen.
    Left,
    /// Towards the right side of the screen.
    Right,
}

/// The direction of `direction` along the vertical axis.
pub open spec fn vertical_of(direction: ScreenDirection) -> Option<AxialDirection> {
    match direction {
        ScreenDirection::Up => Some(AxialDirection::Negative),
        ScreenDirection::Down => Some(AxialDirection::Positive),
        ScreenDirection::Left | ScreenDirection::Right => None,
    }
}

/// The [`ScreenDirection`] that a [`PlanarDirection`] converts into.
pub open spec fn screen_of(planar: PlanarDirection) -> ScreenDirection {
    match planar.axis {
        PlaneAxis::First => match planar.direction {
            AxialDirection::Positive => ScreenDirection::Down,
            AxialDirection::Negative => ScreenDirection::Up,
        },
        PlaneAxis::Second => match planar.direction {
            AxialDirection::Positive => ScreenDirection::Right,
            AxialDirection::Negative => ScreenDirection::Left,
        },
    }
}

/// The [`PlanarDirection`] that a [`ScreenDirection`] converts into.
pub open spec fn planar_of(screen: ScreenDirection) -> PlanarDirection {
    match screen {
        ScreenDirection::Up => PlanarDirection { axis: PlaneAxis::First, direction: AxialDirection::Positive },
        ScreenDirection::Down => PlanarDirection { axis: PlaneAxis::First, direction: AxialDirection::Negative },
        ScreenDirection::Left => PlanarDirection { axis: PlaneAxis::Second, direction: AxialDirection::Negative },
        ScreenDirection::Right => PlanarDirection { axis: PlaneAxis::Second, direction: AxialDirection::Positive },
    }
}

impl ScreenDirection {
    /// Returns the direction of `self` along the vertical axis.
    pub fn vertical_direction(self) -> (result: Option<AxialDirection>)
        ensures
            result == vertical_of(self),
    {
        match self {
            Self::Up => Some(AxialDirection::Negative),
            Self::Down => Some(AxialDirection::Positive),
            Self::Left | Self::Right => None,
        }
    }
}

impl From<PlanarDirection> for ScreenDirection {
    fn from(planar_direction: PlanarDirection) -> (result: Self)
        ensures
            result == screen_of(planar_direction),
    {
        match planar_direction.axis {
            PlaneAxis::First => match planar_direction.direction {
                AxialDirection::Positive => Self::Down,
                AxialDirection::Negative => Self::Up,
            },
            PlaneAxis::Second => match planar_direction.direction {
                AxialDirection::Positive => Self::Right,
                AxialDirection::Negative => Self::Left,
            },
        }
    }
}

impl vstd::std_specs::convert::FromSpecImpl<PlanarDirection> for ScreenDirection {
    open spec fn obeys_from_spec() -> bool {
        true
    }

    open spec fn from_spec(planar_direction: PlanarDirection) -> Self {
        screen_of(planar_direction)
    }
}

impl From<ScreenDirection> for PlanarDirection {
    fn from(screen_direction: ScreenDirection) -> (result: Self)
        ensures
            result == planar_of(screen_direction),
    {
        match screen_direction {
            ScreenDirection::Up => Self { axis: PlaneAxis::First, direction: AxialDirection::Positive },
            ScreenDirection::Down => Self { axis: PlaneAxis::First, direction: AxialDirection::Negative },
            ScreenDirection::Left => Self { axis: PlaneAxis::Second, direction: AxialDirection::Negative },
            ScreenDirection::Right => Self { axis: PlaneAxis::Second, direction: AxialDirection::Positive },
        }
    }
}

impl vstd::std_specs::convert::FromSpecImpl<ScreenDirection> for PlanarDirection {
    open spec fn obeys_from_spec() -> bool {
        true
    }

    open spec fn from_spec(screen_direction: ScreenDirection) -> Self {
        planar_of(screen_direction)
    }
}

/// Converting a horizontal [`ScreenDirection`] to a [`PlanarDirection`] and back gives the
/// direction that was started with.
///
/// The vertical directions do not come back: `Up` converts to the positive direction of the
/// first axis, which converts back to `Down` (see [`lemma_vertical_round_trip_flips`]).
pub proof fn lemma_horizontal_round_trip(direction: ScreenDirection)
    requires
        direction == ScreenDirection::Left || direction == ScreenDirection::Right,
    ensures
        screen_of(planar_of(direction)) == direction,
{
}

/// Converting a vertical [`ScreenDirection`] to a [`PlanarDirection`] and back gives the opposite
/// vertical direction.
pub proof fn lemma_vertical_round_trip_flips(direction: ScreenDirection)
    requires
        direction == ScreenDirection::Up || direction == ScreenDirection::Down,
    ensures
        screen_of(planar_of(direction)) != direction,
        vertical_of(screen_of(planar_of(direction))) is Some,
{
}

/// Converting a [`PlanarDirection`] to a [`ScreenDirection`] and back keeps its axis.
pub proof fn lemma_planar_round_trip_keeps_axis(planar: PlanarDirection)
    ensures
        planar_of(screen_of(planar)).axis == planar.axis,
{
}

/// Only the directions along the first axis of the plane have a vertical direction.
pub proof fn lemma_vertical_iff_first_axis(planar: PlanarDirection)
    ensures
        vertical_of(screen_of(planar)) is Some <==> planar.axis == PlaneAxis::First,
{
}

} // verus!
