//! Defines helpful numerical functionality.
use core::convert::TryFrom;
use core::num::TryFromIntError;
use vstd::prelude::*;

verus! {

/// Signifies an `i32` value that is not negative.
///
/// Useful for cases where an interface requires an i32 but the number should not be negative.
///
/// # Guarantees
///
/// Given: `value: NonNegI32`
///
/// `i32::from(value) >= 0`
#[derive(Clone, Copy, Debug, Default, Eq, Hash, Ord, PartialEq, PartialOrd, Structural)]
pub struct NonNegI32(i32);

impl View for NonNegI32 {
    type V = int;

    /// The mathematical value of `self`.
    closed spec fn view(&self) -> int {
        self.0 as int
    }
}

/// The quotient of `lhs` by `rhs`, where `None` signifies a division by zero.
pub open spec fn checked_div_spec(lhs: int, rhs: int) -> Option<int> {
    if rhs == 0 {
        None
    } else {
        Some(lhs / rhs)
    }
}

/// The value of `value` saturated into the range of [`NonNegI32`].
pub open spec fn saturate(value: int) -> int {
    if value > i32::MAX {
        i32::MAX as int
    } else {
        value
    }
}

impl NonNegI32 {
    /// The invariant of every `NonNegI32`: its value is not negative.
    #[verifier::type_invariant]
    spec fn non_negative(self) -> bool {
        self.0 >= 0
    }

    /// Returns the value of `self` as an `i32`.
    pub fn get(self) -> (value: i32)
        ensures
            value == self@,
            value >= 0,
    {
        proof {
            use_type_invariant(&self);
        }
        self.0
    }

    /// Creates a `NonNegI32` from `value`, which the caller knows is not negative.
    pub fn new_unchecked(value: i32) -> (result: Self)
        requires
            value >= 0,
        ensures
            result@ == value,
    {
        Self(value)
    }

    /// Creates a `NonNegI32` with the smallest value that can be represented by `NonNegI32`.
    pub fn min_value() -> (result: Self)
        ensures
            result@ == 0,
    {
        Self(0)
    }

    /// Creates a `NonNegI32` with the largest value that can be represented by `NonNegI32`.
    pub fn max_value() -> (result: Self)
        ensures
            result@ == i32::MAX,
    {
        Self(i32::MAX)
    }

    /// Converts `value` to a `NonNegI32`, saturating at `i32::MAX`.
    pub fn saturating_from_u64(value: u64) -> (result: Self)
        ensures
            result@ == saturate(value as int),
    {
        match Self::try_from(value) {
            Ok(index) => index,
            // Error occurs when value is larger than i32::MAX.
            Err(_) => Self::max_value(),
        }
    }

    /// Computes `self / rhs`, returning `None` if `rhs == 0` or the division results in overflow.
    pub fn checked_div(self, rhs: Self) -> (result: Option<Self>)
        ensures
            match result {
                Some(quotient) => checked_div_spec(self@, rhs@) == Some(quotient@),
                None => checked_div_spec(self@, rhs@) is None,
            },
    {
        proof {
            use_type_invariant(&self);
            use_type_invariant(&rhs);
        }
        match self.0.checked_div(rhs.0) {
            Some(quotient) => {
                assert(quotient >= 0) by (nonlinear_arith)
                    requires
                        self.0 >= 0,
                        rhs.0 > 0,
                        quotient == self.0 / rhs.0,
                ;
                Some(Self(quotient))
            },
            None => None,
        }
    }

    /// Adds one, returning the result.
    pub fn add_one(self) -> (result: Self)
        requires
            self@ < i32::MAX,
        ensures
            result@ == self@ + 1,
    {
        proof {
            use_type_invariant(&self);
        }
        Self(self.0 + 1)
    }

    /// Returns the decimal text of `self`.
    pub fn text(&self) -> (result: String)
        ensures
            result@ == crate::storage::decimal_text(self@ as nat),
    {
        proof {
            use_type_invariant(self);
        }
        crate::ui::base::decimal_of_i32(self.0)
    }

    /// Subtracts one, returning the result.
    ///
    /// The value of `self` must be positive, so that the result is not negative.
    pub fn sub_one(self) -> (result: Self)
        requires
            self@ > 0,
        ensures
            result@ == self@ - 1,
    {
        Self(self.0 - 1)
    }
}

impl TryFrom<i32> for NonNegI32 {
    type Error = TryFromIntError;

    fn try_from(value: i32) -> (result: Result<Self, Self::Error>)
        ensures
            value >= 0 <==> result is Ok,
            result matches Ok(converted) ==> converted@ == value,
    {
        // Converting to u32 fails exactly when value is negative.
        match u32::try_from(value) {
            Ok(_) => Ok(Self(value)),
            Err(error) => Err(error),
        }
    }
}

impl vstd::std_specs::convert::TryFromSpecImpl<i32> for NonNegI32 {
    open spec fn obeys_try_from_spec() -> bool {
        true
    }

    closed spec fn try_from_spec(value: i32) -> Result<Self, Self::Error> {
        if value >= 0 {
            Ok(NonNegI32(value as i32))
        } else {
            Err(arbitrary())
        }
    }
}

impl TryFrom<u64> for NonNegI32 {
    type Error = TryFromIntError;

    fn try_from(value: u64) -> (result: Result<Self, Self::Error>)
        ensures
            value <= i32::MAX <==> result is Ok,
            result matches Ok(converted) ==> converted@ == value,
    {
        match i32::try_from(value) {
            Ok(converted) => Ok(Self(converted)),
            Err(error) => Err(error),
        }
    }
}

impl vstd::std_specs::convert::TryFromSpecImpl<u64> for NonNegI32 {
    open spec fn obeys_try_from_spec() -> bool {
        true
    }

    closed spec fn try_from_spec(value: u64) -> Result<Self, Self::Error> {
        if value <= i32::MAX {
            Ok(NonNegI32(value as i32))
        } else {
            Err(arbitrary())
        }
    }
}

impl TryFrom<usize> for NonNegI32 {
    type Error = TryFromIntError;

    fn try_from(value: usize) -> (result: Result<Self, Self::Error>)
        ensures
            value <= i32::MAX <==> result is Ok,
            result matches Ok(converted) ==> converted@ == value,
    {
        match i32::try_from(value) {
            Ok(converted) => Ok(Self(converted)),
            Err(error) => Err(error),
        }
    }
}

impl vstd::std_specs::convert::TryFromSpecImpl<usize> for NonNegI32 {
    open spec fn obeys_try_from_spec() -> bool {
        true
    }

    closed spec fn try_from_spec(value: usize) -> Result<Self, Self::Error> {
        if value <= i32::MAX {
            Ok(NonNegI32(value as i32))
        } else {
            Err(arbitrary())
        }
    }
}

impl From<NonNegI32> for i32 {
    fn from(value: NonNegI32) -> (result: i32)
        ensures
            result == value@,
            result >= 0,
    {
        value.get()
    }
}

impl vstd::std_specs::convert::FromSpecImpl<NonNegI32> for i32 {
    open spec fn obeys_from_spec() -> bool {
        true
    }

    open spec fn from_spec(value: NonNegI32) -> i32 {
        value@ as i32
    }
}

impl From<NonNegI32> for u64 {
    fn from(value: NonNegI32) -> (result: u64)
        ensures
            result == value@,
    {
        // The value of a NonNegI32 is never negative, so the conversion never fails.
        u64::try_from(value.get()).expect("converting `NonNegI32` to u64")
    }
}

impl vstd::std_specs::convert::FromSpecImpl<NonNegI32> for u64 {
    open spec fn obeys_from_spec() -> bool {
        true
    }

    open spec fn from_spec(value: NonNegI32) -> u64 {
        value@ as u64
    }
}

impl TryFrom<NonNegI32> for usize {
    type Error = TryFromIntError;

    fn try_from(value: NonNegI32) -> (result: Result<Self, Self::Error>)
        ensures
            value@ <= usize::MAX <==> result is Ok,
            result matches Ok(converted) ==> converted == value@,
    {
        usize::try_from(value.get())
    }
}

impl vstd::std_specs::convert::TryFromSpecImpl<NonNegI32> for usize {
    open spec fn obeys_try_from_spec() -> bool {
        true
    }

    open spec fn try_from_spec(value: NonNegI32) -> Result<Self, Self::Error> {
        if value@ <= usize::MAX {
            Ok(value@ as usize)
        } else {
            Err(arbitrary())
        }
    }
}

} // verus!
