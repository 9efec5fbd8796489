//! Defines the base types of [`ui`](crate::ui): indices and lengths of the cells of a grid.
use core::convert::TryFrom;
use vstd::prelude::*;

verus! {

/// The type of the value stored in [`Index`] and [`Length`].
pub type IndexType = i32;

/// The internal value of the [`Length`] that reaches to the end of the row.
pub const END_VALUE: IndexType = -1;

/// Signifies an integer that is out of the range of the type it is converted to.
#[derive(Clone, Copy, Debug, PartialEq, Eq, Structural)]
pub enum IntRangeError {
    /// The integer is below the range.
    Underflow,
    /// The integer is above the range.
    Overflow,
}

/// The conversion of `value` into the range from 0 to `max`.
pub open spec fn ranged(value: int, max: int) -> Result<int, IntRangeError> {
    if value < 0 {
        Err(IntRangeError::Underflow)
    } else if value > max {
        Err(IntRangeError::Overflow)
    } else {
        Ok(value)
    }
}

/// Signifies the index of a row or column in the grid.
///
/// An `Index` is `>= 0` and `<= i32::MAX`.
#[derive(Clone, Copy, Debug, Default, Eq, Hash, Ord, PartialEq, PartialOrd, Structural)]
pub struct Index(IndexType);

impl View for Index {
    type V = int;

    /// The value of `self`.
    closed spec fn view(&self) -> int {
        self.0 as int
    }
}

impl Index {
    /// Every `Index` is not negative.
    #[verifier::type_invariant]
    spec fn non_negative(self) -> bool {
        self.0 >= 0
    }

    /// Returns the value of `self`.
    pub fn get(self) -> (result: IndexType)
        ensures
            result == self@,
            result >= 0,
    {
        proof {
            use_type_invariant(&self);
        }
        self.0
    }

    /// Creates the `Index` of `value`, or the error of the range that it is out of.
    pub fn new(value: IndexType) -> (result: Result<Self, IntRangeError>)
        ensures
            match ranged(value as int, i32::MAX as int) {
                Ok(v) => result matches Ok(index) && index@ == v,
                Err(error) => result == Err::<Self, IntRangeError>(error),
            },
    {
        if value < 0 {
            Err(IntRangeError::Underflow)
        } else {
            Ok(Index(value))
        }
    }

    /// The `Index` 0.
    pub fn zero() -> (result: Self)
        ensures
            result@ == 0,
    {
        Index(0)
    }

    /// Returns `self` moved by `other`, which must stay within the range of an `Index`.
    pub fn add(self, other: IndexType) -> (result: Self)
        requires
            0 <= self@ + other <= i32::MAX,
        ensures
            result@ == self@ + other,
    {
        Index(self.0 + other)
    }

    /// Moves `self` by `other`, which must keep `self` within the range of an `Index`.
    pub fn add_assign(&mut self, other: IndexType)
        requires
            0 <= old(self)@ + other <= i32::MAX,
        ensures
            final(self)@ == old(self)@ + other,
    {
        *self = Index(self.0 + other);
    }

    /// Returns the value of `self`, negated.
    pub fn neg(self) -> (result: IndexType)
        ensures
            result == -self@,
    {
        proof {
            use_type_invariant(&self);
        }
        -self.0
    }

    /// If the value of `self` is `other`.
    pub fn equals(&self, other: IndexType) -> (result: bool)
        ensures
            result == (self@ == other),
    {
        self.0 == other
    }

    /// If the value of `self` is less than `other`.
    pub fn is_less_than(&self, other: IndexType) -> (result: bool)
        ensures
            result == (self@ < other),
    {
        self.0 < other
    }

    /// Returns the decimal text of `self`.
    pub fn text(&self) -> (result: String)
        ensures
            result@ == decimal_text(self@ as nat),
    {
        proof {
            use_type_invariant(self);
        }
        decimal_of_i32(self.0)
    }
}

/// The decimal text of a number that is not negative.
pub open spec fn decimal_text(value: nat) -> Seq<char> {
    crate::storage::decimal_text(value)
}

/// Returns the decimal text of `value`, which is not negative: its decimal digits without
/// leading zeros, as `ToString` writes an integer.
pub(crate) fn decimal_of_i32(value: IndexType) -> (result: String)
    requires
        value >= 0,
    ensures
        result@ == decimal_text(value as nat),
{
    crate::storage::decimal_of_u64(value as u64)
}

impl From<u8> for Index {
    fn from(value: u8) -> (result: Self)
        ensures
            result@ == value,
    {
        Index(value as IndexType)
    }
}

impl vstd::std_specs::convert::FromSpecImpl<u8> for Index {
    open spec fn obeys_from_spec() -> bool {
        true
    }

    closed spec fn from_spec(value: u8) -> Self {
        Index(value as IndexType)
    }
}

impl TryFrom<i64> for Index {
    type Error = IntRangeError;

    fn try_from(value: i64) -> (result: Result<Self, Self::Error>)
        ensures
            match ranged(value as int, i32::MAX as int) {
                Ok(v) => result matches Ok(index) && index@ == v,
                Err(error) => result == Err::<Self, IntRangeError>(error),
            },
    {
        if value < 0 {
            Err(IntRangeError::Underflow)
        } else if value > i32::MAX as i64 {
            Err(IntRangeError::Overflow)
        } else {
            Ok(Index(value as IndexType))
        }
    }
}

impl vstd::std_specs::convert::TryFromSpecImpl<i64> for Index {
    open spec fn obeys_try_from_spec() -> bool {
        true
    }

    closed spec fn try_from_spec(value: i64) -> Result<Self, Self::Error> {
        match ranged(value as int, i32::MAX as int) {
            Ok(v) => Ok(Index(v as IndexType)),
            Err(error) => Err(error),
        }
    }
}

impl TryFrom<IndexType> for Index {
    type Error = IntRangeError;

    fn try_from(value: IndexType) -> (result: Result<Self, Self::Error>)
        ensures
            match ranged(value as int, i32::MAX as int) {
                Ok(v) => result matches Ok(index) && index@ == v,
                Err(error) => result == Err::<Self, IntRangeError>(error),
            },
    {
        Self::new(value)
    }
}

impl vstd::std_specs::convert::TryFromSpecImpl<IndexType> for Index {
    open spec fn obeys_try_from_spec() -> bool {
        true
    }

    closed spec fn try_from_spec(value: IndexType) -> Result<Self, Self::Error> {
        match ranged(value as int, i32::MAX as int) {
            Ok(v) => Ok(Index(v as IndexType)),
            Err(error) => Err(error),
        }
    }
}

impl TryFrom<Length> for Index {
    type Error = LengthEndError;

    fn try_from(value: Length) -> (result: Result<Self, Self::Error>)
        ensures
            value@ >= 0 <==> result is Ok,
            result matches Ok(index) ==> index@ == value@,
    {
        match Self::new(value.0) {
            Ok(index) => Ok(index),
            Err(_) => Err(LengthEndError),
        }
    }
}

impl vstd::std_specs::convert::TryFromSpecImpl<Length> for Index {
    open spec fn obeys_try_from_spec() -> bool {
        true
    }

    closed spec fn try_from_spec(value: Length) -> Result<Self, Self::Error> {
        if value.0 >= 0 {
            Ok(Index(value.0))
        } else {
            Err(LengthEndError)
        }
    }
}

impl TryFrom<u32> for Index {
    type Error = IntRangeError;

    fn try_from(value: u32) -> (result: Result<Self, Self::Error>)
        ensures
            match ranged(value as int, i32::MAX as int) {
                Ok(v) => result matches Ok(index) && index@ == v,
                Err(error) => result == Err::<Self, IntRangeError>(error),
            },
    {
        if value > i32::MAX as u32 {
            Err(IntRangeError::Overflow)
        } else {
            Ok(Index(value as IndexType))
        }
    }
}

impl vstd::std_specs::convert::TryFromSpecImpl<u32> for Index {
    open spec fn obeys_try_from_spec() -> bool {
        true
    }

    closed spec fn try_from_spec(value: u32) -> Result<Self, Self::Error> {
        match ranged(value as int, i32::MAX as int) {
            Ok(v) => Ok(Index(v as IndexType)),
            Err(error) => Err(error),
        }
    }
}

impl TryFrom<usize> for Index {
    type Error = IntRangeError;

    fn try_from(value: usize) -> (result: Result<Self, Self::Error>)
        ensures
            match ranged(value as int, i32::MAX as int) {
                Ok(v) => result matches Ok(index) && index@ == v,
                Err(error) => result == Err::<Self, IntRangeError>(error),
            },
    {
        if value > i32::MAX as usize {
            Err(IntRangeError::Overflow)
        } else {
            Ok(Index(value as IndexType))
        }
    }
}

impl vstd::std_specs::convert::TryFromSpecImpl<usize> for Index {
    open spec fn obeys_try_from_spec() -> bool {
        true
    }

    closed spec fn try_from_spec(value: usize) -> Result<Self, Self::Error> {
        match ranged(value as int, i32::MAX as int) {
            Ok(v) => Ok(Index(v as IndexType)),
            Err(error) => Err(error),
        }
    }
}

impl From<Index> for IndexType {
    fn from(value: Index) -> (result: Self)
        ensures
            result == value@,
    {
        value.0
    }
}

impl vstd::std_specs::convert::FromSpecImpl<Index> for IndexType {
    open spec fn obeys_from_spec() -> bool {
        true
    }

    open spec fn from_spec(value: Index) -> Self {
        value@ as IndexType
    }
}

impl TryFrom<Index> for usize {
    type Error = IntRangeError;

    fn try_from(value: Index) -> (result: Result<Self, Self::Error>)
        ensures
            value@ <= usize::MAX <==> result is Ok,
            result matches Ok(converted) ==> converted == value@,
    {
        let v = value.get();
        if (v as u64) <= (usize::MAX as u64) {
            Ok(v as usize)
        } else {
            Err(IntRangeError::Overflow)
        }
    }
}

impl vstd::std_specs::convert::TryFromSpecImpl<Index> for usize {
    open spec fn obeys_try_from_spec() -> bool {
        true
    }

    open spec fn try_from_spec(value: Index) -> Result<Self, Self::Error> {
        if value@ <= usize::MAX {
            Ok(value@ as usize)
        } else {
            Err(IntRangeError::Overflow)
        }
    }
}

/// Signifies a number of adjacent cells.
///
/// Generally this is an unsigned number. However, there is a special `Length`, made by
/// [`Length::end`], that represents the number of cells between a start cell and the end of
/// that row.
#[derive(Clone, Copy, Eq, Debug, Default, Hash, Ord, PartialEq, PartialOrd, Structural)]
pub struct Length(IndexType);

impl View for Length {
    type V = int;

    /// The value of `self`; the `Length` that reaches to the end of the row has the value
    /// [`END_VALUE`].
    closed spec fn view(&self) -> int {
        self.0 as int
    }
}

impl Length {
    /// Every `Length` is a number of cells or the one that reaches to the end of the row.
    #[verifier::type_invariant]
    spec fn at_least_end(self) -> bool {
        self.0 >= END_VALUE
    }

    /// Returns the `Length` that reaches to the end of the row.
    pub fn end() -> (result: Self)
        ensures
            result@ == END_VALUE,
    {
        Length(END_VALUE)
    }

    /// Returns the value of `self`.
    pub fn n(self) -> (result: IndexType)
        ensures
            result == self@,
    {
        self.0
    }

    /// Returns the text of `self`: `END` for the `Length` that reaches to the end of the row,
    /// else the decimal text of its value.
    pub fn text(&self) -> (result: String)
        ensures
            self@ == END_VALUE ==> result@ == "END"@,
            self@ != END_VALUE ==> result@ == decimal_text(self@ as nat),
    {
        proof {
            use_type_invariant(self);
        }
        if self.0 == END_VALUE {
            String::from_str("END")
        } else {
            decimal_of_i32(self.0)
        }
    }
}

impl From<u16> for Length {
    fn from(value: u16) -> (result: Self)
        ensures
            result@ == value,
    {
        Length(value as IndexType)
    }
}

impl vstd::std_specs::convert::FromSpecImpl<u16> for Length {
    open spec fn obeys_from_spec() -> bool {
        true
    }

    closed spec fn from_spec(value: u16) -> Self {
        Length(value as IndexType)
    }
}

impl TryFrom<usize> for Length {
    type Error = IntRangeError;

    fn try_from(value: usize) -> (result: Result<Self, Self::Error>)
        ensures
            value <= i32::MAX <==> result is Ok,
            result matches Ok(length) ==> length@ == value,
            value > i32::MAX ==> result == Err::<Self, IntRangeError>(IntRangeError::Overflow),
    {
        if value > i32::MAX as usize {
            Err(IntRangeError::Overflow)
        } else {
            Ok(Length(value as IndexType))
        }
    }
}

impl vstd::std_specs::convert::TryFromSpecImpl<usize> for Length {
    open spec fn obeys_try_from_spec() -> bool {
        true
    }

    closed spec fn try_from_spec(value: usize) -> Result<Self, Self::Error> {
        if value <= i32::MAX {
            Ok(Length(value as IndexType))
        } else {
            Err(IntRangeError::Overflow)
        }
    }
}

/// Signifies an error that occurs when trying to convert the length that reaches to the end of
/// the row to an index.
#[derive(Clone, Copy, Debug, PartialEq, Eq, Structural)]
pub struct LengthEndError;

impl LengthEndError {
    /// Returns the text that describes `self`.
    pub fn message(&self) -> (result: &'static str)
        ensures
            result@ == "Length is end"@,
    {
        "Length is end"
    }
}

} // verus!
