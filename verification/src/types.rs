//! What the declared types say of the values they admit.

use vstd::prelude::*;
use crate::schema::{IntegerType, IntegerTypeView};

verus! {

/// The least value that an integer type admits: the 64-bit minimum where none
/// is declared, else the declared minimum, or one more where it is exclusive.
pub open spec fn lower_bound(integer_type: IntegerTypeView) -> int {
    match integer_type.minimum {
        Some(minimum) => if integer_type.exclusive_minimum {
            minimum + 1
        } else {
            minimum as int
        },
        None => i64::MIN as int,
    }
}

/// The greatest value that an integer type admits: the 64-bit maximum where
/// none is declared, else the declared maximum, or one less where it is
/// exclusive.
pub open spec fn upper_bound(integer_type: IntegerTypeView) -> int {
    match integer_type.maximum {
        Some(maximum) => if integer_type.exclusive_maximum {
            maximum - 1
        } else {
            maximum as int
        },
        None => i64::MAX as int,
    }
}

impl IntegerType {
    /// The least and the greatest value that the type admits.
    pub fn limits(&self) -> (bounds: (i128, i128))
        ensures
            bounds.0 == lower_bound(self@),
            bounds.1 == upper_bound(self@),
    {
        let low: i128 = match self.minimum {
            Some(minimum) => if self.exclusive_minimum {
                minimum as i128 + 1
            } else {
                minimum as i128
            },
            None => i64::MIN as i128,
        };
        let high: i128 = match self.maximum {
            Some(maximum) => if self.exclusive_maximum {
                maximum as i128 - 1
            } else {
                maximum as i128
            },
            None => i64::MAX as i128,
        };
        (low, high)
    }

    /// The least and the greatest value that the type admits, where both are
    /// 64-bit values.
    pub fn min_max(&self) -> (bounds: (i64, i64))
        requires
            lower_bound(self@) <= i64::MAX,
            upper_bound(self@) >= i64::MIN,
        ensures
            bounds.0 == lower_bound(self@),
            bounds.1 == upper_bound(self@),
    {
        let the_min = match self.minimum {
            Some(minimum) => if self.exclusive_minimum {
                minimum + 1
            } else {
                minimum
            },
            None => i64::MIN,
        };
        let the_max = match self.maximum {
            Some(maximum) => if self.exclusive_maximum {
                maximum - 1
            } else {
                maximum
            },
            None => i64::MAX,
        };
        (the_min, the_max)
    }
}

} // verus!
