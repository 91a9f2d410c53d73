use vstd::prelude::*;

verus! {

/// Element types whose default value and equality are known to the verifier.
pub trait Element: Copy + Sized {
    /// The value that fills the cells a sequence did not provide.
    spec fn default_spec() -> Self;

    fn default_value() -> (r: Self)
        ensures
            r == Self::default_spec(),
    ;

    fn same(&self, other: &Self) -> (r: bool)
        ensures
            r == (*self == *other),
    ;
}

impl Element for i32 {
    open spec fn default_spec() -> i32 {
        0
    }

    fn default_value() -> (r: i32) {
        0
    }

    fn same(&self, other: &i32) -> (r: bool) {
        *self == *other
    }
}

impl Element for i64 {
    open spec fn default_spec() -> i64 {
        0
    }

    fn default_value() -> (r: i64) {
        0
    }

    fn same(&self, other: &i64) -> (r: bool) {
        *self == *other
    }
}

impl Element for u32 {
    open spec fn default_spec() -> u32 {
        0
    }

    fn default_value() -> (r: u32) {
        0
    }

    fn same(&self, other: &u32) -> (r: bool) {
        *self == *other
    }
}

impl Element for u64 {
    open spec fn default_spec() -> u64 {
        0
    }

    fn default_value() -> (r: u64) {
        0
    }

    fn same(&self, other: &u64) -> (r: bool) {
        *self == *other
    }
}

impl Element for usize {
    open spec fn default_spec() -> usize {
        0
    }

    fn default_value() -> (r: usize) {
        0
    }

    fn same(&self, other: &usize) -> (r: bool) {
        *self == *other
    }
}

} // verus!
