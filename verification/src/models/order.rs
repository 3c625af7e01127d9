//! The order of example files: that of their names.
use vstd::prelude::*;
use std::cmp::Ordering;
use crate::models::catalog::{rank, text_lt, Rank};
use crate::models::example::ExampleFile;

verus! {

/// *order* a sequence of `ExampleFile`s by the `name` field.
impl PartialOrd for ExampleFile {
    fn partial_cmp(&self, other: &Self) -> (r: Option<Ordering>) {
        match rank(self.name.as_str(), other.name.as_str()) {
            Rank::Before => Some(Ordering::Less),
            Rank::Same => Some(Ordering::Equal),
            Rank::After => Some(Ordering::Greater),
        }
    }
}

impl vstd::std_specs::cmp::PartialOrdSpecImpl for ExampleFile {
    open spec fn obeys_partial_cmp_spec() -> bool {
        true
    }

    open spec fn partial_cmp_spec(&self, other: &Self) -> Option<Ordering> {
        if text_lt(self.name@, other.name@) {
            Some(Ordering::Less)
        } else if self.name@ == other.name@ {
            Some(Ordering::Equal)
        } else {
            Some(Ordering::Greater)
        }
    }
}

} // verus!
