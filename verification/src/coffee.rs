//! A small record type used by the demonstrations around this crate.
//!
//! `Coffee` identifies a product and how many units of it are on hand. It
//! orders by `count` alone, so ordered collections of coffees sort by stock
//! level, while equality compares both fields.

use vstd::prelude::*;

verus! {

/// A product with an identifier and a unit count.
#[derive(Debug, Clone, Copy, PartialEq, Eq, Structural, Hash)]
pub struct Coffee {
    pub id: i32,
    pub count: i32,
}

/// The fixed sample record handed out when a lookup finds nothing.
pub fn generate_coffee() -> (c: Coffee)
    ensures
        c.id == 10000,
        c.count == 50,
{
    Coffee { id: 10000, count: 50 }
}

impl PartialOrd for Coffee {
    /// Coffees order by their `count` field alone.
    fn partial_cmp(&self, other: &Self) -> (r: Option<core::cmp::Ordering>) {
        if self.count < other.count {
            Some(core::cmp::Ordering::Less)
        } else if self.count == other.count {
            Some(core::cmp::Ordering::Equal)
        } else {
            Some(core::cmp::Ordering::Greater)
        }
    }
}

impl vstd::std_specs::cmp::PartialOrdSpecImpl for Coffee {
    open spec fn obeys_partial_cmp_spec() -> bool {
        true
    }

    open spec fn partial_cmp_spec(&self, other: &Self) -> Option<core::cmp::Ordering> {
        if self.count < other.count {
            Some(core::cmp::Ordering::Less)
        } else if self.count == other.count {
            Some(core::cmp::Ordering::Equal)
        } else {
            Some(core::cmp::Ordering::Greater)
        }
    }
}

} // verus!
