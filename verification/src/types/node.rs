//! Node identity and the logical version of a replicated state.
use std::cmp::Ordering;
use vstd::prelude::*;
use vstd::string::*;

use crate::types::text::push_decimal;

verus! {

/// Unique identifier for a node in the cluster.
#[derive(Debug, Clone, Copy, PartialEq, Eq, Hash, PartialOrd, Ord, Structural)]
pub struct NodeId(pub u64);

impl NodeId {
    /// The text `Node(<id>)`.
    pub fn to_string(&self) -> (s: String)
        ensures
            s@ == "Node("@ + crate::types::text::decimal(self.0 as nat) + ")"@,
    {
        let mut s = "Node(".to_owned();
        push_decimal(&mut s, self.0);
        s.append(")");
        s
    }
}

/// Logical version of a state, used for ordering and staleness detection.
///
/// Ordered lexicographically by `(incarnation, age)`: a higher incarnation
/// always wins regardless of age; within the same incarnation a higher
/// age wins.
#[derive(Debug, Clone, Copy, PartialEq, Eq, Hash, Ord, Structural)]
pub struct Generation {
    /// Unique lifetime identifier; changes on crash-restart without persistence.
    pub incarnation: u64,
    /// Monotonically increasing mutation counter within an incarnation.
    pub age: u64,
}

impl Generation {
    /// Whether `self` comes strictly before `other` in `(incarnation, age)` order.
    pub open spec fn before(self, other: Generation) -> bool {
        self.incarnation < other.incarnation || (self.incarnation == other.incarnation && self.age
            < other.age)
    }

    /// Whether `self` is `other` or comes before it.
    pub open spec fn at_most(self, other: Generation) -> bool {
        self == other || self.before(other)
    }

    /// A generation of the given incarnation and age.
    pub fn new(incarnation: u64, age: u64) -> (g: Self)
        ensures
            g == (Generation { incarnation, age }),
    {
        Generation { incarnation, age }
    }

    /// The initial generation of a brand-new state (incarnation 0, age 0).
    pub fn zero() -> (g: Self)
        ensures
            g == (Generation { incarnation: 0, age: 0 }),
    {
        Generation { incarnation: 0, age: 0 }
    }

    /// Whether this is a newer incarnation than `other` (the owner restarted).
    pub fn is_new_incarnation(&self, other: &Self) -> (b: bool)
        ensures
            b == (self.incarnation > other.incarnation),
    {
        self.incarnation > other.incarnation
    }

    /// Whether `self` comes strictly before `other`.
    pub fn is_before(&self, other: &Self) -> (b: bool)
        ensures
            b == self.before(*other),
    {
        self.incarnation < other.incarnation || (self.incarnation == other.incarnation && self.age
            < other.age)
    }

    /// The text `v<incarnation>:<age>`.
    pub fn to_string(&self) -> (s: String)
        ensures
            s@ == "v"@ + crate::types::text::decimal(self.incarnation as nat) + ":"@
                + crate::types::text::decimal(self.age as nat),
    {
        let mut s = "v".to_owned();
        push_decimal(&mut s, self.incarnation);
        s.append(":");
        push_decimal(&mut s, self.age);
        s
    }
}

impl PartialOrd for Generation {
    fn partial_cmp(&self, other: &Self) -> (o: Option<Ordering>) {
        if self.incarnation < other.incarnation {
            Some(Ordering::Less)
        } else if self.incarnation > other.incarnation {
            Some(Ordering::Greater)
        } else if self.age < other.age {
            Some(Ordering::Less)
        } else if self.age > other.age {
            Some(Ordering::Greater)
        } else {
            Some(Ordering::Equal)
        }
    }
}

impl vstd::std_specs::cmp::PartialOrdSpecImpl for Generation {
    open spec fn obeys_partial_cmp_spec() -> bool {
        true
    }

    open spec fn partial_cmp_spec(&self, other: &Self) -> Option<Ordering> {
        if self.before(*other) {
            Some(Ordering::Less)
        } else if other.before(*self) {
            Some(Ordering::Greater)
        } else {
            Some(Ordering::Equal)
        }
    }
}

/// The order on generations is total: exactly one of "before", "equal" and "after" holds.
pub proof fn generation_order_is_total(a: Generation, b: Generation)
    ensures
        a.before(b) || a == b || b.before(a),
        !(a.before(b) && b.before(a)),
        !a.before(a),
{
}

/// The order on generations is transitive.
pub proof fn generation_order_is_transitive(a: Generation, b: Generation, c: Generation)
    requires
        a.before(b),
        b.before(c),
    ensures
        a.before(c),
{
}

/// A newer incarnation wins whatever the ages are.
pub proof fn new_incarnation_wins(a: Generation, b: Generation)
    requires
        a.incarnation < b.incarnation,
    ensures
        a.before(b),
{
}

/// Within an incarnation the higher age is the newer.
pub proof fn later_age_wins(a: Generation, b: Generation)
    requires
        a.incarnation == b.incarnation,
        a.age < b.age,
    ensures
        a.before(b),
{
}

/// Nothing comes before the initial generation, and every other generation comes after it.
pub proof fn zero_is_least(a: Generation)
    ensures
        (Generation { incarnation: 0, age: 0 }).at_most(a),
        !a.before(Generation { incarnation: 0, age: 0 }),
{
}

/// Policy for handling wire version mismatches on inbound sync messages.
#[derive(Debug, Clone, Copy, PartialEq, Eq, Structural)]
pub enum VersionMismatchPolicy {
    /// Keep the last successfully deserialized view.
    KeepStale,
    /// Remove the peer's view until a compatible version arrives.
    DropAndWait,
}

} // verus!
