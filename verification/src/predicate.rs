//! Rules that tell from its tags whether a way is kept.

use crate::tags::{tag_value, TagSeq, Tags};
use vstd::prelude::*;

verus! {

/// A rule over a tag mapping.
#[derive(Debug)]
pub enum TagPredicate {
    /// The key is mapped to this value.
    Is(String, String),
    /// The key is mapped to some value.
    Has(String),
    /// Both rules hold.
    And(Box<TagPredicate>, Box<TagPredicate>),
    /// At least one of the rules holds.
    Or(Box<TagPredicate>, Box<TagPredicate>),
    /// The rule does not hold.
    Not(Box<TagPredicate>),
}

impl TagPredicate {
    /// Whether the rule holds of `tags`.
    pub open spec fn holds(&self, tags: TagSeq) -> bool
        decreases self,
    {
        match self {
            TagPredicate::Is(key, value) => tag_value(tags, key@) == Some(value@),
            TagPredicate::Has(key) => tag_value(tags, key@) is Some,
            TagPredicate::And(left, right) => left.holds(tags) && right.holds(tags),
            TagPredicate::Or(left, right) => left.holds(tags) || right.holds(tags),
            TagPredicate::Not(inner) => !inner.holds(tags),
        }
    }

    /// The rule that keeps railway tracks: `railway` is `rail`.
    pub fn railway() -> (r: TagPredicate)
        ensures
            forall|tags: TagSeq| #[trigger]
                r.holds(tags) == (tag_value(tags, "railway"@) == Some("rail"@)),
    {
        TagPredicate::Is(String::from_str("railway"), String::from_str("rail"))
    }

    /// The rule that asks for `key` to be `value`.
    pub fn key_is(key: &str, value: &str) -> (r: TagPredicate)
        ensures
            forall|tags: TagSeq| #[trigger]
                r.holds(tags) == (tag_value(tags, key@) == Some(value@)),
    {
        TagPredicate::Is(String::from_str(key), String::from_str(value))
    }

    /// The rule that asks for `key` to have a value.
    pub fn has_key(key: &str) -> (r: TagPredicate)
        ensures
            forall|tags: TagSeq| #[trigger] r.holds(tags) == tag_value(tags, key@).is_some(),
    {
        TagPredicate::Has(String::from_str(key))
    }

    /// The rule that asks for both `self` and `other`.
    pub fn and(self, other: TagPredicate) -> (r: TagPredicate)
        ensures
            forall|tags: TagSeq| #[trigger]
                r.holds(tags) == (self.holds(tags) && other.holds(tags)),
    {
        TagPredicate::And(Box::new(self), Box::new(other))
    }

    /// The rule that asks for `self` or `other`.
    pub fn or(self, other: TagPredicate) -> (r: TagPredicate)
        ensures
            forall|tags: TagSeq| #[trigger]
                r.holds(tags) == (self.holds(tags) || other.holds(tags)),
    {
        TagPredicate::Or(Box::new(self), Box::new(other))
    }

    /// The rule that asks for `self` not to hold.
    pub fn negate(self) -> (r: TagPredicate)
        ensures
            forall|tags: TagSeq| #[trigger] r.holds(tags) == !self.holds(tags),
    {
        TagPredicate::Not(Box::new(self))
    }

    /// Whether the rule holds of `tags`.
    pub fn matches(&self, tags: &Tags) -> (b: bool)
        ensures
            b == self.holds(tags@),
        decreases self,
    {
        match self {
            TagPredicate::Is(key, value) => tags.contains(key, value),
            TagPredicate::Has(key) => tags.contains_key(key),
            TagPredicate::And(left, right) => left.matches(tags) && right.matches(tags),
            TagPredicate::Or(left, right) => left.matches(tags) || right.matches(tags),
            TagPredicate::Not(inner) => !inner.matches(tags),
        }
    }
}

} // verus!
