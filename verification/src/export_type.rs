//! The four-valued lattice that classifies what a binding evaluates to.

use vstd::prelude::*;

verus! {

/// What a binding, a function or an export evaluates to: markup or anything
/// else, available at once or only after awaiting.
#[derive(Debug, Clone, Copy, PartialEq, Eq, Structural, Hash)]
pub enum ExportType {
    /// Markup, available synchronously.
    JSX,
    /// Markup behind a deferred computation.
    AsyncJSX,
    /// Any other value, available synchronously.
    Other,
    /// Any other value behind a deferred computation.
    AsyncOther,
}

impl ExportType {
    /// Whether the value is only available after awaiting.
    pub open spec fn spec_is_async(self) -> bool {
        self is AsyncJSX || self is AsyncOther
    }

    /// The type of `await`-producing code around a value of this type.
    pub open spec fn spec_awaited(self) -> ExportType {
        match self {
            ExportType::JSX => ExportType::AsyncJSX,
            ExportType::Other => ExportType::AsyncOther,
            ExportType::AsyncJSX => ExportType::AsyncJSX,
            ExportType::AsyncOther => ExportType::AsyncOther,
        }
    }

    /// Rank in the total order `AsyncJSX > JSX > AsyncOther > Other`.
    pub open spec fn spec_priority(self) -> nat {
        match self {
            ExportType::AsyncJSX => 3,
            ExportType::JSX => 2,
            ExportType::AsyncOther => 1,
            ExportType::Other => 0,
        }
    }

    /// The join of two types: the one of higher priority.
    pub open spec fn spec_gt(self, other: ExportType) -> ExportType {
        if self.spec_priority() > other.spec_priority() {
            self
        } else {
            other
        }
    }

    #[verifier::when_used_as_spec(spec_is_async)]
    pub fn is_async(self) -> (r: bool)
        ensures
            r == self.spec_is_async(),
    {
        match self {
            ExportType::AsyncJSX | ExportType::AsyncOther => true,
            ExportType::JSX | ExportType::Other => false,
        }
    }

    #[verifier::when_used_as_spec(spec_awaited)]
    pub fn awaited(self) -> (r: ExportType)
        ensures
            r == self.spec_awaited(),
    {
        match self {
            ExportType::JSX => ExportType::AsyncJSX,
            ExportType::Other => ExportType::AsyncOther,
            _ => self,
        }
    }

    #[verifier::when_used_as_spec(spec_priority_u8)]
    pub fn priority(self) -> (r: u8)
        ensures
            r == self.spec_priority(),
    {
        match self {
            ExportType::AsyncJSX => 3,
            ExportType::JSX => 2,
            ExportType::AsyncOther => 1,
            ExportType::Other => 0,
        }
    }

    /// `priority` as the machine integer the executable method returns.
    pub open spec fn spec_priority_u8(self) -> u8 {
        self.spec_priority() as u8
    }

    #[verifier::when_used_as_spec(spec_gt)]
    pub fn gt(self, other: ExportType) -> (r: ExportType)
        ensures
            r == self.spec_gt(other),
    {
        if self.priority() > other.priority() {
            return self;
        }
        other
    }
}

/// Awaiting twice is awaiting once, and awaited markup is deferred markup.
pub proof fn lemma_awaited_idempotent(t: ExportType)
    ensures
        t.spec_awaited().spec_awaited() == t.spec_awaited(),
        t.spec_awaited().spec_is_async(),
        ExportType::JSX.spec_awaited() == ExportType::AsyncJSX,
        ExportType::Other.spec_awaited() == ExportType::AsyncOther,
{
}

/// The join does not depend on the order of its arguments.
pub proof fn lemma_join_commutative(a: ExportType, b: ExportType)
    ensures
        a.spec_gt(b) == b.spec_gt(a),
{
}

/// The join is one of its arguments, and none of them has a higher
/// priority.
pub proof fn lemma_join_is_max(a: ExportType, b: ExportType)
    ensures
        a.spec_gt(b) == a || a.spec_gt(b) == b,
        a.spec_gt(b).spec_priority() >= a.spec_priority(),
        a.spec_gt(b).spec_priority() >= b.spec_priority(),
{
}

/// Deferred markup absorbs every other type in a join.
pub proof fn lemma_join_deferred_markup(x: ExportType)
    ensures
        ExportType::AsyncJSX.spec_gt(x) == ExportType::AsyncJSX,
        x.spec_gt(ExportType::AsyncJSX) == ExportType::AsyncJSX,
{
}

/// Types with the same priority are the same type.
pub proof fn lemma_priority_injective(a: ExportType, b: ExportType)
    ensures
        a.spec_priority() == b.spec_priority() ==> a == b,
{
}

} // verus!
