//! The access scope of a command: what the capabilities allow and deny for it, and whether an
//! input falls in it.

use vstd::prelude::*;

use std::sync::Arc;

verus! {

/// A scope entry that an input can be matched against.
pub trait ScopeObjectMatch {
    /// The input the entry is matched against (borrowed, so `str` for text).
    type Input: ?Sized;

    /// Whether the input matches the entry.
    fn matches(&self, input: &Self::Input) -> bool;
}

/// Whether matching `input` against the entry `x` can give `b`.
pub open spec fn entry_gives<T: ScopeObjectMatch>(x: Arc<T>, input: &T::Input, b: bool) -> bool {
    call_ensures(T::matches, (&*x, input), b)
}

/// The access scope of a command: the entries that allow and those that deny.
pub struct CommandScope<T> {
    allow: Vec<Arc<T>>,
    deny: Vec<Arc<T>>,
}

/// Whether a call of `pred` on `x` can give `b`.
pub open spec fn gives<T, F: Fn(&Arc<T>) -> bool>(pred: F, x: Arc<T>, b: bool) -> bool {
    call_ensures(pred, (&x,), b)
}

impl<T> CommandScope<T> {
    /// The entries that allow.
    pub closed spec fn allowed(&self) -> Seq<Arc<T>> {
        self.allow@
    }

    /// The entries that deny.
    pub closed spec fn denied(&self) -> Seq<Arc<T>> {
        self.deny@
    }

    /// A scope of the given allowing and denying entries.
    pub fn new(allow: Vec<Arc<T>>, deny: Vec<Arc<T>>) -> (r: Self)
        ensures
            r.allowed() == allow@,
            r.denied() == deny@,
    {
        CommandScope { allow, deny }
    }

    /// What this access scope allows.
    pub fn allows(&self) -> (r: &Vec<Arc<T>>)
        ensures
            r@ == self.allowed(),
    {
        &self.allow
    }

    /// What this access scope denies.
    pub fn denies(&self) -> (r: &Vec<Arc<T>>)
        ensures
            r@ == self.denied(),
    {
        &self.deny
    }

    /// Whether an input falls in the scope, `pred` telling whether it matches an entry: no
    /// denying entry matches it, and, when there are allowing entries, one of them does (with
    /// none, every input not denied falls in).
    pub fn matches_with<F: Fn(&Arc<T>) -> bool>(&self, pred: F) -> (r: bool)
        requires
            forall|x: &Arc<T>| call_requires(pred, (x,)),
        ensures
            r ==> (forall|i: int| 0 <= i < self.denied().len() ==> gives(pred, #[trigger] self.denied()[i], false))
                && (self.allowed().len() == 0 || exists|i: int| 0 <= i < self.allowed().len() && gives(pred, #[trigger] self.allowed()[i], true)),
            !r ==> (exists|i: int| 0 <= i < self.denied().len() && gives(pred, #[trigger] self.denied()[i], true))
                || (self.allowed().len() > 0 && forall|i: int| 0 <= i < self.allowed().len() ==> gives(pred, #[trigger] self.allowed()[i], false)),
    {
        let mut i: usize = 0;
        while i < self.deny.len()
            invariant
                i <= self.deny@.len(),
                forall|x: &Arc<T>| call_requires(pred, (x,)),
                forall|j: int| 0 <= j < i ==> gives(pred, #[trigger] self.denied()[j], false),
            decreases self.deny@.len() - i,
        {
            let hit = pred(&self.deny[i]);
            if hit {
                assert(gives(pred, self.denied()[i as int], true));
                return false;
            }
            assert(gives(pred, self.denied()[i as int], false));
            i += 1;
        }
        if self.allow.len() == 0 {
            return true;
        }
        let mut k: usize = 0;
        while k < self.allow.len()
            invariant
                k <= self.allow@.len(),
                self.allow@.len() > 0,
                forall|x: &Arc<T>| call_requires(pred, (x,)),
                forall|j: int| 0 <= j < self.denied().len() ==> gives(pred, #[trigger] self.denied()[j], false),
                forall|j: int| 0 <= j < k ==> gives(pred, #[trigger] self.allowed()[j], false),
            decreases self.allow@.len() - k,
        {
            let hit = pred(&self.allow[k]);
            if hit {
                assert(gives(pred, self.allowed()[k as int], true));
                return true;
            }
            assert(gives(pred, self.allowed()[k as int], false));
            k += 1;
        }
        false
    }
}

impl<T: ScopeObjectMatch> CommandScope<T> {
    /// Whether `input` falls in the scope: it matches no denying entry, and, when there are
    /// allowing entries, it matches one (with none, every input not denied falls in).
    pub fn matches(&self, input: &T::Input) -> (r: bool)
        ensures
            r ==> (forall|i: int| 0 <= i < self.denied().len() ==> entry_gives(#[trigger] self.denied()[i], input, false))
                && (self.allowed().len() == 0 || exists|i: int| 0 <= i < self.allowed().len() && entry_gives(#[trigger] self.allowed()[i], input, true)),
            !r ==> (exists|i: int| 0 <= i < self.denied().len() && entry_gives(#[trigger] self.denied()[i], input, true))
                || (self.allowed().len() > 0 && forall|i: int| 0 <= i < self.allowed().len() ==> entry_gives(#[trigger] self.allowed()[i], input, false)),
    {
        let r = self.matches_with(|s: &Arc<T>| -> (b: bool)
            ensures
                call_ensures(T::matches, (&**s, input), b),
            { s.matches(input) });
        r
    }
}

} // verus!
