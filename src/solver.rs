//! The registry of level solvers and dispatch by level number.
use vstd::prelude::*;
use crate::error::HarnessError;

verus! {

/// The levels of `entries`, in order.
pub open spec fn keys<S>(entries: Seq<(usize, S)>) -> Seq<usize> {
    entries.map_values(|e: (usize, S)| e.0)
}

/// The position of the first entry of `level`.
pub open spec fn is_first_of<S>(entries: Seq<(usize, S)>, level: usize, i: int) -> bool {
    &&& 0 <= i < entries.len()
    &&& entries[i].0 == level
    &&& forall|j: int| 0 <= j < i ==> entries[j].0 != level
}

/// The solver of the first entry of `level`.
pub open spec fn solver_in<S>(entries: Seq<(usize, S)>, level: usize) -> S {
    entries[choose|i: int| is_first_of(entries, level, i)].1
}

proof fn lemma_solver_in<S>(entries: Seq<(usize, S)>, level: usize, i: int)
    requires
        is_first_of(entries, level, i),
    ensures
        solver_in(entries, level) == entries[i].1,
{
    let k = choose|k: int| is_first_of(entries, level, k);
    assert(is_first_of(entries, level, k));
    if k < i {
        assert(entries[k].0 != level);
    }
    if i < k {
        assert(entries[i].0 != level);
    }
}

proof fn lemma_solver_in_unique<S>(entries: Seq<(usize, S)>, level: usize, i: int)
    requires
        keys(entries).no_duplicates(),
        0 <= i < entries.len(),
        entries[i].0 == level,
    ensures
        solver_in(entries, level) == entries[i].1,
{
    assert forall|j: int| 0 <= j < i implies entries[j].0 != level by {
        assert(keys(entries)[j] != keys(entries)[i]);
    }
    lemma_solver_in(entries, level, i);
}

/// A solver that accepts every sequence of lines.
pub open spec fn is_total<S: Fn(Vec<String>) -> Vec<String>>(solver: S) -> bool {
    forall|input: Vec<String>| solver.requires((input,))
}

/// The solvers of the supported levels, at most one per level. A solver is a
/// function from the lines of an input file to the lines of its output file,
/// defined on every input.
pub struct SolverRegistry<S: Fn(Vec<String>) -> Vec<String>> {
    entries: Vec<(usize, S)>,
}

impl<S: Fn(Vec<String>) -> Vec<String>> SolverRegistry<S> {
    #[verifier::type_invariant]
    closed spec fn inv(&self) -> bool {
        &&& keys(self.entries@).no_duplicates()
        &&& forall|i: int| 0 <= i < self.entries.len() ==> is_total(#[trigger] self.entries@[i].1)
    }

    /// The set of levels that have a solver.
    pub closed spec fn registered(&self) -> Set<usize> {
        keys(self.entries@).to_set()
    }

    /// The solver of `level`, when it has one.
    pub closed spec fn solver_for(&self, level: usize) -> S {
        solver_in(self.entries@, level)
    }

    /// A registry with no solver.
    pub fn new() -> (r: Self)
        ensures
            r.registered() == Set::<usize>::empty(),
    {
        let r = SolverRegistry { entries: Vec::new() };
        assert(keys(r.entries@) =~= Seq::<usize>::empty());
        assert(r.registered() =~= Set::<usize>::empty());
        r
    }

    /// The position of the first entry of `level`, if there is one.
    fn find(&self, level: usize) -> (r: Option<usize>)
        ensures
            match r {
                Some(i) => is_first_of(self.entries@, level, i as int),
                None => !self.registered().contains(level),
            },
    {
        let mut i: usize = 0;
        while i < self.entries.len()
            invariant
                i <= self.entries.len(),
                forall|j: int| 0 <= j < i ==> self.entries@[j].0 != level,
            decreases self.entries.len() - i,
        {
            if self.entries[i].0 == level {
                return Some(i);
            }
            i += 1;
        }
        assert(!keys(self.entries@).contains(level)) by {
            if keys(self.entries@).contains(level) {
                let k = choose|k: int| 0 <= k < self.entries.len() && keys(self.entries@)[k] == level;
                assert(self.entries@[k].0 == level);
            }
        }
        None
    }

    /// Whether `level` has a solver.
    pub fn is_registered(&self, level: usize) -> (r: bool)
        ensures
            r == self.registered().contains(level),
    {
        match self.find(level) {
            Some(i) => {
                assert(keys(self.entries@)[i as int] == level);
                true
            },
            None => false,
        }
    }

    /// The registry with `solver` for `level`, in place of any solver it had;
    /// the other levels keep theirs.
    pub fn register(self, level: usize, solver: S) -> (r: Self)
        requires
            is_total(solver),
        ensures
            r.registered() == self.registered().insert(level),
            r.solver_for(level) == solver,
            forall|x: usize|
                x != level && self.registered().contains(x) ==> r.solver_for(x)
                    == self.solver_for(x),
    {
        proof {
            use_type_invariant(&self);
        }
        let found = self.find(level);
        let ghost before = self.entries@;
        let ghost removed: int = -1;
        let SolverRegistry { mut entries } = self;
        match found {
            Some(i) => {
                entries.remove(i);
                proof {
                    removed = i as int;
                }
            },
            None => {},
        }
        let ghost kept = entries@;
        // Where each kept entry stood before.
        let ghost from = |k: int| if removed < 0 || k < removed { k } else { k + 1 };
        assert forall|k: int| 0 <= k < kept.len() implies kept[k] == before[from(k)]
            && before[from(k)].0 != level && 0 <= from(k) < before.len() by {
            if removed >= 0 {
                assert(kept[k] == before.remove(removed)[k]);
            }
            assert(keys(before)[from(k)] == before[from(k)].0);
            if before[from(k)].0 == level {
                if removed >= 0 {
                    assert(keys(before)[removed] == level);
                } else {
                    assert(keys(before).contains(level));
                }
            }
        }
        entries.push((level, solver));
        proof {
            let n = kept.len() as int;
            let all = entries@;
            assert(all == kept.push((level, solver)));
            assert(keys(all).no_duplicates()) by {
                assert forall|a: int, b: int| 0 <= a < b < all.len() implies keys(all)[a]
                    != keys(all)[b] by {
                    if b < n {
                        assert(keys(before)[from(a)] != keys(before)[from(b)]);
                    }
                }
            }
            assert forall|k: int| 0 <= k < all.len() implies is_total(#[trigger] all[k].1) by {
                if k < n {
                    assert(is_total(before[from(k)].1));
                }
            }
        }
        let r = SolverRegistry { entries };
        proof {
            let n = kept.len() as int;
            let all = r.entries@;
            lemma_solver_in_unique(all, level, n);
            assert forall|x: usize| #[trigger] r.registered().contains(x) <==> self.registered().insert(level).contains(x) by {
                if x != level && keys(before).contains(x) {
                    let k = choose|k: int| 0 <= k < before.len() && keys(before)[k] == x;
                    assert(k != removed);
                    let k2 = if removed < 0 || k < removed { k } else { k - 1 };
                    assert(from(k2) == k);
                    assert(keys(all)[k2] == x);
                }
                if keys(all).contains(x) && x != level {
                    let k = choose|k: int| 0 <= k < all.len() && keys(all)[k] == x;
                    assert(keys(before)[from(k)] == x);
                }
                assert(keys(all)[n] == level);
            }
            assert(r.registered() =~= self.registered().insert(level));
            assert forall|x: usize|
                x != level && self.registered().contains(x) implies r.solver_for(x)
                    == self.solver_for(x) by {
                let k = choose|k: int| 0 <= k < before.len() && keys(before)[k] == x;
                lemma_solver_in_unique(before, x, k);
                assert(k != removed);
                let k2 = if removed < 0 || k < removed { k } else { k - 1 };
                assert(from(k2) == k);
                lemma_solver_in_unique(all, x, k2);
            }
        }
        r
    }
}

/// Runs the solver registered for `level` on `input_lines` and returns what it
/// gives; a level without one is an `UnsupportedLevel` error.
pub fn solve_level<S: Fn(Vec<String>) -> Vec<String>>(
    registry: &SolverRegistry<S>,
    level: usize,
    input_lines: Vec<String>,
) -> (r: Result<Vec<String>, HarnessError>)
    ensures
        r is Ok <==> registry.registered().contains(level),
        r is Err ==> r->Err_0 == (HarnessError::UnsupportedLevel { level }),
        r matches Ok(output) ==> call_ensures(registry.solver_for(level), (input_lines,), output),
{
    proof {
        use_type_invariant(registry);
    }
    match registry.find(level) {
        Some(i) => {
            proof {
                lemma_solver_in(registry.entries@, level, i as int);
                assert(keys(registry.entries@)[i as int] == level);
                assert(is_total(registry.entries@[i as int].1));
            }
            let solver = &registry.entries[i].1;
            Ok(solver(input_lines))
        },
        None => Err(HarnessError::UnsupportedLevel { level }),
    }
}

} // verus!
