use vstd::prelude::*;
use crate::builder::{arrays_view, entries_view, params_view};
use crate::model::{
    ApiModel, ApiModelSpec, ArrayTypeDescriptor, BackendTarget, EntryPointDescriptor,
    ParamDescriptor,
};

verus! {

/// How the models of the active backends disagree.
#[derive(Clone, Copy, Debug, PartialEq, Eq, Structural)]
pub enum EquivError {
    /// No backend is active.
    NoBackends,
    /// The array type lists of two consecutive backends differ.
    ArrayTypesDiffer { previous: BackendTarget, current: BackendTarget },
    /// The array types agree, the entry point lists differ.
    EntryPointsDiffer { previous: BackendTarget, current: BackendTarget },
}

pub open spec fn backends_view(v: Seq<(BackendTarget, ApiModel)>) -> Seq<(BackendTarget, ApiModelSpec)> {
    v.map_values(|p: (BackendTarget, ApiModel)| (p.0, p.1@))
}

/// The first index at or after `i` whose model differs from the one before it, or the length.
pub open spec fn first_divergence(ms: Seq<(BackendTarget, ApiModelSpec)>, i: int) -> int
    decreases ms.len() - i,
{
    if i < 1 || i >= ms.len() {
        ms.len() as int
    } else if ms[i].1 != ms[i - 1].1 {
        i
    } else {
        first_divergence(ms, i + 1)
    }
}

/// What comparing consecutive backends gives: the first model when all agree,
/// else the first disagreeing pair and the list that differs.
pub open spec fn equivalence_outcome(ms: Seq<(BackendTarget, ApiModelSpec)>) -> Result<ApiModelSpec, EquivError> {
    if ms.len() == 0 {
        Err(EquivError::NoBackends)
    } else {
        let j = first_divergence(ms, 1);
        if j >= ms.len() {
            Ok(ms[0].1)
        } else if ms[j].1.array_types != ms[j - 1].1.array_types {
            Err(EquivError::ArrayTypesDiffer { previous: ms[j - 1].0, current: ms[j].0 })
        } else {
            Err(EquivError::EntryPointsDiffer { previous: ms[j - 1].0, current: ms[j].0 })
        }
    }
}

/// What comparing backend `current` with the backend `previous` before it gives.
pub open spec fn pair_outcome(previous: BackendTarget, a: ApiModelSpec, current: BackendTarget, b: ApiModelSpec) -> Result<(), EquivError> {
    if a.array_types != b.array_types {
        Err(EquivError::ArrayTypesDiffer { previous, current })
    } else if a.entry_points != b.entry_points {
        Err(EquivError::EntryPointsDiffer { previous, current })
    } else {
        Ok(())
    }
}

fn same_array_types(a: &Vec<ArrayTypeDescriptor>, b: &Vec<ArrayTypeDescriptor>) -> (r: bool)
    ensures
        r == (arrays_view(a@) == arrays_view(b@)),
{
    if a.len() != b.len() {
        assert(arrays_view(a@).len() != arrays_view(b@).len());
        return false;
    }
    let mut i: usize = 0;
    while i < a.len()
        invariant
            i <= a@.len(),
            a@.len() == b@.len(),
            forall|m: int| 0 <= m < i ==> a@[m]@ == b@[m]@,
        decreases a@.len() - i,
    {
        let x = &a[i];
        let y = &b[i];
        if !(x.name == y.name && x.element == y.element && x.rank == y.rank) {
            assert(arrays_view(a@)[i as int] != arrays_view(b@)[i as int]);
            return false;
        }
        i += 1;
    }
    assert(arrays_view(a@) =~= arrays_view(b@));
    true
}

fn same_params(a: &Vec<ParamDescriptor>, b: &Vec<ParamDescriptor>) -> (r: bool)
    ensures
        r == (params_view(a@) == params_view(b@)),
{
    if a.len() != b.len() {
        assert(params_view(a@).len() != params_view(b@).len());
        return false;
    }
    let mut i: usize = 0;
    while i < a.len()
        invariant
            i <= a@.len(),
            a@.len() == b@.len(),
            forall|m: int| 0 <= m < i ==> a@[m]@ == b@[m]@,
        decreases a@.len() - i,
    {
        let x = &a[i];
        let y = &b[i];
        if !(x.direction == y.direction && x.kind == y.kind && x.name == y.name) {
            assert(params_view(a@)[i as int] != params_view(b@)[i as int]);
            return false;
        }
        i += 1;
    }
    assert(params_view(a@) =~= params_view(b@));
    true
}

fn same_entry_points(a: &Vec<EntryPointDescriptor>, b: &Vec<EntryPointDescriptor>) -> (r: bool)
    ensures
        r == (entries_view(a@) == entries_view(b@)),
{
    if a.len() != b.len() {
        assert(entries_view(a@).len() != entries_view(b@).len());
        return false;
    }
    let mut i: usize = 0;
    while i < a.len()
        invariant
            i <= a@.len(),
            a@.len() == b@.len(),
            forall|m: int| 0 <= m < i ==> a@[m]@ == b@[m]@,
        decreases a@.len() - i,
    {
        let x = &a[i];
        let y = &b[i];
        let same_name = x.name == y.name;
        let same = same_params(&x.params, &y.params);
        assert(x@.params == params_view(x.params@));
        if !(same_name && same) {
            assert(entries_view(a@)[i as int] != entries_view(b@)[i as int]);
            return false;
        }
        assert(x@ == y@);
        i += 1;
    }
    assert(entries_view(a@) =~= entries_view(b@));
    true
}

/// Compares the model of backend `current` with that of the backend `previous` before it.
pub fn check_pair(previous: BackendTarget, a: &ApiModel, current: BackendTarget, b: &ApiModel) -> (r: Result<(), EquivError>)
    ensures
        r == pair_outcome(previous, a@, current, b@),
{
    if !same_array_types(&a.array_types, &b.array_types) {
        Err(EquivError::ArrayTypesDiffer { previous, current })
    } else if !same_entry_points(&a.entry_points, &b.entry_points) {
        Err(EquivError::EntryPointsDiffer { previous, current })
    } else {
        Ok(())
    }
}

/// Folds the backends' models together in order; on agreement the first model is canonical.
pub fn check_equivalent(models: Vec<(BackendTarget, ApiModel)>) -> (r: Result<ApiModel, EquivError>)
    ensures
        match (r, equivalence_outcome(backends_view(models@))) {
            (Ok(m), Ok(s)) => m@ == s,
            (Err(e), Err(f)) => e == f,
            _ => false,
        },
{
    let ghost ms = backends_view(models@);
    if models.len() == 0 {
        return Err(EquivError::NoBackends);
    }
    let mut i: usize = 1;
    while i < models.len()
        invariant
            1 <= i <= models@.len(),
            ms == backends_view(models@),
            first_divergence(ms, 1) == first_divergence(ms, i as int),
        decreases models@.len() - i,
    {
        let (pb, pm) = (models[i - 1].0, &models[i - 1].1);
        let (cb, cm) = (models[i].0, &models[i].1);
        match check_pair(pb, pm, cb, cm) {
            Err(e) => {
                assert(ms[i as int].1 != ms[i - 1].1);
                return Err(e);
            },
            Ok(()) => {
                assert(ms[i as int].1 == ms[i - 1].1);
            },
        }
        i += 1;
    }
    let mut models = models;
    let (_, first) = models.remove(0);
    Ok(first)
}

/// Two backends with identical models agree, and the canonical model is that model;
/// two backends whose models differ anywhere disagree, and the error names both.
pub proof fn lemma_equivalence_pair(b1: BackendTarget, m1: ApiModelSpec, b2: BackendTarget, m2: ApiModelSpec)
    ensures
        m1 == m2 ==> equivalence_outcome(seq![(b1, m1), (b2, m2)]) == Ok::<ApiModelSpec, EquivError>(m1),
        m1 != m2 ==> match equivalence_outcome(seq![(b1, m1), (b2, m2)]) {
            Err(EquivError::ArrayTypesDiffer { previous, current }) => previous == b1 && current == b2,
            Err(EquivError::EntryPointsDiffer { previous, current }) => previous == b1 && current == b2,
            _ => false,
        },
{
    let ms = seq![(b1, m1), (b2, m2)];
    assert(first_divergence(ms, 2) == 2);
    if m1 == m2 {
        assert(first_divergence(ms, 1) == 2);
    } else {
        assert(first_divergence(ms, 1) == 1);
    }
}

} // verus!
