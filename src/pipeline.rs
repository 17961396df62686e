use vstd::prelude::*;
use crate::builder::{build_model, lemma_array_types_preserved, model_spec};
use crate::equiv::{backends_view, check_pair, pair_outcome, EquivError};
use crate::model::{ApiModel, ApiModelSpec, BackendTarget};
use crate::scan::{array_decls, header_scan, rank_start, scan_header, ScanError};
use crate::text::digits_value;
use crate::synth::{arrays_text, entries_text, synthesize, GeneratedSources};

verus! {

/// Why one backend's header gave no model.
#[derive(Clone, Copy, Debug, PartialEq, Eq, Structural)]
pub enum HeaderError {
    Scan(ScanError),
    Parse(crate::builder::ParseError),
}

/// Why generation stopped.
#[derive(Clone, Copy, Debug, PartialEq, Eq, Structural)]
pub enum GenError {
    /// The header of `backend` could not be scanned or modelled.
    Header { backend: BackendTarget, error: HeaderError },
    /// The backends' models disagree, or no backend is active.
    Equiv(EquivError),
}

/// The model of header text `t`.
pub open spec fn header_model(t: Seq<char>) -> Result<ApiModelSpec, HeaderError> {
    match header_scan(t) {
        Err(e) => Err(HeaderError::Scan(e)),
        Ok((arrays, entries)) => match model_spec(arrays, entries) {
            Err(e) => Err(HeaderError::Parse(e)),
            Ok(m) => Ok(m),
        },
    }
}

/// Scans one header and builds its model.
pub fn model_header(text: &str) -> (r: Result<ApiModel, HeaderError>)
    ensures
        match (r, header_model(text@)) {
            (Ok(m), Ok(s)) => m@ == s,
            (Err(e), Err(f)) => e == f,
            _ => false,
        },
{
    match scan_header(text) {
        Err(e) => Err(HeaderError::Scan(e)),
        Ok(decls) => match build_model(&decls.array_types, &decls.entry_points) {
            Err(e) => Err(HeaderError::Parse(e)),
            Ok(m) => Ok(m),
        },
    }
}

pub open spec fn headers_view(hs: Seq<(BackendTarget, String)>) -> Seq<(BackendTarget, Seq<char>)> {
    hs.map_values(|h: (BackendTarget, String)| (h.0, h.1@))
}

/// The models of the headers `hs`, processed in order, each compared with the
/// one before it as soon as it is built; or the first error met.
pub open spec fn models_outcome(hs: Seq<(BackendTarget, Seq<char>)>) -> Result<Seq<(BackendTarget, ApiModelSpec)>, GenError>
    decreases hs.len(),
{
    if hs.len() == 0 {
        Ok(Seq::empty())
    } else {
        match models_outcome(hs.drop_last()) {
            Err(e) => Err(e),
            Ok(ms) => match header_model(hs.last().1) {
                Err(e) => Err(GenError::Header { backend: hs.last().0, error: e }),
                Ok(m) => if ms.len() > 0 {
                    match pair_outcome(ms.last().0, ms.last().1, hs.last().0, m) {
                        Err(e) => Err(GenError::Equiv(e)),
                        Ok(()) => Ok(ms.push((hs.last().0, m))),
                    }
                } else {
                    Ok(ms.push((hs.last().0, m)))
                },
            },
        }
    }
}

/// The canonical model of the headers `hs`: the first backend's, when all agree.
pub open spec fn canonical_model(hs: Seq<(BackendTarget, Seq<char>)>) -> Result<ApiModelSpec, GenError> {
    if hs.len() == 0 {
        Err(GenError::Equiv(EquivError::NoBackends))
    } else {
        match models_outcome(hs) {
            Err(e) => Err(e),
            Ok(ms) => Ok(ms[0].1),
        }
    }
}

proof fn lemma_models_error_persists(hs: Seq<(BackendTarget, Seq<char>)>, j: int)
    requires
        0 <= j <= hs.len(),
        models_outcome(hs.take(j)) is Err,
    ensures
        models_outcome(hs) == models_outcome(hs.take(j)),
    decreases hs.len(),
{
    if j == hs.len() {
        assert(hs.take(j) == hs);
    } else {
        assert(hs.drop_last().take(j) == hs.take(j));
        lemma_models_error_persists(hs.drop_last(), j);
    }
}

/// Models every backend's header in order, checks each against the one before,
/// and synthesizes the wrappers of the canonical model.
pub fn generate(headers: &Vec<(BackendTarget, String)>) -> (r: Result<(ApiModel, GeneratedSources), GenError>)
    ensures
        match (r, canonical_model(headers_view(headers@))) {
            (Ok((m, g)), Ok(s)) => m@ == s && g.arrays@ == arrays_text(s.array_types)
                && g.entry_points@ == entries_text(s.entry_points),
            (Err(e), Err(f)) => e == f,
            _ => false,
        },
{
    let ghost hv = headers_view(headers@);
    if headers.len() == 0 {
        return Err(GenError::Equiv(EquivError::NoBackends));
    }
    let mut models: Vec<(BackendTarget, ApiModel)> = Vec::new();
    let mut i: usize = 0;
    assert(hv.take(0) =~= Seq::<(BackendTarget, Seq<char>)>::empty());
    assert(backends_view(models@) =~= Seq::<(BackendTarget, ApiModelSpec)>::empty());
    while i < headers.len()
        invariant
            i <= headers@.len(),
            hv == headers_view(headers@),
            models@.len() == i,
            models_outcome(hv.take(i as int)) == Ok::<Seq<(BackendTarget, ApiModelSpec)>, GenError>(backends_view(models@)),
        decreases headers@.len() - i,
    {
        let ghost t1 = hv.take(i + 1);
        assert(t1.drop_last() =~= hv.take(i as int));
        assert(t1.last() == (headers@[i as int].0, headers@[i as int].1@));
        let backend = headers[i].0;
        let ghost mv = backends_view(models@);
        match model_header(headers[i].1.as_str()) {
            Err(e) => {
                proof {
                    lemma_models_error_persists(hv, i + 1);
                }
                return Err(GenError::Header { backend, error: e });
            },
            Ok(m) => {
                if i > 0 {
                    let pb = models[i - 1].0;
                    match check_pair(pb, &models[i - 1].1, backend, &m) {
                        Err(e) => {
                            proof {
                                assert(mv.last() == (pb, models@[i - 1].1@));
                                lemma_models_error_persists(hv, i + 1);
                            }
                            return Err(GenError::Equiv(e));
                        },
                        Ok(()) => {
                            assert(mv.last() == (pb, models@[i - 1].1@));
                        },
                    }
                }
                models.push((backend, m));
                assert(backends_view(models@) =~= mv.push((backend, m@)));
            },
        }
        i += 1;
    }
    assert(hv.take(i as int) =~= hv);
    let (_, first) = models.remove(0);
    let sources = synthesize(&first);
    Ok((first, sources))
}

/// The model of a header holds exactly its array type declarations, in source
/// order, with their names as written and the ranks their names give.
pub proof fn lemma_header_array_types(t: Seq<char>)
    ensures
        header_model(t) matches Ok(m) ==> {
            &&& m.array_types.len() == array_decls(t, 0).len()
            &&& forall|i: int| 0 <= i < m.array_types.len() ==> {
                &&& (#[trigger] m.array_types[i]).name == array_decls(t, 0)[i]
                &&& m.array_types[i].rank == digits_value(
                    array_decls(t, 0)[i].subrange(rank_start(array_decls(t, 0)[i]), array_decls(t, 0)[i].len() - 1),
                )
            }
        },
{
    if let Ok((arrays, entries)) = header_scan(t) {
        lemma_array_types_preserved(arrays, entries);
    }
}

proof fn lemma_models_agree(hs: Seq<(BackendTarget, Seq<char>)>)
    ensures
        models_outcome(hs) matches Ok(ms) ==> ms.len() == hs.len() && forall|i: int|
            0 <= i < hs.len() ==> {
                &&& (#[trigger] ms[i]).0 == hs[i].0
                &&& header_model(hs[i].1) == Ok::<ApiModelSpec, HeaderError>(ms[i].1)
                &&& ms[i].1 == ms[0].1
            },
    decreases hs.len(),
{
    if hs.len() > 0 {
        let prev = hs.drop_last();
        lemma_models_agree(prev);
        if let Ok(ms) = models_outcome(hs) {
            let pms = models_outcome(prev)->Ok_0;
            assert forall|i: int| 0 <= i < hs.len() implies {
                &&& (#[trigger] ms[i]).0 == hs[i].0
                &&& header_model(hs[i].1) == Ok::<ApiModelSpec, HeaderError>(ms[i].1)
                &&& ms[i].1 == ms[0].1
            } by {
                if i < hs.len() - 1 {
                    assert(hs[i] == prev[i]);
                    assert(ms[i] == pms[i]);
                } else if pms.len() > 0 {
                    assert(ms[0] == pms[0]);
                    assert(pms.last().1 == pms[0].1);
                }
            }
        }
    }
}

/// Generation succeeds only where every backend's header gives a model and all
/// those models are the same; the canonical model is then that model.
pub proof fn lemma_canonical_model_agrees(hs: Seq<(BackendTarget, Seq<char>)>)
    ensures
        canonical_model(hs) matches Ok(m) ==> forall|i: int|
            0 <= i < hs.len() ==> #[trigger] header_model(hs[i].1) == Ok::<ApiModelSpec, HeaderError>(m),
{
    lemma_models_agree(hs);
    if let Ok(m) = canonical_model(hs) {
        let ms = models_outcome(hs)->Ok_0;
        assert forall|i: int| 0 <= i < hs.len() implies #[trigger] header_model(hs[i].1) == Ok::<ApiModelSpec, HeaderError>(m) by {
            assert(ms[i].1 == ms[0].1);
        }
    }
}

} // verus!
