use vstd::prelude::*;

use crate::corpus::CorpusStore;
use crate::ids::{CorpusId, StageId};
use crate::metadata::{metadata_inserted, spec_kind_of, MetadataKind, MetadataMap, MetadataValue};
use crate::rand_source::RandSource;
use crate::state::{
    construction_shape, same_except_registries, with_corpus_id, with_stage, HasRandAndOpenAPI,
    OpenApiFuzzerState,
};

verus! {

/// Construction is idempotent in shape: two states built from the same
/// random source, the same stores and the same schema agree on every field
/// except the metadata registries, which the caller's initializers write.
/// No field is derived from a wall clock: both timestamps start at zero.
pub proof fn lemma_construction_idempotent_in_shape(
    s1: OpenApiFuzzerState,
    s2: OpenApiFuzzerState,
    rand: RandSource,
    corpus: CorpusStore,
    solutions: CorpusStore,
    api: openapiv3::OpenAPI,
)
    requires
        construction_shape(s1, rand, corpus, solutions, api),
        construction_shape(s2, rand, corpus, solutions, api),
    ensures
        same_except_registries(s1, s2),
        s1.start_time == s2.start_time,
{
}

/// Querying a kind right after storing a value of it yields exactly that
/// value, and storing another value of a different kind in between does not
/// disturb it.
pub proof fn lemma_metadata_get_after_insert(
    m0: MetadataMap,
    m1: MetadataMap,
    m2: MetadataMap,
    v1: MetadataValue,
    v2: MetadataValue,
)
    requires
        metadata_inserted(m0, m1, v1),
        metadata_inserted(m1, m2, v2),
        spec_kind_of(v1) != spec_kind_of(v2),
    ensures
        m1.spec_get(spec_kind_of(v1)) == Some(v1),
        m2.spec_get(spec_kind_of(v1)) == Some(v1),
        m2.spec_get(spec_kind_of(v2)) == Some(v2),
{
}

/// Storing a second value of the same kind fully replaces the first, with
/// no residual data, and still touches no other kind.
pub proof fn lemma_metadata_insert_replaces(
    m0: MetadataMap,
    m1: MetadataMap,
    m2: MetadataMap,
    v1: MetadataValue,
    v2: MetadataValue,
)
    requires
        metadata_inserted(m0, m1, v1),
        metadata_inserted(m1, m2, v2),
        spec_kind_of(v1) == spec_kind_of(v2),
    ensures
        m2.spec_get(spec_kind_of(v2)) == Some(v2),
        forall|k: MetadataKind| k != spec_kind_of(v2)
            ==> m2.spec_get(k) == m0.spec_get(k),
{
}

/// A chain of registries, each arising from the previous one by storing the
/// next value of `vs`: `ms` holds the registry before and after each
/// insertion.
pub open spec fn inserted_chain(ms: Seq<MetadataMap>, vs: Seq<MetadataValue>) -> bool {
    &&& ms.len() == vs.len() + 1
    &&& forall|i: int| 0 <= i < vs.len()
        ==> metadata_inserted(ms[i], ms[i + 1], #[trigger] vs[i])
}

/// A value inserted at step `i` of a chain of insertions of pairwise
/// distinct kinds is still filed under its kind after step `j`.
proof fn lemma_chain_survives(ms: Seq<MetadataMap>, vs: Seq<MetadataValue>, i: int, j: int)
    requires
        inserted_chain(ms, vs),
        forall|p: int, q: int| 0 <= p < q < vs.len()
            ==> spec_kind_of(vs[p]) != spec_kind_of(vs[q]),
        0 <= i < j <= vs.len(),
    ensures
        ms[j].spec_get(spec_kind_of(vs[i])) == Some(vs[i]),
    decreases j - i,
{
    if j == i + 1 {
        assert(metadata_inserted(ms[i], ms[i + 1], vs[i]));
    } else {
        lemma_chain_survives(ms, vs, i, j - 1);
        assert(metadata_inserted(ms[j - 1], ms[j], vs[j - 1]));
        assert(spec_kind_of(vs[j - 1]) != spec_kind_of(vs[i]));
    }
}

/// For every sequence of insertions of pairwise distinct kinds, querying
/// each kind afterwards yields exactly the value that was inserted for it.
pub proof fn lemma_metadata_chain_get(ms: Seq<MetadataMap>, vs: Seq<MetadataValue>)
    requires
        inserted_chain(ms, vs),
        forall|p: int, q: int| 0 <= p < q < vs.len()
            ==> spec_kind_of(vs[p]) != spec_kind_of(vs[q]),
    ensures
        forall|i: int| 0 <= i < vs.len()
            ==> ms.last().spec_get(spec_kind_of(#[trigger] vs[i])) == Some(vs[i]),
{
    assert forall|i: int| 0 <= i < vs.len()
        implies ms.last().spec_get(spec_kind_of(#[trigger] vs[i])) == Some(vs[i]) by {
        lemma_chain_survives(ms, vs, i, vs.len() as int);
    }
}

/// The identifier a store will hand out next is carried by no current
/// entry: identifiers are never reused, not even after removal.
pub proof fn lemma_next_id_is_fresh(s: CorpusStore)
    requires
        s.wf(),
    ensures
        s.spec_slot(CorpusId(s.spec_next_id())) is None,
{
    let id = CorpusId(s.spec_next_id());
    if crate::corpus::has_id(s.entries(), id) {
        let j = crate::corpus::index_of_id(s.entries(), id);
        assert(s.entries()[j].id.0 < s.spec_next_id());
    }
}

/// Setting and then clearing the corpus cursor leaves it unset; if it was
/// unset to begin with, the whole aggregate returns to exactly its prior
/// value.
pub proof fn lemma_corpus_cursor_round_trip(s: OpenApiFuzzerState, id: CorpusId)
    ensures
        with_corpus_id(with_corpus_id(s, Some(id)), None).current_corpus_id is None,
        s.current_corpus_id is None ==> with_corpus_id(with_corpus_id(s, Some(id)), None) == s,
{
}

/// Setting and then clearing the stage cursor leaves it unset; if it was
/// unset to begin with, the whole aggregate returns to exactly its prior
/// value.
pub proof fn lemma_stage_cursor_round_trip(s: OpenApiFuzzerState, idx: StageId)
    ensures
        with_stage(with_stage(s, Some(idx)), None).current_stage is None,
        s.current_stage is None ==> with_stage(with_stage(s, Some(idx)), None) == s,
{
}

/// Sequential dual accesses compose: each call can replace only the random
/// source, so any number of them in a row still leaves every other field —
/// the schema included — unchanged.
pub proof fn lemma_dual_access_composes(
    a: OpenApiFuzzerState,
    b: OpenApiFuzzerState,
    c: OpenApiFuzzerState,
)
    requires
        OpenApiFuzzerState::only_rand_differs(a, b),
        OpenApiFuzzerState::only_rand_differs(b, c),
    ensures
        OpenApiFuzzerState::only_rand_differs(a, c),
        c.api == a.api,
{
}

} // verus!
