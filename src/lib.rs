//! A growable sequence that keeps its first elements inline and moves them
//! to the heap only once its inline capacity is exceeded.

mod compare;
mod elastic;
mod model;

pub use compare::{BytesArr1024, BytesVec1024};
pub use elastic::{
    ElasticArray, ElasticArray1024, ElasticArray128, ElasticArray16, ElasticArray2,
    ElasticArray2048, ElasticArray256, ElasticArray32, ElasticArray4, ElasticArray512,
    ElasticArray64, ElasticArray8,
};
pub use model::{
    empty_state, inserted_count, lemma_backend_transparency, lemma_clear_restores_inline,
    lemma_length_accounting, lemma_migration_irreversible, lemma_rebuild_by_push, op_allowed,
    push_count, pushes_of, removing_pop_count, run, run_allowed, spliced, step, without_clear,
    ElasticState, Op,
};
