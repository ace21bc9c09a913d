//! Laws of the vector indexes: how they are named, built and asked for.

use vstd::prelude::*;
use vstd::string::*;

use crate::json::{has_member, has_members, JsonView};
use crate::strings::decimal;
use crate::vector_index::{
    asked, asked_with_status, build_job, create_text, distance_text, drop_text, index_text,
    indexable, same_dims_text, too_wide_text, RequestView, Target,
};

verus! {

/// The front of the name of an index, up to the dimension.
pub open spec fn name_front(target: Target) -> Seq<char> {
    match target {
        Target::Chunks => "chunks_embedding_hnsw_"@,
        Target::EntityProfiles => "entities_profile_embedding_hnsw_"@,
    }
}

/// The name of an index says its table, its column and its dimension.
pub proof fn law_an_index_is_named_after_its_column(target: Target, dims: nat)
    ensures
        index_text(target, dims) == name_front(target) + decimal(dims),
{
    reveal_strlit("chunks");
    reveal_strlit("embedding");
    reveal_strlit("entities");
    reveal_strlit("profile_embedding");
    reveal_strlit("_");
    reveal_strlit("_hnsw_");
    reveal_strlit("chunks_embedding_hnsw_");
    reveal_strlit("entities_profile_embedding_hnsw_");
    assert("chunks"@ + "_"@ + "embedding"@ + "_hnsw_"@ =~= "chunks_embedding_hnsw_"@);
    assert("entities"@ + "_"@ + "profile_embedding"@ + "_hnsw_"@
        =~= "entities_profile_embedding_hnsw_"@);
    assert(index_text(target, dims) =~= name_front(target) + decimal(dims));
}

/// The statements are about the index of the target: it is dropped by its name, and
/// created by its name on its table, over its column cast to the dimension, for the
/// rows of that dimension.
pub proof fn law_an_index_is_built_on_its_table(target: Target, dims: nat)
    ensures
        drop_text(target, dims) == "DROP INDEX CONCURRENTLY IF EXISTS "@ + index_text(target, dims),
        ({
            let (table, column) = match target {
                Target::Chunks => ("chunks"@, "embedding"@),
                Target::EntityProfiles => ("entities"@, "profile_embedding"@),
            };
            create_text(target, dims) == "CREATE INDEX CONCURRENTLY IF NOT EXISTS "@ + index_text(
                target,
                dims,
            ) + " ON "@ + table + " USING hnsw (("@ + (column + "::vector("@ + decimal(dims)
                + ")"@) + ") vector_cosine_ops) WHERE "@ + ("vector_dims("@ + column + ") = "@
                + decimal(dims))
        }),
{
}

/// A query casts both sides to the one dimension and names its parameter.
pub proof fn law_a_query_casts_both_sides(column: Seq<char>, param: nat, dims: nat)
    ensures
        distance_text(column, param, dims) == column + "::vector("@ + decimal(dims) + ")"@
            + " <=> "@ + ("$"@ + decimal(param) + "::vector("@ + decimal(dims) + ")"@),
        same_dims_text(column, dims) == "vector_dims("@ + column + ") = "@ + decimal(dims),
        too_wide_text(dims) == decimal(dims) + " dims: HNSW on vector holds up to "@ + decimal(
            2000,
        ),
{
}

/// Nothing is asked about a dimension of zero or of more than two thousand, nor about
/// an index that is known; of any other the status is read, by its name.
pub proof fn law_an_unknown_index_is_looked_for(
    known: Set<Seq<char>>,
    target: Target,
    dims: nat,
)
    ensures
        indexable(dims) <==> 1 <= dims && dims <= 2000,
        dims == 0 || dims > 2000 ==> asked(known, target, dims) is Nothing,
        known.contains(name_front(target) + decimal(dims)) ==> asked(known, target, dims) is Nothing,
        1 <= dims <= 2000 && !known.contains(name_front(target) + decimal(dims)) ==> asked(
            known,
            target,
            dims,
        ) == (RequestView::ReadStatus { name: name_front(target) + decimal(dims) }),
{
    law_an_index_is_named_after_its_column(target, dims);
}

/// An index that is there and valid is remembered, and nothing is queued. For one
/// that is not there, or was left unfinished, the job that builds it is queued, and
/// it is not taken for known.
pub proof fn law_an_index_is_known_once_it_is_valid(
    known: Set<Seq<char>>,
    target: Target,
    dims: nat,
    status: Option<bool>,
)
    ensures
        status == Some(true) ==> asked_with_status(known, target, dims, status) == (
            known.insert(name_front(target) + decimal(dims)),
            RequestView::Nothing,
        ),
        status is None || status == Some(false) ==> asked_with_status(
            known,
            target,
            dims,
            status,
        ).0 == known && (asked_with_status(known, target, dims, status).1 matches
            RequestView::Enqueue(job) && {
            &&& job.kind == "build_vector_index"@
            &&& has_members(job.payload, 2)
            &&& has_member(
                job.payload,
                "table"@,
                JsonView::Text(
                    match target {
                        Target::Chunks => "chunks"@,
                        Target::EntityProfiles => "entities"@,
                    },
                ),
            )
            &&& has_member(job.payload, "dims"@, JsonView::Number(decimal(dims)))
        }),
{
    law_an_index_is_named_after_its_column(target, dims);
    let m = build_job(target, dims).payload->Object_0;
    assert(m[0].0 == "table"@);
    assert(m[1].0 == "dims"@);
}

/// A payload names a target by its table, and no other name stands for one.
pub proof fn law_a_payload_names_a_target(key: Seq<char>)
    ensures
        Target::named(key) == Some(Target::Chunks) <==> key == "chunks"@,
        Target::named(key) == Some(Target::EntityProfiles) <==> key == "entities"@,
{
    reveal_strlit("chunks");
    reveal_strlit("entities");
    assert("chunks"@.len() != "entities"@.len());
}

} // verus!
