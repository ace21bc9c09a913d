//! Vector indexes, one for each column and dimension, built by a job.
//!
//! The column has no dimension of its own: it follows the embedding model of a
//! workspace. So the first write of a dimension asks for an index, a job builds
//! it outside any transaction, and a query writes the dimension as a literal and
//! casts both sides, so that its expression is the indexed one to the letter.

use vstd::prelude::*;
use vstd::string::*;

use crate::error::AppError;
use crate::jobs::{Job, JobView};
use crate::json::{member, object, text, Json, JsonView, Member};
use crate::strings::{
    decimal, holds, is_among, lemma_decimal_injective, occurs_at, same, write_decimal,
};

verus! {

/// The kind of the job that builds an index.
pub const JOB_KIND: &'static str = "build_vector_index";

/// The most dimensions that an HNSW index on `vector` holds. A wider vector has
/// no index, and its queries stay exact.
pub const MAX_DIMS: usize = 2000;

/// Run before a build: a parallel build needs more shared memory than a
/// container has by default.
pub const SERIAL_BUILD: &'static str = "SET max_parallel_maintenance_workers = 0";

/// Run after a build, however it went: the setting goes back to the pool with
/// the connection.
pub const SERIAL_BUILD_RESET: &'static str = "RESET max_parallel_maintenance_workers";

/// The setting that lets a filtered search walk on until its limit is met.
pub const RELAXED_ORDER: &'static str = "SET LOCAL hnsw.iterative_scan = relaxed_order";

/// Which column.
#[derive(Debug, Clone, Copy, PartialEq, Eq, Hash)]
pub enum Target {
    /// `chunks.embedding`: the passages of documents.
    Chunks,
    /// `entities.profile_embedding`: the profiles of entities.
    EntityProfiles,
}

impl Target {
    pub open spec fn table_name(self) -> Seq<char> {
        match self {
            Target::Chunks => "chunks"@,
            Target::EntityProfiles => "entities"@,
        }
    }

    pub open spec fn column_name(self) -> Seq<char> {
        match self {
            Target::Chunks => "embedding"@,
            Target::EntityProfiles => "profile_embedding"@,
        }
    }

    pub fn table(self) -> (r: &'static str)
        ensures
            r@ == self.table_name(),
    {
        match self {
            Target::Chunks => "chunks",
            Target::EntityProfiles => "entities",
        }
    }

    pub fn column(self) -> (r: &'static str)
        ensures
            r@ == self.column_name(),
    {
        match self {
            Target::Chunks => "embedding",
            Target::EntityProfiles => "profile_embedding",
        }
    }

    /// The name in the payload of a job.
    pub fn key(self) -> (r: &'static str)
        ensures
            r@ == self.table_name(),
    {
        self.table()
    }

    /// The target that a name in a payload stands for.
    pub open spec fn named(key: Seq<char>) -> Option<Target> {
        if key == "chunks"@ {
            Some(Target::Chunks)
        } else if key == "entities"@ {
            Some(Target::EntityProfiles)
        } else {
            None
        }
    }

    pub fn parse(key: &str) -> (r: Option<Target>)
        ensures
            r == Target::named(key@),
    {
        if same(key, "chunks") {
            Some(Target::Chunks)
        } else if same(key, "entities") {
            Some(Target::EntityProfiles)
        } else {
            None
        }
    }
}

// ---- The texts ----

/// Such as `chunks_embedding_hnsw_1024`.
pub open spec fn index_text(target: Target, dims: nat) -> Seq<char> {
    target.table_name() + "_"@ + target.column_name() + "_hnsw_"@ + decimal(dims)
}

/// The predicate of the partial index.
pub open spec fn same_dims_text(column: Seq<char>, dims: nat) -> Seq<char> {
    "vector_dims("@ + column + ") = "@ + decimal(dims)
}

/// A vector cast to a literal dimension.
pub open spec fn cast_text(what: Seq<char>, dims: nat) -> Seq<char> {
    what + "::vector("@ + decimal(dims) + ")"@
}

/// The distance of a column from a query parameter.
pub open spec fn distance_text(column: Seq<char>, param: nat, dims: nat) -> Seq<char> {
    cast_text(column, dims) + " <=> "@ + cast_text("$"@ + decimal(param), dims)
}

pub open spec fn drop_text(target: Target, dims: nat) -> Seq<char> {
    "DROP INDEX CONCURRENTLY IF EXISTS "@ + index_text(target, dims)
}

pub open spec fn create_text(target: Target, dims: nat) -> Seq<char> {
    "CREATE INDEX CONCURRENTLY IF NOT EXISTS "@ + index_text(target, dims) + " ON "@
        + target.table_name() + " USING hnsw (("@ + cast_text(target.column_name(), dims)
        + ") vector_cosine_ops) WHERE "@ + same_dims_text(target.column_name(), dims)
}

pub fn index_name(target: Target, dims: usize) -> (r: String)
    ensures
        r@ == index_text(target, dims as nat),
{
    let mut out: String = target.table().to_owned();
    out.append("_");
    out.append(target.column());
    out.append("_hnsw_");
    out.append(write_decimal(dims as u64).as_str());
    out
}

/// The predicate of the partial index; it has to stand in a query to the letter.
pub fn same_dims(column: &str, dims: usize) -> (r: String)
    ensures
        r@ == same_dims_text(column@, dims as nat),
{
    let mut out: String = "vector_dims(".to_owned();
    out.append(column);
    out.append(") = ");
    out.append(write_decimal(dims as u64).as_str());
    out
}

fn cast(what: &str, dims: usize) -> (r: String)
    ensures
        r@ == cast_text(what@, dims as nat),
{
    let mut out: String = what.to_owned();
    out.append("::vector(");
    out.append(write_decimal(dims as u64).as_str());
    out.append(")");
    out
}

/// The distance with both sides cast to the literal dimension; `param` is the
/// number of the parameter that holds the query vector.
pub fn distance(column: &str, param: usize, dims: usize) -> (r: String)
    ensures
        r@ == distance_text(column@, param as nat, dims as nat),
{
    let mut placeholder: String = "$".to_owned();
    placeholder.append(write_decimal(param as u64).as_str());
    let mut out: String = cast(column, dims);
    out.append(" <=> ");
    out.append(cast(placeholder.as_str(), dims).as_str());
    out
}

fn drop_statement(target: Target, dims: usize) -> (r: String)
    ensures
        r@ == drop_text(target, dims as nat),
{
    let mut out: String = "DROP INDEX CONCURRENTLY IF EXISTS ".to_owned();
    out.append(index_name(target, dims).as_str());
    out
}

fn create_statement(target: Target, dims: usize) -> (r: String)
    ensures
        r@ == create_text(target, dims as nat),
{
    let mut out: String = "CREATE INDEX CONCURRENTLY IF NOT EXISTS ".to_owned();
    out.append(index_name(target, dims).as_str());
    out.append(" ON ");
    out.append(target.table());
    out.append(" USING hnsw ((");
    out.append(cast(target.column(), dims).as_str());
    out.append(") vector_cosine_ops) WHERE ");
    out.append(same_dims(target.column(), dims).as_str());
    out
}

// ---- Which indexes are known to be there ----

/// The indexes that the process has seen: after that a write costs one lookup.
pub struct KnownIndexes {
    names: Vec<String>,
}

impl View for KnownIndexes {
    type V = Set<Seq<char>>;

    closed spec fn view(&self) -> Set<Seq<char>> {
        self.names.deep_view().to_set()
    }
}

impl KnownIndexes {
    pub fn new() -> (r: KnownIndexes)
        ensures
            r@ == Set::<Seq<char>>::empty(),
    {
        let r = KnownIndexes { names: Vec::new() };
        assert(r@ =~= Set::<Seq<char>>::empty());
        r
    }

    pub fn is_known(&self, name: &str) -> (r: bool)
        ensures
            r == self@.contains(name@),
    {
        is_among(&self.names, name)
    }

    pub fn remember(&mut self, name: &str)
        ensures
            final(self)@ == old(self)@.insert(name@),
    {
        let ghost was = self.names.deep_view();
        if !is_among(&self.names, name) {
            self.names.push(name.to_owned());
            let ghost now = self.names.deep_view();
            proof {
                assert(now =~= was.push(name@));
                assert(now.to_set() =~= was.to_set().insert(name@)) by {
                    assert forall|s: Seq<char>|
                        now.contains(s) <==> was.contains(s) || s == name@ by {
                        if was.contains(s) {
                            let k = was.index_of(s);
                            assert(now[k] == s);
                        }
                        if now.contains(s) {
                            let k = now.index_of(s);
                            if k < was.len() {
                                assert(was[k] == s);
                            }
                        }
                        assert(now[was.len() as int] == name@);
                    }
                }
            }
        } else {
            assert(was.to_set() =~= was.to_set().insert(name@));
        }
    }

    pub fn forget(&mut self, name: &str)
        ensures
            final(self)@ == old(self)@.remove(name@),
    {
        let ghost was = self.names.deep_view();
        let n: usize = self.names.len();
        let mut kept: Vec<String> = Vec::new();
        for i in 0..n
            invariant
                n == self.names@.len(),
                was == self.names.deep_view(),
                forall|s: Seq<char>| #[trigger]
                    kept.deep_view().contains(s) <==> was.take(i as int).contains(s) && s
                        != name@,
        {
            let ghost before = kept.deep_view();
            let ghost sofar = was.take(i as int);
            let ghost next = was.take(i + 1);
            let ghost x = was[i as int];
            if !same(self.names[i].as_str(), name) {
                kept.push(self.names[i].clone());
                assert(kept.deep_view() =~= before.push(x));
            }
            proof {
                let now = kept.deep_view();
                assert(next =~= sofar.push(x));
                assert forall|s: Seq<char>| #[trigger]
                    now.contains(s) <==> next.contains(s) && s != name@ by {
                    lemma_push_contains(sofar, x, s);
                    lemma_push_contains(before, x, s);
                }
            }
        }
        assert(was.take(n as int) =~= was);
        self.names = kept;
        assert(self@ =~= old(self)@.remove(name@));
    }
}

proof fn lemma_push_contains<A>(s: Seq<A>, x: A, a: A)
    ensures
        s.push(x).contains(a) <==> s.contains(a) || a == x,
{
    if s.contains(a) {
        let k = s.index_of(a);
        assert(s.push(x)[k] == a);
    }
    if s.push(x).contains(a) {
        let k = s.push(x).index_of(a);
        if k < s.len() {
            assert(s[k] == a);
        }
    }
    assert(s.push(x)[s.len() as int] == x);
}

// ---- Asking for an index ----

/// The dimension can have an index.
pub open spec fn indexable(dims: nat) -> bool {
    0 < dims <= MAX_DIMS
}

/// What a write of a vector does next about the index of its dimension.
pub enum RequestStep {
    /// Nothing is queued.
    Nothing,
    /// Look up whether the index of this name is there and valid.
    ReadStatus { name: String },
    /// Queue the job that builds it.
    Enqueue(Job),
}

pub open spec fn build_job(target: Target, dims: nat) -> JobView {
    JobView {
        kind: JOB_KIND@,
        payload: JsonView::Object(
            seq![
                ("table"@, JsonView::Text(target.table_name())),
                ("dims"@, JsonView::Number(decimal(dims))),
            ],
        ),
    }
}

/// What a [`RequestStep`] holds.
pub enum RequestView {
    Nothing,
    ReadStatus { name: Seq<char> },
    Enqueue(JobView),
}

impl DeepView for RequestStep {
    type V = RequestView;

    open spec fn deep_view(&self) -> RequestView {
        match *self {
            RequestStep::Nothing => RequestView::Nothing,
            RequestStep::ReadStatus { name } => RequestView::ReadStatus { name: name@ },
            RequestStep::Enqueue(job) => RequestView::Enqueue(job.deep_view()),
        }
    }
}

/// A dimension that no index can hold and an index that is known ask for nothing.
pub open spec fn asked(known: Set<Seq<char>>, target: Target, dims: nat) -> RequestView {
    if indexable(dims) && !known.contains(index_text(target, dims)) {
        RequestView::ReadStatus { name: index_text(target, dims) }
    } else {
        RequestView::Nothing
    }
}

/// A valid index is remembered; for any other a job is queued.
pub open spec fn asked_with_status(
    known: Set<Seq<char>>,
    target: Target,
    dims: nat,
    status: Option<bool>,
) -> (Set<Seq<char>>, RequestView) {
    if status == Some(true) {
        (known.insert(index_text(target, dims)), RequestView::Nothing)
    } else {
        (known, RequestView::Enqueue(build_job(target, dims)))
    }
}

/// A vector of this dimension is written.
pub fn request(known: &KnownIndexes, target: Target, dims: usize) -> (r: RequestStep)
    ensures
        r.deep_view() == asked(known@, target, dims as nat),
{
    if dims == 0 || dims > MAX_DIMS {
        return RequestStep::Nothing;
    }
    let name: String = index_name(target, dims);
    if known.is_known(name.as_str()) {
        return RequestStep::Nothing;
    }
    RequestStep::ReadStatus { name }
}

/// The status of the index was read: `None` where there is none, `Some(false)`
/// where an unfinished build left one behind.
pub fn request_after_status(
    known: &mut KnownIndexes,
    target: Target,
    dims: usize,
    status: Option<bool>,
) -> (r: RequestStep)
    ensures
        (final(known)@, r.deep_view()) == asked_with_status(
            old(known)@,
            target,
            dims as nat,
            status,
        ),
{
    if let Some(true) = status {
        known.remember(index_name(target, dims).as_str());
        return RequestStep::Nothing;
    }
    let members: Vec<Member> = vec![
        member("table", text(target.key())),
        member("dims", Json::Number(write_decimal(dims as u64))),
    ];
    assert(members.deep_view() =~= build_job(target, dims as nat).payload->Object_0);
    RequestStep::Enqueue(Job { kind: JOB_KIND, payload: object(members) })
}

// ---- Building ----

/// An index that a job builds.
pub struct Build {
    pub target: Target,
    pub dims: usize,
    pub name: String,
}

/// The statements that are left once the status of the index is known, in
/// order, and whether they make an index that was not there.
pub struct BuildPlan {
    pub statements: Vec<String>,
    pub created: bool,
}

pub open spec fn too_wide_text(dims: nat) -> Seq<char> {
    decimal(dims) + " dims: HNSW on vector holds up to "@ + decimal(MAX_DIMS as nat)
}

/// Begins a build; a dimension that no index can hold is refused, and no retry
/// mends that.
pub fn build(target: Target, dims: usize) -> (r: Result<Build, AppError>)
    ensures
        indexable(dims as nat) ==> (r matches Ok(b) && b.target == target && b.dims == dims
            && b.name@ == index_text(target, dims as nat)),
        !indexable(dims as nat) ==> (r matches Err(AppError::Validation(m)) && m@
            == too_wide_text(dims as nat)),
{
    if dims == 0 || dims > MAX_DIMS {
        let mut out: String = write_decimal(dims as u64);
        out.append(" dims: HNSW on vector holds up to ");
        out.append(write_decimal(MAX_DIMS as u64).as_str());
        return Err(AppError::Validation(out));
    }
    Ok(Build { target, dims, name: index_name(target, dims) })
}

impl Build {
    /// The status before the build decides what is left to do: an index that an
    /// unfinished build left behind is dropped first, because a statement that
    /// asks whether it exists would take it for finished.
    pub fn plan(&self, before: Option<bool>) -> (r: BuildPlan)
        ensures
            r.created == (before != Some(true)),
            r.statements.deep_view() == if before == Some(false) {
                seq![
                    drop_text(self.target, self.dims as nat),
                    create_text(self.target, self.dims as nat),
                ]
            } else {
                seq![create_text(self.target, self.dims as nat)]
            },
    {
        let mut statements: Vec<String> = Vec::new();
        let mut existed: bool = false;
        if let Some(valid) = before {
            if valid {
                existed = true;
            } else {
                statements.push(drop_statement(self.target, self.dims));
            }
        }
        statements.push(create_statement(self.target, self.dims));
        assert(before == Some(false) ==> statements.deep_view() =~= seq![
            drop_text(self.target, self.dims as nat),
            create_text(self.target, self.dims as nat),
        ]);
        assert(before != Some(false) ==> statements.deep_view() =~= seq![
            create_text(self.target, self.dims as nat),
        ]);
        BuildPlan { statements, created: !existed }
    }

    /// The statements were run: the index is there.
    pub fn finished(&self, known: &mut KnownIndexes)
        ensures
            final(known)@ == old(known)@.insert(self.name@),
    {
        known.remember(self.name.as_str());
    }
}

/// Forgets an index and says how to drop it.
pub fn drop_index(known: &mut KnownIndexes, target: Target, dims: usize) -> (r: String)
    ensures
        final(known)@ == old(known)@.remove(index_text(target, dims as nat)),
        r@ == drop_text(target, dims as nat),
{
    known.forget(index_name(target, dims).as_str());
    drop_statement(target, dims)
}

/// The setting to make in a transaction that searches, where the server has it.
pub fn relaxed_order(available: bool) -> (r: Option<&'static str>)
    ensures
        available ==> (r matches Some(s) && s@ == RELAXED_ORDER@),
        !available ==> r is None,
{
    if available {
        Some(RELAXED_ORDER)
    } else {
        None
    }
}

// ---- Laws ----

/// A target survives the way through a payload.
pub proof fn law_target_round_trips(t: Target)
    ensures
        Target::named(t.table_name()) == Some(t),
{
    reveal_strlit("chunks");
    reveal_strlit("entities");
    assert("chunks"@[0] != "entities"@[0]);
}

/// Each target and dimension has an index name of its own.
pub proof fn law_index_names_are_distinct(a: Target, m: nat, b: Target, n: nat)
    ensures
        index_text(a, m) == index_text(b, n) <==> a == b && m == n,
{
    reveal_strlit("chunks");
    reveal_strlit("entities");
    let x = index_text(a, m);
    let y = index_text(b, n);
    if x == y {
        assert(x[0] == a.table_name()[0]);
        assert(y[0] == b.table_name()[0]);
        assert(a == b);
        let head = a.table_name() + "_"@ + a.column_name() + "_hnsw_"@;
        assert(x.skip(head.len() as int) =~= decimal(m));
        assert(y.skip(head.len() as int) =~= decimal(n));
        lemma_decimal_injective(m, n);
    }
}

/// What a whole request does to the known indexes and to the queue, in which no
/// job waits twice, and whether it queued a job.
pub struct Requested {
    pub known: Set<Seq<char>>,
    pub queue: Set<JobView>,
    pub queued: bool,
}

/// A request, where the status of the index is `status` and a job is queued unless
/// the same one waits already.
pub open spec fn requested(
    known: Set<Seq<char>>,
    queue: Set<JobView>,
    target: Target,
    dims: nat,
    status: Option<bool>,
) -> Requested {
    match asked(known, target, dims) {
        RequestView::ReadStatus { name } => {
            let (seen, step) = asked_with_status(known, target, dims, status);
            match step {
                RequestView::Enqueue(job) => Requested {
                    known: seen,
                    queue: queue.insert(job),
                    queued: !queue.contains(job),
                },
                _ => Requested { known: seen, queue, queued: false },
            }
        },
        _ => Requested { known, queue, queued: false },
    }
}

/// At most one job waits for an index: a request queues nothing and leaves the
/// queue as it is where its job waits already, as it does right after a request
/// that queued it; where the index is known, as it is after its build; and where no
/// index can hold the dimension.
pub proof fn law_one_build_is_queued(
    known: Set<Seq<char>>,
    queue: Set<JobView>,
    target: Target,
    dims: nat,
    status: Option<bool>,
    later: Option<bool>,
)
    ensures
        ({
            let first = requested(known, queue, target, dims, status);
            let second = requested(first.known, first.queue, target, dims, later);
            first.queued ==> first.queue.contains(build_job(target, dims)) && !second.queued
                && second.queue == first.queue
        }),
        queue.contains(build_job(target, dims)) || known.contains(index_text(target, dims))
            || !indexable(dims) ==> !requested(known, queue, target, dims, status).queued
            && requested(known, queue, target, dims, status).queue == queue,
        ({
            let built = known.insert(index_text(target, dims));
            !requested(built, queue, target, dims, later).queued && requested(
                built,
                queue,
                target,
                dims,
                later,
            ).queue == queue
        }),
{
    if queue.contains(build_job(target, dims)) {
        assert(queue.insert(build_job(target, dims)) =~= queue);
    }
    let first = requested(known, queue, target, dims, status);
    if first.queued {
        assert(first.queue.insert(build_job(target, dims)) =~= first.queue);
    }
}

/// A job is queued for every dimension that can have an index, is not known, has
/// no valid index and no job waiting.
pub proof fn law_a_missing_index_is_asked_for(
    known: Set<Seq<char>>,
    queue: Set<JobView>,
    target: Target,
    dims: nat,
    status: Option<bool>,
)
    ensures
        requested(known, queue, target, dims, status).queued <==> indexable(dims)
            && !known.contains(index_text(target, dims)) && status != Some(true)
            && !queue.contains(build_job(target, dims)),
{
}

/// Each target and dimension has a job of its own.
pub proof fn law_build_jobs_are_distinct(a: Target, m: nat, b: Target, n: nat)
    ensures
        build_job(a, m) == build_job(b, n) <==> a == b && m == n,
{
    reveal_strlit("chunks");
    reveal_strlit("entities");
    let x = build_job(a, m).payload->Object_0;
    let y = build_job(b, n).payload->Object_0;
    if build_job(a, m) == build_job(b, n) {
        assert(x[0].1 == JsonView::Text(a.table_name()));
        assert(y[0].1 == JsonView::Text(b.table_name()));
        assert(a.table_name()[0] == b.table_name()[0]);
        assert(x[1].1 == JsonView::Number(decimal(m)));
        assert(y[1].1 == JsonView::Number(decimal(n)));
        lemma_decimal_injective(m, n);
    }
}

/// The predicate that a query writes for the bare column ends the statement that
/// builds its index, to the letter.
pub proof fn law_index_has_the_predicate_of_the_query(target: Target, dims: nat)
    ensures
        same_dims_text(target.column_name(), dims).is_suffix_of(create_text(target, dims)),
{
    let pred = same_dims_text(target.column_name(), dims);
    let all = create_text(target, dims);
    assert(all.skip(all.len() - pred.len()) =~= pred);
}

/// The expression that a query orders by begins with the one that is indexed,
/// and the statement that builds the index holds it to the letter.
pub proof fn law_query_orders_by_the_indexed_expression(target: Target, param: nat, dims: nat)
    ensures
        cast_text(target.column_name(), dims).is_prefix_of(
            distance_text(target.column_name(), param, dims),
        ),
        holds(create_text(target, dims), cast_text(target.column_name(), dims)),
{
    let e = cast_text(target.column_name(), dims);
    let d = distance_text(target.column_name(), param, dims);
    assert(d.take(e.len() as int) =~= e);
    let before = "CREATE INDEX CONCURRENTLY IF NOT EXISTS "@ + index_text(target, dims) + " ON "@
        + target.table_name() + " USING hnsw (("@;
    let all = create_text(target, dims);
    assert(all.subrange(before.len() as int, (before.len() + e.len()) as int) =~= e);
    assert(occurs_at(all, e, before.len() as int));
}

/// Once an index was seen to be valid, a write of that dimension asks for nothing
/// until the index is forgotten; a write of another one is not affected.
pub proof fn law_a_seen_index_is_not_asked_for_again(
    known: Set<Seq<char>>,
    target: Target,
    dims: nat,
    other: Target,
    width: nat,
)
    ensures
        asked(asked_with_status(known, target, dims, Some(true)).0, target, dims) is Nothing,
        indexable(dims) ==> asked(
            known.remove(index_text(target, dims)),
            target,
            dims,
        ) is ReadStatus,
        (other, width) != (target, dims) ==> asked(
            known.insert(index_text(target, dims)),
            other,
            width,
        ) == asked(known, other, width) && asked(
            known.remove(index_text(target, dims)),
            other,
            width,
        ) == asked(known, other, width),
{
    law_index_names_are_distinct(target, dims, other, width);
}

} // verus!
