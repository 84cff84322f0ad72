//! Request parameters and response shapes of the substrate REST API.

use vstd::prelude::*;
use vstd::string::StrSliceExecFns;

use crate::error::Error;
use crate::ident::{id_text, id_to_text};
use crate::text::{decimal, decimal_text};

verus! {

/// Page size used when a listing request names no `limit`.
pub const DEFAULT_LIMIT: usize = 100;

/// Smallest page size a listing request is served with.
pub const MIN_LIMIT: usize = 1;

/// Largest page size a listing request is served with.
pub const MAX_LIMIT: usize = 1000;

/// The `limit` a listing request gets when it names none.
pub fn default_limit() -> (limit: usize)
    ensures
        limit == DEFAULT_LIMIT,
{
    DEFAULT_LIMIT
}

/// The page size a listing is served with: the requested one, brought
/// into the documented bounds `MIN_LIMIT..=MAX_LIMIT`.
pub fn capped_limit(requested: usize) -> (limit: usize)
    ensures
        limit == if requested < MIN_LIMIT {
            MIN_LIMIT
        } else if requested <= MAX_LIMIT {
            requested
        } else {
            MAX_LIMIT
        },
        1 <= limit <= 1000,
        1 <= requested <= 1000 ==> limit == requested,
{
    if requested < MIN_LIMIT {
        MIN_LIMIT
    } else if requested <= MAX_LIMIT {
        requested
    } else {
        MAX_LIMIT
    }
}

/// How many characters of an experience's content a listing shows.
pub const PREVIEW_CHARS: usize = 200;

/// The first `PREVIEW_CHARS` characters of a text (all of it when shorter).
pub open spec fn preview_of(content: Seq<char>) -> Seq<char> {
    if content.len() <= PREVIEW_CHARS {
        content
    } else {
        content.take(PREVIEW_CHARS as int)
    }
}

/// The preview of an experience's content shown in listings: its first
/// 200 characters.
pub fn content_preview(content: &str) -> (preview: String)
    ensures
        preview@ == preview_of(content@),
{
    let n = content.unicode_len();
    let end = if n <= PREVIEW_CHARS {
        n
    } else {
        PREVIEW_CHARS
    };
    let preview = String::from_str(content.substring_char(0, end));
    assert(content@.subrange(0, n as int) =~= content@);
    preview
}

/// One collective in the collectives listing.
pub struct CollectiveResponse {
    pub id: String,
    pub name: String,
}

/// The collectives listing.
pub struct CollectivesListResponse {
    pub collectives: Vec<CollectiveResponse>,
}

/// How many experiences of one type a collective holds.
pub struct TypeCount {
    pub experience_type: String,
    pub count: usize,
}

/// Summary counts of a collective.
pub struct StatsResponse {
    pub experience_count: usize,
    pub relation_count: usize,
    pub insight_count: usize,
    pub embedding_dimension: usize,
    pub type_distribution: Vec<TypeCount>,
}

/// The texts of a sequence of strings.
pub open spec fn texts(v: Seq<String>) -> Seq<Seq<char>> {
    Seq::new(v.len(), |i: int| v[i]@)
}

/// How often `name` occurs in `names`.
pub open spec fn occurrences(names: Seq<Seq<char>>, name: Seq<char>) -> nat
    decreases names.len(),
{
    if names.len() == 0 {
        0
    } else {
        occurrences(names.drop_last(), name) + if names.last() == name {
            1nat
        } else {
            0nat
        }
    }
}

/// `dist` counts `names`: one entry per distinct name, each with how often
/// that name occurs.
pub open spec fn is_distribution_of(dist: Seq<TypeCount>, names: Seq<Seq<char>>) -> bool {
    &&& forall|i: int, j: int|
        0 <= i < j < dist.len() ==> (#[trigger] dist[i]).experience_type@ != (#[trigger] dist[j]).experience_type@
    &&& forall|i: int|
        0 <= i < dist.len() ==> (#[trigger] dist[i]).count == occurrences(names, dist[i].experience_type@)
            && dist[i].count > 0
    &&& forall|k: int| 0 <= k < names.len() ==> #[trigger] is_listed(dist, names[k])
    &&& forall|i: int, j: int|
        0 <= i < j < dist.len() ==> first_seen_before(
            names,
            (#[trigger] dist[i]).experience_type@,
            (#[trigger] dist[j]).experience_type@,
        )
}

/// `a` occurs in `names` before any occurrence of `b`.
pub open spec fn first_seen_before(names: Seq<Seq<char>>, a: Seq<char>, b: Seq<char>) -> bool {
    exists|p: int| 0 <= p < names.len() && names[p] == a && forall|q: int| 0 <= q <= p ==> names[q] != b
}

/// `dist` has an entry for `name`.
pub open spec fn is_listed(dist: Seq<TypeCount>, name: Seq<char>) -> bool {
    exists|i: int| 0 <= i < dist.len() && (#[trigger] dist[i]).experience_type@ == name
}

proof fn lemma_occurrences_step(names: Seq<Seq<char>>, k: int, name: Seq<char>)
    requires
        0 <= k < names.len(),
    ensures
        occurrences(names.take(k + 1), name) == occurrences(names.take(k), name) + if names[k] == name {
            1nat
        } else {
            0nat
        },
{
    assert(names.take(k + 1).drop_last() =~= names.take(k));
}

/// The type distribution of a collective's experiences, given the type of
/// each: one entry per type, in order of first appearance, with its count.
pub fn type_distribution(types: &Vec<String>) -> (dist: Vec<TypeCount>)
    ensures
        is_distribution_of(dist@, texts(types@)),
{
    let ghost all = texts(types@);
    let mut names: Vec<String> = Vec::new();
    let mut counts: Vec<usize> = Vec::new();
    let mut k: usize = 0;
    while k < types.len()
        invariant
            all == texts(types@),
            k <= types@.len(),
            names@.len() == counts@.len(),
            forall|i: int, j: int| 0 <= i < j < names@.len() ==> (#[trigger] names@[i])@ != (#[trigger] names@[j])@,
            forall|i: int|
                0 <= i < names@.len() ==> (#[trigger] counts@[i]) == occurrences(all.take(k as int), names@[i]@)
                    && counts@[i] > 0 && counts@[i] <= k,
            forall|m: int|
                0 <= m < k ==> exists|i: int| 0 <= i < names@.len() && (#[trigger] names@[i])@ == #[trigger] all[m],
            forall|i: int, j: int|
                0 <= i < j < names@.len() ==> first_seen_before(all, (#[trigger] names@[i])@, (#[trigger] names@[j])@),
        decreases types@.len() - k,
    {
        let ghost before_names = names@;
        let ghost before_counts = counts@;
        let mut found: usize = names.len();
        let mut i: usize = 0;
        while i < names.len()
            invariant
                names@ == before_names,
                k < types@.len(),
                i <= names@.len(),
                found == names@.len() || (found < i && names@[found as int]@ == types@[k as int]@),
                found == names@.len() ==> forall|j: int| 0 <= j < i ==> (#[trigger] names@[j])@ != types@[k as int]@,
            decreases names@.len() - i,
        {
            if found == names.len() && names[i] == types[k] {
                found = i;
            }
            i = i + 1;
        }
        proof {
            assert forall|x: Seq<char>| true implies occurrences(all.take(k + 1), x) == occurrences(all.take(k as int), x)
                + if all[k as int] == x {
                1nat
            } else {
                0nat
            } by {
                lemma_occurrences_step(all, k as int, x);
            }
            assert(all[k as int] == types@[k as int]@);
        }
        if found < names.len() {
            let c = counts[found];
            counts.set(found, c + 1);
        } else {
            names.push(types[k].clone());
            counts.push(1);
            proof {
                assert(occurrences(all.take(k as int), types@[k as int]@) == 0) by {
                    if occurrences(all.take(k as int), types@[k as int]@) > 0 {
                        lemma_occurrence_found(all.take(k as int), types@[k as int]@);
                        let m = choose|m: int| 0 <= m < k && all.take(k as int)[m] == types@[k as int]@;
                        assert(all[m] == types@[k as int]@);
                    }
                }
                lemma_occurrence_absent(all.take(k as int), types@[k as int]@);
                let last = before_names.len() as int;
                assert forall|i: int, j: int| 0 <= i < j < names@.len() implies first_seen_before(
                    all,
                    (#[trigger] names@[i])@,
                    (#[trigger] names@[j])@,
                ) by {
                    if j < last {
                        assert(names@[i] == before_names[i]);
                        assert(names@[j] == before_names[j]);
                    } else {
                        assert(names@[i] == before_names[i]);
                        assert(counts@[i] == before_counts[i]);
                        lemma_occurrence_found(all.take(k as int), before_names[i]@);
                        let p = choose|p: int| 0 <= p < k && all.take(k as int)[p] == before_names[i]@;
                        assert(all[p] == names@[i]@);
                        assert forall|q: int| 0 <= q <= p implies all[q] != names@[j]@ by {
                            assert(all.take(k as int)[q] != types@[k as int]@);
                        }
                    }
                }
            }
        }
        k = k + 1;
        proof {
            assert forall|m: int| 0 <= m < k implies exists|i: int|
                0 <= i < names@.len() && (#[trigger] names@[i])@ == #[trigger] all[m] by {
                if m < k - 1 {
                    let i = choose|i: int| 0 <= i < before_names.len() && (#[trigger] before_names[i])@ == all[m];
                    assert(names@[i] == before_names[i]);
                } else if found < before_names.len() {
                    assert(names@[found as int]@ == all[m]);
                } else {
                    assert(names@[before_names.len() as int]@ == all[m]);
                }
            }
        }
    }
    assert(all.take(types@.len() as int) =~= all);
    assert(k == types@.len());
    assert forall|m: int| 0 <= m < all.len() implies exists|a: int|
        0 <= a < names@.len() && (#[trigger] names@[a])@ === #[trigger] all[m] by {
        assert(0 <= m < k);
        let a = choose|a: int| 0 <= a < names@.len() && (#[trigger] names@[a])@ =~= all[m];
        assert(names@[a]@ =~= all[m]);
        assert(names@[a]@ === all[m]);
    }
    let mut dist: Vec<TypeCount> = Vec::new();
    let mut i: usize = 0;
    #[verifier::loop_isolation(false)]
    while i < names.len()
        invariant
            all == texts(types@),
            all.take(types@.len() as int) == all,
            names@.len() == counts@.len(),
            i <= names@.len(),
            dist@.len() == i,
            forall|a: int, b: int| 0 <= a < b < names@.len() ==> (#[trigger] names@[a])@ != (#[trigger] names@[b])@,
            forall|a: int|
                0 <= a < names@.len() ==> (#[trigger] counts@[a]) == occurrences(all, names@[a]@) && counts@[a] > 0,
            forall|a: int|
                0 <= a < i ==> (#[trigger] dist@[a]).experience_type@ == names@[a]@ && dist@[a].count == counts@[a],
            forall|a: int, b: int|
                0 <= a < b < names@.len() ==> first_seen_before(all, (#[trigger] names@[a])@, (#[trigger] names@[b])@),
        decreases names@.len() - i,
    {
        dist.push(TypeCount { experience_type: names[i].clone(), count: counts[i] });
        i = i + 1;
    }
    proof {
        assert forall|k: int| 0 <= k < all.len() implies #[trigger] is_listed(dist@, all[k]) by {
            let a = choose|a: int| 0 <= a < names@.len() && (#[trigger] names@[a])@ === all[k];
            assert(dist@[a].experience_type@ == all[k]);
        }
        assert forall|a: int, b: int| 0 <= a < b < dist@.len() implies (#[trigger] dist@[a]).experience_type@
            != (#[trigger] dist@[b]).experience_type@ by {
            assert(names@[a]@ != names@[b]@);
        }
        assert forall|a: int| 0 <= a < dist@.len() implies (#[trigger] dist@[a]).count == occurrences(
            all,
            dist@[a].experience_type@,
        ) && dist@[a].count > 0 by {
            assert(counts@[a] == occurrences(all, names@[a]@));
        }
        assert forall|a: int, b: int| 0 <= a < b < dist@.len() implies first_seen_before(
            all,
            (#[trigger] dist@[a]).experience_type@,
            (#[trigger] dist@[b]).experience_type@,
        ) by {
            assert(first_seen_before(all, names@[a]@, names@[b]@));
        }
        assert(is_distribution_of(dist@, all));
    }
    dist
}

proof fn lemma_occurrence_absent(names: Seq<Seq<char>>, name: Seq<char>)
    requires
        occurrences(names, name) == 0,
    ensures
        forall|m: int| 0 <= m < names.len() ==> names[m] != name,
    decreases names.len(),
{
    if names.len() > 0 {
        lemma_occurrence_absent(names.drop_last(), name);
        assert forall|m: int| 0 <= m < names.len() implies names[m] != name by {
            if m < names.len() - 1 {
                assert(names.drop_last()[m] == names[m]);
            }
        }
    }
}

proof fn lemma_occurrence_found(names: Seq<Seq<char>>, name: Seq<char>)
    requires
        occurrences(names, name) > 0,
    ensures
        exists|m: int| 0 <= m < names.len() && names[m] == name,
    decreases names.len(),
{
    if names.last() == name {
        assert(names[names.len() - 1] == name);
    } else {
        lemma_occurrence_found(names.drop_last(), name);
        let m = choose|m: int| 0 <= m < names.drop_last().len() && names.drop_last()[m] == name;
        assert(names[m] == name);
    }
}

/// The collectives listing for collectives given as (identifier, name)
/// pairs, in the order given: each identifier in its hyphenated text form.
pub fn collectives_response(collectives: &Vec<(u128, String)>) -> (response: CollectivesListResponse)
    ensures
        response.collectives@.len() == collectives@.len(),
        forall|i: int|
            0 <= i < collectives@.len() ==> {
                &&& (#[trigger] response.collectives@[i]).id@ == id_text(collectives@[i].0)
                &&& response.collectives@[i].name@ == collectives@[i].1@
            },
{
    let mut entries: Vec<CollectiveResponse> = Vec::new();
    let mut i: usize = 0;
    while i < collectives.len()
        invariant
            i <= collectives@.len(),
            entries@.len() == i,
            forall|j: int|
                0 <= j < i ==> {
                    &&& (#[trigger] entries@[j]).id@ == id_text(collectives@[j].0)
                    &&& entries@[j].name@ == collectives@[j].1@
                },
        decreases collectives@.len() - i,
    {
        let id = id_to_text(collectives[i].0);
        let name = collectives[i].1.clone();
        entries.push(CollectiveResponse { id, name });
        i = i + 1;
    }
    CollectivesListResponse { collectives: entries }
}

/// Characters that end the variant name in a debug rendering of an
/// experience type.
pub open spec fn ends_type_name(c: char) -> bool {
    c == ' ' || c == '{' || c == '('
}

/// `name` is the variant name leading `text`: the longest prefix of `text`
/// without a space, `{` or `(`.
pub open spec fn is_type_name_of(name: Seq<char>, text: Seq<char>) -> bool {
    &&& name.len() <= text.len()
    &&& name == text.take(name.len() as int)
    &&& forall|j: int| 0 <= j < name.len() ==> !ends_type_name(#[trigger] text[j])
    &&& (name.len() == text.len() || ends_type_name(text[name.len() as int]))
}

/// The experience type's variant name from its debug rendering, such as
/// `TechInsight` from `TechInsight { technology: .. }`: the text up to the
/// first space, `{` or `(`.
pub fn experience_type_name(rendering: &str) -> (name: String)
    ensures
        is_type_name_of(name@, rendering@),
{
    let n = rendering.unicode_len();
    let mut i: usize = 0;
    while i < n
        invariant
            n == rendering@.len(),
            i <= n,
            forall|j: int| 0 <= j < i ==> !ends_type_name(#[trigger] rendering@[j]),
        ensures
            i <= n,
            forall|j: int| 0 <= j < i ==> !ends_type_name(#[trigger] rendering@[j]),
            i == n || ends_type_name(rendering@[i as int]),
        decreases n - i,
    {
        let c = rendering.get_char(i);
        if c == ' ' || c == '{' || c == '(' {
            break;
        }
        i = i + 1;
    }
    let name = String::from_str(rendering.substring_char(0, i));
    assert(rendering@.subrange(0, i as int) =~= rendering@.take(i as int));
    name
}

/// The summary of a collective: its counts, and the distribution of the
/// experience types given (one per experience read).
pub fn stats_response(
    experience_count: u64,
    relation_count: usize,
    insight_count: usize,
    embedding_dimension: usize,
    experience_types: &Vec<String>,
) -> (stats: StatsResponse)
    ensures
        stats.experience_count == experience_count as usize,
        stats.relation_count == relation_count,
        stats.insight_count == insight_count,
        stats.embedding_dimension == embedding_dimension,
        is_distribution_of(stats.type_distribution@, texts(experience_types@)),
{
    StatsResponse {
        experience_count: experience_count as usize,
        relation_count,
        insight_count,
        embedding_dimension,
        type_distribution: type_distribution(experience_types),
    }
}

/// The error for an experience identifier that the substrate does not hold.
pub fn experience_not_found(id: u128) -> (e: Error)
    ensures
        match e {
            Error::NotFound(msg) => msg@ == "Experience "@ + id_text(id) + " not found"@,
            _ => false,
        },
{
    let msg = String::from_str("Experience ").concat(id_to_text(id).as_str()).concat(" not found");
    Error::NotFound(msg)
}

/// Fewest embedding dimensions a projection to 3D accepts.
pub const MIN_PROJECTION_DIMENSION: usize = 3;

/// What a projection request has to do.
#[derive(Clone, Copy, Debug, PartialEq, Eq, Structural)]
pub enum ProjectionPlan {
    /// There are no points: the answer is empty.
    Nothing,
    /// The points are projected.
    Project,
}

/// Checks a projection request of `points` embeddings of `dimension`
/// entries each: no points need no work, fewer than 3 dimensions cannot be
/// projected to 3D.
pub fn plan_projection(points: usize, dimension: usize) -> (plan: Result<ProjectionPlan, Error>)
    ensures
        points == 0 ==> plan == Ok::<ProjectionPlan, Error>(ProjectionPlan::Nothing),
        points > 0 && dimension >= MIN_PROJECTION_DIMENSION ==> plan == Ok::<ProjectionPlan, Error>(
            ProjectionPlan::Project,
        ),
        points > 0 && dimension < MIN_PROJECTION_DIMENSION ==> match plan {
            Err(Error::Projection(msg)) => msg@ == "Embedding dimension "@ + decimal(dimension as nat)
                + " is less than 3, cannot project to 3D"@,
            _ => false,
        },
{
    if points == 0 {
        Ok(ProjectionPlan::Nothing)
    } else if dimension < MIN_PROJECTION_DIMENSION {
        let msg = String::from_str("Embedding dimension ").concat(decimal_text(dimension).as_str()).concat(
            " is less than 3, cannot project to 3D",
        );
        Err(Error::Projection(msg))
    } else {
        Ok(ProjectionPlan::Project)
    }
}

/// The health report.
pub struct HealthResponse {
    pub status: String,
    pub substrate: String,
    pub session_store: String,
    pub active_ws_connections: usize,
    pub uptime_seconds: u64,
    pub version: String,
}

/// The health report of a server whose substrate is open read-only or
/// not, whose session store reports `session_store`, which holds
/// `active_ws_connections` open WebSocket connections and has been up for
/// `uptime_seconds`.
pub fn health_response(
    read_only: bool,
    session_store: String,
    active_ws_connections: usize,
    uptime_seconds: u64,
    version: String,
) -> (health: HealthResponse)
    ensures
        health.status@ == "healthy"@,
        health.substrate@ == if read_only {
            "connected (read-only)"@
        } else {
            "connected"@
        },
        health.session_store@ == session_store@,
        health.active_ws_connections == active_ws_connections,
        health.uptime_seconds == uptime_seconds,
        health.version@ == version@,
{
    let substrate = if read_only {
        String::from_str("connected (read-only)")
    } else {
        String::from_str("connected")
    };
    HealthResponse {
        status: String::from_str("healthy"),
        substrate,
        session_store,
        active_ws_connections,
        uptime_seconds,
        version,
    }
}

/// The preview is the start of the content: it has the content's first
/// `min(length, 200)` characters, each in its place.
pub proof fn lemma_preview_is_prefix(content: Seq<char>)
    ensures
        preview_of(content).len() == if content.len() <= 200 {
            content.len()
        } else {
            200
        },
        forall|i: int| 0 <= i < preview_of(content).len() ==> #[trigger] preview_of(content)[i] == content[i],
{
}

} // verus!
