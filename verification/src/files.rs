//! Removing objects in batches: what is to be deleted, in which chunks, and
//! with how much going on at once. The deleting itself is the caller's.

use vstd::prelude::*;
use vstd::string::*;

verus! {

/// The greatest number of objects that one delete call takes.
pub const MAX_BATCH_SIZE: usize = 1000;

/// The greatest number of delete calls that run at the same time.
pub const MAX_PERMITS: usize = 3;

/// The number of workers that issue delete calls.
pub const POOL_THREADS: usize = 2;

/// `s` without the slashes that it starts with.
pub open spec fn without_leading_slashes(s: Seq<char>) -> Seq<char>
    decreases s.len(),
{
    if s.len() > 0 && s[0] == '/' {
        without_leading_slashes(s.subrange(1, s.len() as int))
    } else {
        s
    }
}

/// The locations normalized: each without leading slashes, those left empty
/// dropped, the others in their order.
pub open spec fn normalized(locations: Seq<Seq<char>>) -> Seq<Seq<char>>
    decreases locations.len(),
{
    if locations.len() == 0 {
        Seq::empty()
    } else if without_leading_slashes(locations.last()).len() == 0 {
        normalized(locations.drop_last())
    } else {
        normalized(locations.drop_last()).push(without_leading_slashes(locations.last()))
    }
}

/// Texts, each taken by its characters.
pub open spec fn texts_view(texts: Seq<String>) -> Seq<Seq<char>> {
    Seq::new(texts.len(), |i: int| texts[i]@)
}

/// `v` held between `low` and `high`.
pub open spec fn clamped(v: int, low: int, high: int) -> int {
    if v < low {
        low
    } else if v > high {
        high
    } else {
        v
    }
}

/// How many objects one delete call takes, for `total` objects and
/// `threads` worker threads.
pub open spec fn batch_size_of(total: int, threads: int) -> int {
    clamped(total / threads, 1, MAX_BATCH_SIZE as int)
}

/// How many delete calls may run at the same time with `threads` worker
/// threads.
pub open spec fn permits_of(threads: int) -> int {
    clamped(threads / 2, 1, MAX_PERMITS as int)
}

/// The least number of chunks of `size` that hold `total` objects.
pub open spec fn chunks_needed(total: int, size: int) -> int {
    (total + size - 1) / size
}

/// How a batch of objects is removed.
#[derive(Debug, PartialEq, Eq)]
pub struct RemovalPlan {
    /// How many objects one delete call takes at most.
    pub batch_size: usize,
    /// The objects of each delete call.
    pub chunks: Vec<Vec<String>>,
    /// Whether the delete calls are dealt out to workers. Where they are
    /// not, there is at most one call, made on the spot.
    pub parallel: bool,
    /// How many delete calls may run at the same time.
    pub permit: usize,
    /// How many workers issue the delete calls.
    pub pool_threads: usize,
}

/// The chunks, each taken as a sequence of texts.
pub open spec fn chunks_view(chunks: Seq<Vec<String>>) -> Seq<Seq<Seq<char>>> {
    Seq::new(chunks.len(), |k: int| texts_view(chunks[k]@))
}

/// Piece `k` of `all` cut into pieces of `size`: the last one is perhaps
/// shorter.
pub open spec fn piece(all: Seq<Seq<char>>, size: int, k: int) -> Seq<Seq<char>> {
    all.subrange(
        k * size,
        if (k + 1) * size <= all.len() {
            (k + 1) * size
        } else {
            all.len() as int
        },
    )
}

/// Whether `chunks` cut `all` into pieces of `size`, the last one perhaps
/// shorter, none empty.
pub open spec fn is_chunking(chunks: Seq<Seq<Seq<char>>>, all: Seq<Seq<char>>, size: int) -> bool {
    &&& size > 0
    &&& (chunks.len() - 1) * size < all.len() <= chunks.len() * size
    &&& forall|k: int| 0 <= k < chunks.len() ==> #[trigger] chunks[k] == piece(all, size, k)
}

/// Whether `chunks` are the pieces of `size` that `all` is cut into, each
/// normalized. A piece of which normalizing leaves nothing is a chunk all
/// the same.
pub open spec fn is_normalized_chunking(
    chunks: Seq<Seq<Seq<char>>>,
    all: Seq<Seq<char>>,
    size: int,
) -> bool {
    &&& size > 0
    &&& (chunks.len() - 1) * size < all.len() <= chunks.len() * size
    &&& forall|k: int|
        0 <= k < chunks.len() ==> #[trigger] chunks[k] == normalized(piece(all, size, k))
}

impl RemovalPlan {
    /// Whether the plan is the one for `locations` and `threads` worker
    /// threads.
    pub open spec fn is_plan_for(&self, locations: Seq<Seq<char>>, threads: int) -> bool {
        &&& self.batch_size == batch_size_of(locations.len() as int, threads)
        &&& is_normalized_chunking(chunks_view(self.chunks@), locations, self.batch_size as int)
        &&& self.parallel == (locations.len() > self.batch_size)
        &&& self.permit == permits_of(threads)
        &&& self.pool_threads == POOL_THREADS
    }
}

/// Takes the leading slashes off a location.
pub fn trim_leading_slashes(location: &str) -> (r: &str)
    ensures
        r@ == without_leading_slashes(location@),
{
    let n = location.unicode_len();
    let mut k: usize = 0;
    assert(location@.subrange(0, n as int) =~= location@);
    while k < n && location.get_char(k) == '/'
        invariant
            n == location@.len(),
            k <= n,
            without_leading_slashes(location@) == without_leading_slashes(
                location@.subrange(k as int, n as int),
            ),
        decreases n - k,
    {
        proof {
            let rest = location@.subrange(k as int, n as int);
            assert(rest.subrange(1, rest.len() as int) =~= location@.subrange(k + 1, n as int));
        }
        k += 1;
    }
    location.substring_char(k, n)
}

/// Normalizes the locations of a batch: takes the leading slashes off each
/// and drops those that are left empty.
pub fn normalize_locations(locations: &Vec<String>) -> (r: Vec<String>)
    ensures
        texts_view(r@) == normalized(texts_view(locations@)),
{
    let mut r: Vec<String> = Vec::new();
    let mut i: usize = 0;
    while i < locations.len()
        invariant
            i <= locations.len(),
            texts_view(r@) == normalized(texts_view(locations@).take(i as int)),
        decreases locations.len() - i,
    {
        let trimmed = trim_leading_slashes(locations[i].as_str());
        proof {
            let all = texts_view(locations@);
            assert(all.take(i + 1).drop_last() =~= all.take(i as int));
        }
        if trimmed.unicode_len() > 0 {
            r.push(String::from_str(trimmed));
        }
        i += 1;
    }
    assert(texts_view(locations@).take(locations.len() as int) =~= texts_view(locations@));
    r
}

/// How many objects one delete call takes.
pub fn batch_size(total: usize, threads: usize) -> (r: usize)
    requires
        threads > 0,
    ensures
        r == batch_size_of(total as int, threads as int),
        1 <= r <= MAX_BATCH_SIZE,
{
    let per_thread: usize = total / threads;
    if per_thread < 1 {
        1
    } else if per_thread > MAX_BATCH_SIZE {
        MAX_BATCH_SIZE
    } else {
        per_thread
    }
}

/// How many delete calls may run at the same time.
pub fn permits(threads: usize) -> (r: usize)
    ensures
        r == permits_of(threads as int),
        1 <= r <= MAX_PERMITS,
{
    let half: usize = threads / 2;
    if half < 1 {
        1
    } else if half > MAX_PERMITS {
        MAX_PERMITS
    } else {
        half
    }
}

/// Cuts the locations into chunks of `size`.
pub fn chunk_locations(locations: &Vec<String>, size: usize) -> (chunks: Vec<Vec<String>>)
    requires
        size > 0,
    ensures
        is_chunking(chunks_view(chunks@), texts_view(locations@), size as int),
{
    let n: usize = locations.len();
    let mut chunks: Vec<Vec<String>> = Vec::new();
    let mut start: usize = 0;
    assert(chunks@.len() * size == 0) by (nonlinear_arith)
        requires
            chunks@.len() == 0,
    ;
    while start < n
        invariant
            n == locations@.len(),
            size > 0,
            start <= n,
            n == 0 || start < n,
            start == chunks@.len() * size,
            forall|k: int|
                0 <= k < chunks@.len() ==> #[trigger] chunks_view(chunks@)[k] == texts_view(
                    locations@,
                ).subrange(k * size, (k + 1) * size),
        decreases n - start,
    {
        let end: usize = if n - start <= size {
            n
        } else {
            start + size
        };
        let mut chunk: Vec<String> = Vec::new();
        let mut i: usize = start;
        while i < end
            invariant
                start <= i <= end,
                end <= n,
                n == locations@.len(),
                texts_view(chunk@) == texts_view(locations@).subrange(start as int, i as int),
            decreases end - i,
        {
            let ghost before = texts_view(chunk@);
            chunk.push(locations[i].clone());
            assert(texts_view(chunk@) =~= before.push(locations@[i as int]@));
            i += 1;
        }
        let ghost k = chunks@.len() as int;
        let ghost prior = chunks_view(chunks@);
        assert((k + 1) * size == k * size + size) by (nonlinear_arith);
        if end < n {
            chunks.push(chunk);
            proof {
                assert(chunks_view(chunks@) =~= prior.push(texts_view(chunk@)));
            }
            start = end;
        } else {
            chunks.push(chunk);
            proof {
                let all = texts_view(locations@);
                let view = chunks_view(chunks@);
                assert(view =~= prior.push(texts_view(chunk@)));
                assert forall|j: int| 0 <= j < view.len() implies #[trigger] view[j]
                    == all.subrange(
                    j * size,
                    if (j + 1) * size <= all.len() {
                        (j + 1) * size
                    } else {
                        all.len() as int
                    },
                ) by {
                    if j < k {
                        assert((j + 1) * size <= k * size) by (nonlinear_arith)
                            requires
                                j + 1 <= k,
                                size > 0,
                        ;
                    }
                }
            }
            return chunks;
        }
    }
    proof {
        assert(chunks@.len() == 0) by (nonlinear_arith)
            requires
                chunks@.len() * size == 0,
                size > 0,
        ;
        let view = chunks_view(chunks@);
        assert((view.len() - 1) * size < 0 && 0 <= view.len() * size) by (nonlinear_arith)
            requires
                view.len() == 0,
                size > 0,
        ;
    }
    chunks
}

/// Normalizes each chunk.
pub fn normalize_chunks(chunks: &Vec<Vec<String>>) -> (r: Vec<Vec<String>>)
    ensures
        r@.len() == chunks@.len(),
        forall|k: int|
            0 <= k < chunks@.len() ==> texts_view((#[trigger] r@[k])@) == normalized(
                texts_view(chunks@[k]@),
            ),
{
    let mut r: Vec<Vec<String>> = Vec::new();
    let mut i: usize = 0;
    while i < chunks.len()
        invariant
            i <= chunks.len(),
            r@.len() == i,
            forall|k: int|
                0 <= k < i ==> texts_view((#[trigger] r@[k])@) == normalized(
                    texts_view(chunks@[k]@),
                ),
        decreases chunks.len() - i,
    {
        r.push(normalize_locations(&chunks[i]));
        i += 1;
    }
    r
}

/// Plans the removal of a batch of objects for `threads` worker threads.
///
/// The locations are cut into chunks of as many objects as each thread
/// would get, but no fewer than one and no more than a thousand, and each
/// chunk is normalized; it is one delete call, whatever normalizing leaves
/// of it. A batch that fits into one chunk is deleted on the spot, in one
/// call; a larger one is dealt out to two workers, of whose calls at most
/// half as many as there are threads, and no more than three, run at once.
/// With no location given there is no call.
pub fn plan_removal(locations: &Vec<String>, threads: usize) -> (plan: RemovalPlan)
    requires
        threads > 0,
    ensures
        plan.is_plan_for(texts_view(locations@), threads as int),
{
    let size = batch_size(locations.len(), threads);
    let parallel = locations.len() > size;
    let pieces = chunk_locations(locations, size);
    let chunks = normalize_chunks(&pieces);
    proof {
        let all = texts_view(locations@);
        assert forall|k: int| 0 <= k < chunks@.len() implies #[trigger] chunks_view(chunks@)[k]
            == normalized(piece(all, size as int, k)) by {
            assert(chunks_view(pieces@)[k] == piece(all, size as int, k));
        }
    }
    RemovalPlan { batch_size: size, chunks, parallel, permit: permits(threads), pool_threads: POOL_THREADS }
}

/// Normalizing two lists one after the other is normalizing them joined.
pub proof fn lemma_normalized_concat(a: Seq<Seq<char>>, b: Seq<Seq<char>>)
    ensures
        normalized(a + b) == normalized(a) + normalized(b),
    decreases b.len(),
{
    if b.len() == 0 {
        assert(a + b =~= a);
        assert(normalized(a) + normalized(b) =~= normalized(a));
    } else {
        assert((a + b).drop_last() =~= a + b.drop_last());
        assert((a + b).last() == b.last());
        lemma_normalized_concat(a, b.drop_last());
        let w = without_leading_slashes(b.last());
        if w.len() > 0 {
            assert((normalized(a) + normalized(b.drop_last())).push(w) =~= normalized(a)
                + normalized(b.drop_last()).push(w));
        }
    }
}

/// The chunks one after the other.
pub open spec fn joined(chunks: Seq<Seq<Seq<char>>>) -> Seq<Seq<char>>
    decreases chunks.len(),
{
    if chunks.len() == 0 {
        Seq::empty()
    } else {
        joined(chunks.drop_last()) + chunks.last()
    }
}

/// A plan makes as many delete calls as chunks of its size are needed for
/// the locations given. Where the locations fit into one chunk, and there
/// is one at least, it makes exactly one, on the spot, with all the
/// locations normalized; with no location given it makes none.
pub proof fn lemma_plan_call_count(plan: RemovalPlan, locations: Seq<Seq<char>>, threads: int)
    requires
        threads > 0,
        plan.is_plan_for(locations, threads),
    ensures
        plan.batch_size == batch_size_of(locations.len() as int, threads),
        plan.chunks@.len() == chunks_needed(locations.len() as int, plan.batch_size as int),
        0 < locations.len() <= plan.batch_size ==> plan.chunks@.len() == 1 && !plan.parallel
            && chunks_view(plan.chunks@)[0] == normalized(locations),
        locations.len() == 0 <==> plan.chunks@.len() == 0,
{
    let n = locations.len() as int;
    let size = plan.batch_size as int;
    let k = plan.chunks@.len() as int;
    lemma_chunk_count(n, size, k);
    if 0 < n <= size {
        assert(k == 1) by (nonlinear_arith)
            requires
                0 < n <= size,
                k >= 0,
                (k - 1) * size < n <= k * size,
        ;
        assert(piece(locations, size, 0) =~= locations);
    }
    if n == 0 {
        assert(k == 0) by (nonlinear_arith)
            requires
                n == 0,
                size > 0,
                k >= 0,
                (k - 1) * size < n,
        ;
    }
}

/// The calls of a plan delete the locations given, normalized, each once
/// and in their order.
pub proof fn lemma_plan_deletes_all(plan: RemovalPlan, locations: Seq<Seq<char>>, threads: int)
    requires
        threads > 0,
        plan.is_plan_for(locations, threads),
    ensures
        joined(chunks_view(plan.chunks@)) == normalized(locations),
{
    let chunks = chunks_view(plan.chunks@);
    let size = plan.batch_size as int;
    lemma_joined_pieces(chunks, locations, size, chunks.len() as int);
    let k = chunks.len() as int;
    assert(chunks.take(k) =~= chunks);
    assert(locations.take(locations.len() as int) =~= locations);
}

/// The first `upto` chunks joined are the locations that they were cut
/// from, normalized.
proof fn lemma_joined_pieces(
    chunks: Seq<Seq<Seq<char>>>,
    all: Seq<Seq<char>>,
    size: int,
    upto: int,
)
    requires
        is_normalized_chunking(chunks, all, size),
        0 <= upto <= chunks.len(),
    ensures
        joined(chunks.take(upto)) == normalized(
            all.take(
                if upto * size <= all.len() {
                    upto * size
                } else {
                    all.len() as int
                },
            ),
        ),
    decreases upto,
{
    if upto == 0 {
        assert(upto * size == 0) by (nonlinear_arith)
            requires
                upto == 0,
        ;
        assert(all.take(0) =~= Seq::empty());
        assert(chunks.take(0) =~= Seq::empty());
    } else {
        lemma_joined_pieces(chunks, all, size, upto - 1);
        let k = upto - 1;
        assert(chunks.take(upto).drop_last() =~= chunks.take(k));
        assert(chunks.take(upto).last() == chunks[k]);
        assert(k * size < all.len()) by (nonlinear_arith)
            requires
                (chunks.len() - 1) * size < all.len(),
                0 <= k <= chunks.len() - 1,
                size > 0,
        ;
        assert((k + 1) * size == k * size + size) by (nonlinear_arith);
        assert(upto * size == k * size + size) by (nonlinear_arith)
            requires
                upto == k + 1,
        ;
        let end = if upto * size <= all.len() {
            upto * size
        } else {
            all.len() as int
        };
        assert(all.take(end) =~= all.take(k * size) + piece(all, size, k));
        lemma_normalized_concat(all.take(k * size), piece(all, size, k));
    }
}

/// `k` chunks of `size` hold `n` objects with none to spare exactly when
/// `k` is the number of chunks needed.
proof fn lemma_chunk_count(n: int, size: int, k: int)
    requires
        n >= 0,
        size > 0,
        k >= 0,
        (k - 1) * size < n <= k * size,
    ensures
        k == chunks_needed(n, size),
{
    let m = n + size - 1;
    vstd::arithmetic::div_mod::lemma_fundamental_div_mod(m, size);
    let q = m / size;
    let r = m % size;
    assert(0 <= r < size) by {
        vstd::arithmetic::div_mod::lemma_mod_bound(m, size);
    }
    assert(q == k) by (nonlinear_arith)
        requires
            m == size * q + r,
            0 <= r < size,
            size > 0,
            (k - 1) * size < m - size + 1,
            m - size + 1 <= k * size,
    ;
}

} // verus!
