//! The background of space dust: which chunks of it surround the player,
//! and where the particles of a new chunk lie.
use rand::Rng;
use vstd::prelude::*;

verus! {

/// The side of a chunk, in fixed-point steps.
pub const CHUNK_SIZE: i64 = 1_200_000_000;

/// The number of particles in a chunk.
pub const PARTICLES_PER_CHUNK: usize = 500;

/// The least opacity of a particle.
pub const MIN_ALPHA: i64 = 10_000;

/// The bound that the opacity of a particle stays below.
pub const MAX_ALPHA: i64 = 100_000;

/// The least side of a particle.
pub const MIN_SIDE: i64 = 1_000_000;

/// The bound that the sides of a particle stay below.
pub const MAX_SIDE: i64 = 3_000_000;

/// A particle of dust: where it lies in its chunk, how opaque and how large
/// it is.
#[derive(Clone, Copy, Debug, PartialEq, Eq, Structural)]
pub struct Particle {
    pub x: i64,
    pub y: i64,
    pub alpha: i64,
    pub width: i64,
    pub height: i64,
}

/// A new chunk: its place in the grid, its corner in the world, and its
/// particles.
#[derive(Debug, PartialEq, Eq)]
pub struct ChunkLayout {
    pub coords: ChunkCoords,
    pub origin_x: i64,
    pub origin_y: i64,
    pub particles: Vec<Particle>,
}

impl Particle {
    /// The particle lies in its chunk, and its opacity and its sides are in
    /// their ranges.
    pub open spec fn wf(self) -> bool {
        &&& 0 <= self.x < CHUNK_SIZE
        &&& 0 <= self.y < CHUNK_SIZE
        &&& MIN_ALPHA <= self.alpha < MAX_ALPHA
        &&& MIN_SIDE <= self.width < MAX_SIDE
        &&& MIN_SIDE <= self.height < MAX_SIDE
    }
}

/// The place of a chunk in the grid of chunks.
#[derive(Clone, Copy, Debug, PartialEq, Eq, Structural)]
pub struct ChunkCoords {
    pub x: i32,
    pub y: i32,
}

/// The chunks to add and the chunks to drop in one frame.
#[derive(Debug, PartialEq, Eq)]
pub struct DustPlan {
    pub spawn: Vec<ChunkCoords>,
    pub despawn: Vec<ChunkCoords>,
}

/// The index along one axis of the chunk that holds the coordinate `c`,
/// held to the range of the grid.
pub open spec fn chunk_index(c: int) -> int {
    let i = c / (CHUNK_SIZE as int);
    if i < i32::MIN {
        i32::MIN as int
    } else if i > i32::MAX {
        i32::MAX as int
    } else {
        i
    }
}

/// `a` is `b` or one of the eight chunks around it.
pub open spec fn adjacent(a: ChunkCoords, b: ChunkCoords) -> bool {
    -1 <= a.x - b.x <= 1 && -1 <= a.y - b.y <= 1
}

/// The `k`-th of the nine chunks at and around `current`, row by row from
/// the lowest `y`, each row from the lowest `x`.
pub open spec fn neighbour(current: ChunkCoords, k: int) -> ChunkCoords {
    ChunkCoords { x: (current.x + k % 3 - 1) as i32, y: (current.y + k / 3 - 1) as i32 }
}

/// The first `k` neighbours of `current` that are not loaded, in order.
pub open spec fn missing(current: ChunkCoords, loaded: Seq<ChunkCoords>, k: int) -> Seq<
    ChunkCoords,
>
    decreases k,
{
    if k <= 0 {
        Seq::empty()
    } else if loaded.contains(neighbour(current, k - 1)) {
        missing(current, loaded, k - 1)
    } else {
        missing(current, loaded, k - 1).push(neighbour(current, k - 1))
    }
}

/// The chunks among the first `k` of `loaded` that are not adjacent to
/// `current`, in order.
pub open spec fn distant(current: ChunkCoords, loaded: Seq<ChunkCoords>, k: int) -> Seq<
    ChunkCoords,
>
    decreases k,
{
    if k <= 0 {
        Seq::empty()
    } else if adjacent(loaded[k - 1], current) {
        distant(current, loaded, k - 1)
    } else {
        distant(current, loaded, k - 1).push(loaded[k - 1])
    }
}

/// The index along one axis of the chunk that holds `c`.
fn index_of(c: i64) -> (r: i32)
    ensures
        r == chunk_index(c as int),
{
    let i: i64 = if c >= 0 {
        c / CHUNK_SIZE
    } else {
        let back: i64 = ((-(c as i128)) / (CHUNK_SIZE as i128)) as i64;
        if (-(c as i128)) % (CHUNK_SIZE as i128) == 0 {
            -back
        } else {
            -back - 1
        }
    };
    if i < -0x8000_0000 {
        i32::MIN
    } else if i > 0x7fff_ffff {
        i32::MAX
    } else {
        i as i32
    }
}

/// The chunk that holds the point `(x, y)`.
pub fn chunk_of(x: i64, y: i64) -> (r: ChunkCoords)
    ensures
        r.x == chunk_index(x as int),
        r.y == chunk_index(y as int),
{
    ChunkCoords { x: index_of(x), y: index_of(y) }
}

/// Whether `c` is among `loaded`.
fn is_loaded(loaded: &Vec<ChunkCoords>, c: ChunkCoords) -> (found: bool)
    ensures
        found == loaded@.contains(c),
{
    let mut i: usize = 0;
    while i < loaded.len()
        invariant
            i <= loaded.len(),
            forall|j: int| 0 <= j < i ==> loaded@[j] != c,
        decreases loaded.len() - i,
    {
        if loaded[i].x == c.x && loaded[i].y == c.y {
            return true;
        }
        i = i + 1;
    }
    false
}

/// The chunks at and around `current` that are not loaded yet.
pub fn chunks_to_spawn(current: ChunkCoords, loaded: &Vec<ChunkCoords>) -> (r: Vec<ChunkCoords>)
    requires
        i32::MIN < current.x < i32::MAX,
        i32::MIN < current.y < i32::MAX,
    ensures
        r@ == missing(current, loaded@, 9),
{
    let mut out: Vec<ChunkCoords> = Vec::new();
    let mut k: i32 = 0;
    while k < 9
        invariant
            0 <= k <= 9,
            i32::MIN < current.x < i32::MAX,
            i32::MIN < current.y < i32::MAX,
            out@ == missing(current, loaded@, k as int),
        decreases 9 - k,
    {
        let c = ChunkCoords { x: current.x + (k % 3 - 1), y: current.y + (k / 3 - 1) };
        assert(c == neighbour(current, k as int));
        if !is_loaded(loaded, c) {
            out.push(c);
        }
        k = k + 1;
    }
    out
}

/// The loaded chunks that are no longer at or around `current`.
pub fn chunks_to_despawn(current: ChunkCoords, loaded: &Vec<ChunkCoords>) -> (r: Vec<ChunkCoords>)
    ensures
        r@ == distant(current, loaded@, loaded@.len() as int),
{
    let mut out: Vec<ChunkCoords> = Vec::new();
    let mut i: usize = 0;
    while i < loaded.len()
        invariant
            i <= loaded.len(),
            out@ == distant(current, loaded@, i as int),
        decreases loaded.len() - i,
    {
        let c = loaded[i];
        let dx: i64 = c.x as i64 - current.x as i64;
        let dy: i64 = c.y as i64 - current.y as i64;
        if !(-1 <= dx && dx <= 1 && -1 <= dy && dy <= 1) {
            out.push(c);
        }
        i = i + 1;
    }
    out
}

/// One frame of the dust: the player at `(x, y)` is given the chunks at and
/// around its own that are not loaded, and is rid of those further away.
pub fn space_dust(x: i64, y: i64, loaded: &Vec<ChunkCoords>) -> (r: DustPlan)
    requires
        i32::MIN < chunk_index(x as int) < i32::MAX,
        i32::MIN < chunk_index(y as int) < i32::MAX,
    ensures
        r.spawn@ == missing(chunk_of_spec(x as int, y as int), loaded@, 9),
        r.despawn@ == distant(
            chunk_of_spec(x as int, y as int),
            loaded@,
            loaded@.len() as int,
        ),
{
    let current = chunk_of(x, y);
    DustPlan {
        spawn: chunks_to_spawn(current, loaded),
        despawn: chunks_to_despawn(current, loaded),
    }
}

/// A draw from the generator of the thread.
///
/// Calls `rand::Rng::gen_range` on `rand::thread_rng()` with the half-open
/// range from `low` to `high`. Nothing is proved of it. It is taken from the
/// source of `rand` that the draw lies in the range, and that the call fails
/// on an empty range only; which value is drawn is left open.
#[verifier::external_body]
fn random_in(low: i64, high: i64) -> (r: i64)
    requires
        low < high,
    ensures
        low <= r < high,
{
    rand::thread_rng().gen_range(low..high)
}

/// A particle placed at random in its chunk.
fn random_particle() -> (p: Particle)
    ensures
        p.wf(),
{
    let x: i64 = random_in(0, CHUNK_SIZE);
    let y: i64 = random_in(0, CHUNK_SIZE);
    let alpha: i64 = random_in(MIN_ALPHA, MAX_ALPHA);
    let width: i64 = random_in(MIN_SIDE, MAX_SIDE);
    let height: i64 = random_in(MIN_SIDE, MAX_SIDE);
    Particle { x, y, alpha, width, height }
}

/// The layout of the chunk at `coords`: its corner in the world and as many
/// particles as a chunk has, each placed at random in the chunk.
///
/// Which particles come back differs from call to call; that there are
/// [`PARTICLES_PER_CHUNK`] of them and that each meets [`Particle::wf`] holds
/// of every outcome.
pub fn spawn_chunk(coords: ChunkCoords) -> (r: ChunkLayout)
    ensures
        r.coords == coords,
        r.origin_x == coords.x * CHUNK_SIZE,
        r.origin_y == coords.y * CHUNK_SIZE,
        r.particles@.len() == PARTICLES_PER_CHUNK,
        forall|i: int| 0 <= i < r.particles@.len() ==> (#[trigger] r.particles@[i]).wf(),
{
    let mut particles: Vec<Particle> = Vec::new();
    let mut n: usize = 0;
    while n < PARTICLES_PER_CHUNK
        invariant
            n <= PARTICLES_PER_CHUNK,
            particles@.len() == n,
            forall|i: int| 0 <= i < particles@.len() ==> (#[trigger] particles@[i]).wf(),
        decreases PARTICLES_PER_CHUNK - n,
    {
        let p = random_particle();
        particles.push(p);
        n = n + 1;
    }
    ChunkLayout {
        coords,
        origin_x: coords.x as i64 * CHUNK_SIZE,
        origin_y: coords.y as i64 * CHUNK_SIZE,
        particles,
    }
}

/// The chunk that holds the point `(x, y)`.
pub open spec fn chunk_of_spec(x: int, y: int) -> ChunkCoords {
    ChunkCoords { x: chunk_index(x) as i32, y: chunk_index(y) as i32 }
}

/// Every chunk to spawn is adjacent to the player's and was not loaded; every
/// adjacent chunk that was not loaded is among them.
pub proof fn lemma_missing(current: ChunkCoords, loaded: Seq<ChunkCoords>, k: int)
    requires
        0 <= k <= 9,
        i32::MIN < current.x < i32::MAX,
        i32::MIN < current.y < i32::MAX,
    ensures
        forall|c: ChunkCoords| #[trigger]
            missing(current, loaded, k).contains(c) <==> (exists|j: int|
                0 <= j < k && c == #[trigger] neighbour(current, j)) && !loaded.contains(c),
        forall|c: ChunkCoords| #[trigger]
            missing(current, loaded, k).contains(c) ==> adjacent(c, current),
    decreases k,
{
    if k > 0 {
        lemma_missing(current, loaded, k - 1);
        let prev = missing(current, loaded, k - 1);
        let n = neighbour(current, k - 1);
        assert(adjacent(n, current));
        assert forall|c: ChunkCoords| #[trigger]
            missing(current, loaded, k).contains(c) <==> (exists|j: int|
                0 <= j < k && c == #[trigger] neighbour(current, j)) && !loaded.contains(c) by {
            if loaded.contains(n) {
                if prev.contains(c) {
                    let j = choose|j: int| 0 <= j < k - 1 && c == #[trigger] neighbour(current, j);
                    assert(0 <= j < k && c == neighbour(current, j));
                }
                if (exists|j: int| 0 <= j < k && c == #[trigger] neighbour(current, j))
                    && !loaded.contains(c) {
                    let j = choose|j: int| 0 <= j < k && c == #[trigger] neighbour(current, j);
                    assert(j != k - 1);
                    assert(0 <= j < k - 1 && c == neighbour(current, j));
                }
            } else {
                let next = prev.push(n);
                assert(next[prev.len() as int] == n);
                if next.contains(c) {
                    let i = choose|i: int| 0 <= i < next.len() && next[i] == c;
                    if i < prev.len() {
                        assert(prev[i] == c);
                        assert(prev.contains(c));
                        let j = choose|j: int|
                            0 <= j < k - 1 && c == #[trigger] neighbour(current, j);
                        assert(0 <= j < k && c == neighbour(current, j));
                    } else {
                        assert(c == neighbour(current, k - 1));
                    }
                }
                if (exists|j: int| 0 <= j < k && c == #[trigger] neighbour(current, j))
                    && !loaded.contains(c) {
                    let j = choose|j: int| 0 <= j < k && c == #[trigger] neighbour(current, j);
                    if j == k - 1 {
                        assert(next[prev.len() as int] == c);
                    } else {
                        assert(0 <= j < k - 1 && c == neighbour(current, j));
                        assert(prev.contains(c));
                        let i = choose|i: int| 0 <= i < prev.len() && prev[i] == c;
                        assert(next[i] == c);
                    }
                }
            }
        }
        assert forall|c: ChunkCoords| #[trigger]
            missing(current, loaded, k).contains(c) implies adjacent(c, current) by {
            let j = choose|j: int| 0 <= j < k && c == #[trigger] neighbour(current, j);
            assert(adjacent(neighbour(current, j), current));
        }
    }
}

/// Every chunk to despawn was loaded and is not adjacent to the player's;
/// every loaded chunk that is not adjacent is among them.
pub proof fn lemma_distant(current: ChunkCoords, loaded: Seq<ChunkCoords>, k: int)
    requires
        0 <= k <= loaded.len(),
    ensures
        forall|c: ChunkCoords| #[trigger]
            distant(current, loaded, k).contains(c) <==> (exists|j: int|
                0 <= j < k && c == #[trigger] loaded[j]) && !adjacent(c, current),
    decreases k,
{
    if k > 0 {
        lemma_distant(current, loaded, k - 1);
        let prev = distant(current, loaded, k - 1);
        let n = loaded[k - 1];
        assert forall|c: ChunkCoords| #[trigger]
            distant(current, loaded, k).contains(c) <==> (exists|j: int|
                0 <= j < k && c == #[trigger] loaded[j]) && !adjacent(c, current) by {
            if adjacent(n, current) {
                if prev.contains(c) {
                    let j = choose|j: int| 0 <= j < k - 1 && c == #[trigger] loaded[j];
                    assert(0 <= j < k && c == loaded[j]);
                }
                if (exists|j: int| 0 <= j < k && c == #[trigger] loaded[j]) && !adjacent(
                    c,
                    current,
                ) {
                    let j = choose|j: int| 0 <= j < k && c == #[trigger] loaded[j];
                    assert(j != k - 1);
                    assert(0 <= j < k - 1 && c == loaded[j]);
                }
            } else {
                let next = prev.push(n);
                assert(next[prev.len() as int] == n);
                if next.contains(c) {
                    let i = choose|i: int| 0 <= i < next.len() && next[i] == c;
                    if i < prev.len() {
                        assert(prev[i] == c);
                        assert(prev.contains(c));
                        let j = choose|j: int| 0 <= j < k - 1 && c == #[trigger] loaded[j];
                        assert(0 <= j < k && c == loaded[j]);
                    } else {
                        assert(c == loaded[k - 1]);
                    }
                }
                if (exists|j: int| 0 <= j < k && c == #[trigger] loaded[j]) && !adjacent(
                    c,
                    current,
                ) {
                    let j = choose|j: int| 0 <= j < k && c == #[trigger] loaded[j];
                    if j == k - 1 {
                        assert(next[prev.len() as int] == c);
                    } else {
                        assert(0 <= j < k - 1 && c == loaded[j]);
                        assert(prev.contains(c));
                        let i = choose|i: int| 0 <= i < prev.len() && prev[i] == c;
                        assert(next[i] == c);
                    }
                }
            }
        }
    }
}

} // verus!
