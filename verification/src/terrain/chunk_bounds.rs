use vstd::prelude::*;

verus! {

/// A world position, each coordinate rounded down to a whole world unit.
pub type BlockPosition = (i64, i64, i64);

/// The axis-aligned box of world space covered by one terrain chunk:
/// `min` is inclusive, `max` exclusive, on every axis.
#[derive(Eq, Hash, Debug, Clone, Copy)]
pub struct ChunkBounds {
    pub min: (i32, i32, i32),
    pub max: (i32, i32, i32),
}

impl PartialEq for ChunkBounds {
    fn eq(&self, other: &ChunkBounds) -> (equal: bool) {
        self.min.0 == other.min.0 && self.min.1 == other.min.1 && self.min.2 == other.min.2
            && self.max.0 == other.max.0 && self.max.1 == other.max.1 && self.max.2
            == other.max.2
    }
}

impl vstd::std_specs::cmp::PartialEqSpecImpl for ChunkBounds {
    open spec fn obeys_eq_spec() -> bool {
        true
    }

    open spec fn eq_spec(&self, other: &ChunkBounds) -> bool {
        *self == *other
    }
}

/// The chunk index of the world coordinate `a`: `a / 128`, rounded towards
/// negative infinity (spec division on a positive divisor rounds down).
pub open spec fn chunk_index(a: int) -> int {
    a / 128
}

/// Chunk indices whose bounds fit in `i32` on both ends.
pub open spec fn chunk_index_in_range(c: int) -> bool {
    -16777216 <= c && c <= 16777214
}

/// World positions whose chunk has bounds that fit in `i32`.
pub open spec fn position_in_range(p: BlockPosition) -> bool {
    &&& chunk_index_in_range(chunk_index(p.0 as int))
    &&& chunk_index_in_range(chunk_index(p.1 as int))
    &&& chunk_index_in_range(chunk_index(p.2 as int))
}

/// `b` is the box of the chunk with index `c`.
pub open spec fn is_chunk(b: ChunkBounds, c: (int, int, int)) -> bool {
    &&& b.min.0 == 128 * c.0 && b.max.0 == 128 * (c.0 + 1)
    &&& b.min.1 == 128 * c.1 && b.max.1 == 128 * (c.1 + 1)
    &&& b.min.2 == 128 * c.2 && b.max.2 == 128 * (c.2 + 1)
}

/// The box of the chunk with index `c`.
pub open spec fn spec_chunk(c: (int, int, int)) -> ChunkBounds {
    ChunkBounds {
        min: ((128 * c.0) as i32, (128 * c.1) as i32, (128 * c.2) as i32),
        max: ((128 * (c.0 + 1)) as i32, (128 * (c.1 + 1)) as i32, (128 * (c.2 + 1)) as i32),
    }
}

/// The chunk that holds the world position `p`.
pub open spec fn spec_parse(p: BlockPosition) -> ChunkBounds {
    spec_chunk((chunk_index(p.0 as int), chunk_index(p.1 as int), chunk_index(p.2 as int)))
}

impl ChunkBounds {
    /// `p` lies inside the box (`min` inclusive, `max` exclusive).
    pub open spec fn spec_contains(self, p: BlockPosition) -> bool {
        &&& self.min.0 <= p.0 && p.0 < self.max.0
        &&& self.min.1 <= p.1 && p.1 < self.max.1
        &&& self.min.2 <= p.2 && p.2 < self.max.2
    }
}

/// `a` divided by 128, rounded towards negative infinity.
fn div_floor_chunk(a: i64) -> (q: i64)
    ensures
        q == chunk_index(a as int),
{
    if a >= 0 {
        a / 128
    } else {
        let b: i64 = -(a + 1);
        let r: i64 = b / 128;
        -r - 1
    }
}

impl ChunkBounds {
    /// The bounds of the chunk whose index is `position`: the chunk spans
    /// `128 * position` (inclusive) to `128 * (position + 1)` (exclusive) on
    /// every axis.
    pub fn of_chunk(position: (i32, i32, i32)) -> (bounds: ChunkBounds)
        requires
            chunk_index_in_range(position.0 as int),
            chunk_index_in_range(position.1 as int),
            chunk_index_in_range(position.2 as int),
        ensures
            is_chunk(bounds, (position.0 as int, position.1 as int, position.2 as int)),
            bounds == spec_chunk((position.0 as int, position.1 as int, position.2 as int)),
    {
        let min = (position.0 * 128, position.1 * 128, position.2 * 128);
        let max = ((position.0 + 1) * 128, (position.1 + 1) * 128, (position.2 + 1) * 128);
        ChunkBounds { min, max }
    }

    /// Whether the chunk holding `position` has bounds that fit in `i32`,
    /// which `parse` needs.
    pub fn position_fits(position: BlockPosition) -> (fits: bool)
        ensures
            fits == position_in_range(position),
    {
        let x = div_floor_chunk(position.0);
        let y = div_floor_chunk(position.1);
        let z = div_floor_chunk(position.2);
        -16777216 <= x && x <= 16777214 && -16777216 <= y && y <= 16777214 && -16777216 <= z
            && z <= 16777214
    }

    /// The bounds of the chunk holding `position`.
    pub fn parse(position: BlockPosition) -> (bounds: ChunkBounds)
        requires
            position_in_range(position),
        ensures
            is_chunk(
                bounds,
                (
                    chunk_index(position.0 as int),
                    chunk_index(position.1 as int),
                    chunk_index(position.2 as int),
                ),
            ),
            bounds == spec_parse(position),
    {
        let x = div_floor_chunk(position.0);
        let y = div_floor_chunk(position.1);
        let z = div_floor_chunk(position.2);
        ChunkBounds::of_chunk((x as i32, y as i32, z as i32))
    }

    /// The eight corners of the box: `min` or `max` on x, then on y, then on
    /// z, with x varying slowest.
    pub fn corners(&self) -> (corners: [(i32, i32, i32); 8])
        ensures
            corners@ == seq![
                (self.min.0, self.min.1, self.min.2),
                (self.min.0, self.min.1, self.max.2),
                (self.min.0, self.max.1, self.min.2),
                (self.min.0, self.max.1, self.max.2),
                (self.max.0, self.min.1, self.min.2),
                (self.max.0, self.min.1, self.max.2),
                (self.max.0, self.max.1, self.min.2),
                (self.max.0, self.max.1, self.max.2),
            ],
    {
        let corners = [
            (self.min.0, self.min.1, self.min.2),
            (self.min.0, self.min.1, self.max.2),
            (self.min.0, self.max.1, self.min.2),
            (self.min.0, self.max.1, self.max.2),
            (self.max.0, self.min.1, self.min.2),
            (self.max.0, self.min.1, self.max.2),
            (self.max.0, self.max.1, self.min.2),
            (self.max.0, self.max.1, self.max.2),
        ];
        assert(corners@ =~= seq![
            (self.min.0, self.min.1, self.min.2),
            (self.min.0, self.min.1, self.max.2),
            (self.min.0, self.max.1, self.min.2),
            (self.min.0, self.max.1, self.max.2),
            (self.max.0, self.min.1, self.min.2),
            (self.max.0, self.min.1, self.max.2),
            (self.max.0, self.max.1, self.min.2),
            (self.max.0, self.max.1, self.max.2),
        ]);
        corners
    }

    /// Whether `position` lies inside the box.
    pub fn contains(&self, position: BlockPosition) -> (inside: bool)
        ensures
            inside == self.spec_contains(position),
    {
        position.0 >= self.min.0 as i64 && position.0 < self.max.0 as i64 && position.1
            >= self.min.1 as i64 && position.1 < self.max.1 as i64 && position.2 >= self.min.2 as i64
            && position.2 < self.max.2 as i64
    }
}


/// Law: a position lies in the chunk that `parse` gives it, and in no other
/// chunk: the chunk with index `c` contains `p` exactly when `c` is the chunk
/// index of `p` on every axis.
pub proof fn lemma_parse_contains(p: BlockPosition, c: (int, int, int))
    requires
        position_in_range(p),
        chunk_index_in_range(c.0),
        chunk_index_in_range(c.1),
        chunk_index_in_range(c.2),
    ensures
        spec_parse(p).spec_contains(p),
        spec_chunk(c).spec_contains(p) <==> c == (
            chunk_index(p.0 as int),
            chunk_index(p.1 as int),
            chunk_index(p.2 as int),
        ),
{
    lemma_axis_contains(p.0 as int, chunk_index(p.0 as int));
    lemma_axis_contains(p.1 as int, chunk_index(p.1 as int));
    lemma_axis_contains(p.2 as int, chunk_index(p.2 as int));
    lemma_axis_contains(p.0 as int, c.0);
    lemma_axis_contains(p.1 as int, c.1);
    lemma_axis_contains(p.2 as int, c.2);
}

proof fn lemma_axis_contains(a: int, c: int)
    ensures
        (128 * c <= a && a < 128 * (c + 1)) <==> c == chunk_index(a),
{
    vstd::arithmetic::div_mod::lemma_fundamental_div_mod(a, 128);
}

/// The chunks met along a line, before the chunk of the start is added: the
/// chunk of each sample that lies outside `current`, in order of first
/// appearance, each once.
pub open spec fn scan_line(current: ChunkBounds, samples: Seq<BlockPosition>) -> Seq<ChunkBounds>
    decreases samples.len(),
{
    if samples.len() == 0 {
        seq![]
    } else {
        let acc = scan_line(current, samples.drop_last());
        let p = samples.last();
        if current.spec_contains(p) || acc.contains(spec_parse(p)) {
            acc
        } else {
            acc.push(spec_parse(p))
        }
    }
}

/// The chunks met along a line that starts at `start` and passes the
/// `samples`: those of `scan_line`, then the chunk of the start if it is not
/// there yet.
pub open spec fn line_chunks(start: BlockPosition, samples: Seq<BlockPosition>) -> Seq<ChunkBounds> {
    let current = spec_parse(start);
    let acc = scan_line(current, samples);
    if acc.contains(current) {
        acc
    } else {
        acc.push(current)
    }
}

/// `b` is the chunk of some sample that lies outside `current`.
pub open spec fn is_chunk_of_outside_sample(
    current: ChunkBounds,
    samples: Seq<BlockPosition>,
    b: ChunkBounds,
) -> bool {
    exists|i: int|
        0 <= i < samples.len() && !current.spec_contains(samples[i]) && b == spec_parse(samples[i])
}

pub open spec fn all_in_range(samples: Seq<BlockPosition>) -> bool {
    forall|i: int| 0 <= i < samples.len() ==> position_in_range(#[trigger] samples[i])
}

pub open spec fn no_duplicates(s: Seq<ChunkBounds>) -> bool {
    forall|i: int, j: int| 0 <= i < j < s.len() ==> s[i] != s[j]
}

proof fn lemma_scan_line(current: ChunkBounds, samples: Seq<BlockPosition>)
    requires
        all_in_range(samples),
    ensures
        no_duplicates(scan_line(current, samples)),
        !scan_line(current, samples).contains(current),
        forall|k: int|
            0 <= k < scan_line(current, samples).len() ==> is_chunk_of_outside_sample(
                current,
                samples,
                #[trigger] scan_line(current, samples)[k],
            ),
        forall|i: int|
            0 <= i < samples.len() && !current.spec_contains(#[trigger] samples[i])
                ==> scan_line(current, samples).contains(spec_parse(samples[i])),
    decreases samples.len(),
{
    if samples.len() > 0 {
        let prefix = samples.drop_last();
        assert(all_in_range(prefix)) by {
            assert forall|i: int| 0 <= i < prefix.len() implies position_in_range(
                #[trigger] prefix[i],
            ) by {
                assert(prefix[i] == samples[i]);
            }
        }
        lemma_scan_line(current, prefix);
        let acc = scan_line(current, prefix);
        let p = samples.last();
        assert(position_in_range(samples[samples.len() - 1]));
        lemma_parse_contains(p, (0, 0, 0));
        let res = scan_line(current, samples);
        assert forall|k: int| 0 <= k < res.len() implies is_chunk_of_outside_sample(
            current,
            samples,
            #[trigger] res[k],
        ) by {
            if k < acc.len() {
                assert(res[k] == acc[k]);
                assert(is_chunk_of_outside_sample(current, prefix, acc[k]));
                let i = choose|i: int|
                    0 <= i < prefix.len() && !current.spec_contains(prefix[i]) && acc[k]
                        == spec_parse(prefix[i]);
                assert(prefix[i] == samples[i]);
            } else {
                assert(samples[samples.len() - 1] == p);
            }
        }
        assert forall|i: int|
            0 <= i < samples.len() && !current.spec_contains(#[trigger] samples[i]) implies res.contains(
            spec_parse(samples[i]),
        ) by {
            if i < prefix.len() {
                assert(prefix[i] == samples[i]);
                let w = choose|w: int| 0 <= w < acc.len() && acc[w] == spec_parse(prefix[i]);
                assert(res[w] == acc[w]);
            } else {
                if !acc.contains(spec_parse(p)) {
                    assert(res[res.len() - 1] == spec_parse(p));
                }
            }
        }
        if !current.spec_contains(p) && !acc.contains(spec_parse(p)) {
            assert(spec_parse(p) != current);
            assert forall|x: ChunkBounds| res.contains(x) implies x != current by {
                let w = choose|w: int| 0 <= w < res.len() && res[w] == x;
                if w < acc.len() {
                    assert(acc[w] == x);
                }
            }
        }
    }
}

impl ChunkBounds {
    /// The chunks that a line crosses. `start` is where the line begins and
    /// `samples` the points sampled along it, in order; both are rounded
    /// down to whole world units. The result holds, in order of first
    /// appearance and each once, the chunk of every sample that lies outside
    /// the chunk of `start`, and then the chunk of `start` itself.
    pub fn get_chunk_bounds_on_line(start: BlockPosition, samples: &Vec<BlockPosition>) -> (bounds:
        Vec<ChunkBounds>)
        requires
            position_in_range(start),
            all_in_range(samples@),
        ensures
            bounds@ == line_chunks(start, samples@),
            no_duplicates(bounds@),
            bounds@.len() >= 1,
            bounds@.last() == spec_parse(start),
            forall|k: int|
                0 <= k < bounds@.len() - 1 ==> is_chunk_of_outside_sample(
                    spec_parse(start),
                    samples@,
                    #[trigger] bounds@[k],
                ),
            forall|i: int|
                0 <= i < samples@.len() && !spec_parse(start).spec_contains(#[trigger] samples@[i])
                    ==> bounds@.contains(spec_parse(samples@[i])),
    {
        let current = ChunkBounds::parse(start);
        let mut bounds: Vec<ChunkBounds> = Vec::new();
        let mut i: usize = 0;
        while i < samples.len()
            invariant
                i <= samples.len(),
                current == spec_parse(start),
                all_in_range(samples@),
                bounds@ == scan_line(current, samples@.take(i as int)),
            decreases samples.len() - i,
        {
            let p = samples[i];
            proof {
                assert(samples@.take(i as int + 1).drop_last() == samples@.take(i as int));
                assert(samples@.take(i as int + 1).last() == p);
            }
            if !current.contains(p) {
                let chunk = ChunkBounds::parse(p);
                if !contains_chunk(&bounds, &chunk) {
                    bounds.push(chunk);
                }
            }
            i = i + 1;
        }
        proof {
            assert(samples@.take(samples@.len() as int) == samples@);
            lemma_scan_line(current, samples@);
        }
        if !contains_chunk(&bounds, &current) {
            bounds.push(current);
        }
        proof {
            let acc = scan_line(current, samples@);
            assert(bounds@ == acc.push(current));
            assert forall|k: int| 0 <= k < bounds@.len() - 1 implies is_chunk_of_outside_sample(
                spec_parse(start),
                samples@,
                #[trigger] bounds@[k],
            ) by {
                assert(bounds@[k] == acc[k]);
            }
            assert forall|i: int|
                0 <= i < samples@.len() && !spec_parse(start).spec_contains(
                    #[trigger] samples@[i],
                ) implies bounds@.contains(spec_parse(samples@[i])) by {
                let w = choose|w: int| 0 <= w < acc.len() && acc[w] == spec_parse(samples@[i]);
                assert(bounds@[w] == acc[w]);
            }
        }
        bounds
    }
}

/// Whether `chunk` occurs in `bounds`.
fn contains_chunk(bounds: &Vec<ChunkBounds>, chunk: &ChunkBounds) -> (found: bool)
    ensures
        found == bounds@.contains(*chunk),
{
    let mut i: usize = 0;
    while i < bounds.len()
        invariant
            i <= bounds.len(),
            forall|j: int| 0 <= j < i ==> bounds@[j] != *chunk,
        decreases bounds.len() - i,
    {
        if bounds[i] == *chunk {
            return true;
        }
        i = i + 1;
    }
    false
}

} // verus!
