use vstd::prelude::*;

verus! {

/// A chunk to generate: its chunk position and its level of detail.
#[derive(Debug, Clone, Copy, PartialEq, Eq)]
pub struct ChunkRequest {
    pub position: (i32, i32, i32),
    pub lod: usize,
}

/// Walks the chunks of one quadrant of the terrain, ring after ring around
/// the origin, out to `radius` rings. Four loaders, one per sign of
/// `x_dir` and `z_dir`, together cover every chunk around the origin.
///
/// `ring` is the current ring (starting at 1) and `offset` the position
/// along it; the chunk handed out is `(ring * x_dir, 0, offset)` when
/// `z_dir > 0` and `(offset * z_dir, 0, ring * x_dir)` otherwise.
pub struct ChunkLoader {
    radius: i32,
    x_dir: i32,
    z_dir: i32,
    ring: i32,
    offset: i32,
}

pub open spec fn abs(a: int) -> int {
    if a < 0 {
        -a
    } else {
        a
    }
}

pub open spec fn max(a: int, b: int) -> int {
    if a < b {
        b
    } else {
        a
    }
}

/// The loader's arithmetic stays within `i32` for these settings: with unit
/// directions any radius below `i32::MAX` does; with other directions the
/// products of the ring and offset with them must fit.
pub open spec fn loader_fits(radius: int, x_dir: int, z_dir: int) -> bool {
    ||| radius < 1
    ||| (unit(x_dir) && unit(z_dir) && radius < i32::MAX)
    ||| radius * (z_dir * z_dir + abs(x_dir) + abs(z_dir) + 2) <= i32::MAX
}

impl ChunkLoader {
    pub closed spec fn radius(self) -> int {
        self.radius as int
    }

    pub closed spec fn x_dir(self) -> int {
        self.x_dir as int
    }

    pub closed spec fn z_dir(self) -> int {
        self.z_dir as int
    }

    pub closed spec fn ring(self) -> int {
        self.ring as int
    }

    pub closed spec fn offset(self) -> int {
        self.offset as int
    }

    /// The loader is past its last ring and hands out nothing more.
    pub open spec fn is_done(self) -> bool {
        self.ring() > self.radius()
    }

    /// The range of offsets that the current ring walks through.
    pub open spec fn offset_in_ring(self) -> bool {
        let x = self.ring();
        let zd = self.z_dir();
        let z = self.offset();
        if zd > 0 {
            -(zd * x - 1) <= z && z <= zd * x
        } else if zd < 0 {
            zd * x <= z && z <= -(zd * x)
        } else {
            z == 0
        }
    }

    pub open spec fn wf(self) -> bool {
        &&& loader_fits(self.radius(), self.x_dir(), self.z_dir())
        &&& 1 <= self.ring()
        &&& self.radius() < 1 ==> self.ring() == 1
        &&& self.radius() >= 1 ==> self.ring() <= self.radius() + 1
        &&& !self.is_done() ==> self.offset_in_ring()
        &&& self.is_done() ==> self.offset() == 0
    }

    /// A loader at the start of its first ring.
    pub closed spec fn spec_new(radius: int, x_dir: int, z_dir: int) -> ChunkLoader {
        ChunkLoader {
            radius: radius as i32,
            x_dir: x_dir as i32,
            z_dir: z_dir as i32,
            ring: 1,
            offset: 0,
        }
    }

    /// The chunk handed out from the current state.
    pub open spec fn spec_emit(self) -> ChunkRequest {
        let x = self.ring();
        let z = self.offset();
        let position = if self.z_dir() > 0 {
            ((x * self.x_dir()) as i32, 0i32, z as i32)
        } else {
            ((z * self.z_dir()) as i32, 0i32, (x * self.x_dir()) as i32)
        };
        ChunkRequest { position, lod: max(abs(x), abs(z)) as usize }
    }

    /// The ring and offset after a step: the offset is mirrored to the
    /// other side of the axis; a ring ends when the mirrored offset reaches
    /// `-ring * z_dir`, otherwise a non-negative offset moves one further out.
    pub open spec fn next_position(x: int, z: int, z_dir: int) -> (int, int) {
        let z1 = -z;
        if z1 == -x * z_dir {
            (x + 1, 0)
        } else if z1 >= 0 {
            (x, z1 + 1)
        } else {
            (x, z1)
        }
    }

    /// The state after one call of `next_chunk`.
    pub closed spec fn spec_step(self) -> ChunkLoader {
        if self.is_done() {
            self
        } else {
            let (x, z) = ChunkLoader::next_position(
                self.ring(),
                self.offset(),
                self.z_dir(),
            );
            ChunkLoader { ring: x as i32, offset: z as i32, ..self }
        }
    }

    /// The state after `n` calls of `next_chunk`.
    pub open spec fn iterate(self, n: nat) -> ChunkLoader
        decreases n,
    {
        if n == 0 {
            self
        } else {
            self.iterate((n - 1) as nat).spec_step()
        }
    }

    pub proof fn lemma_step_facts(self)
        requires
            self.wf(),
        ensures
            self.spec_step().radius() == self.radius(),
            self.spec_step().x_dir() == self.x_dir(),
            self.spec_step().z_dir() == self.z_dir(),
            self.is_done() ==> self.spec_step() == self,
            !self.is_done() ==> (self.spec_step().ring(), self.spec_step().offset())
                == ChunkLoader::next_position(self.ring(), self.offset(), self.z_dir()),
    {
        if !self.is_done() {
            lemma_loader_bounds(self);
        }
    }

    pub proof fn lemma_new_facts(radius: int, x_dir: int, z_dir: int)
        requires
            i32::MIN <= radius <= i32::MAX,
            i32::MIN <= x_dir <= i32::MAX,
            i32::MIN <= z_dir <= i32::MAX,
        ensures
            ChunkLoader::spec_new(radius, x_dir, z_dir).radius() == radius,
            ChunkLoader::spec_new(radius, x_dir, z_dir).x_dir() == x_dir,
            ChunkLoader::spec_new(radius, x_dir, z_dir).z_dir() == z_dir,
            ChunkLoader::spec_new(radius, x_dir, z_dir).ring() == 1,
            ChunkLoader::spec_new(radius, x_dir, z_dir).offset() == 0,
    {
    }

    /// A loader for the quadrant given by the signs of `x_dir` and `z_dir`,
    /// out to `radius` rings.
    pub fn new(radius: i32, x_dir: i32, z_dir: i32) -> (loader: ChunkLoader)
        requires
            loader_fits(radius as int, x_dir as int, z_dir as int),
        ensures
            loader.wf(),
            loader == ChunkLoader::spec_new(radius as int, x_dir as int, z_dir as int),
            loader.radius() == radius,
            loader.x_dir() == x_dir,
            loader.z_dir() == z_dir,
            loader.ring() == 1,
            loader.offset() == 0,
    {
        proof {
            lemma_new_wf(radius as int, x_dir as int, z_dir as int);
        }
        ChunkLoader { radius, x_dir, z_dir, ring: 1, offset: 0 }
    }

    /// Hands out the next chunk of the walk, or `None` once every ring out
    /// to the radius has been walked.
    pub fn next_chunk(&mut self) -> (request: Option<ChunkRequest>)
        requires
            old(self).wf(),
        ensures
            final(self).wf(),
            old(self).is_done() ==> request is None,
            !old(self).is_done() ==> request == Some(old(self).spec_emit()),
            *final(self) == old(self).spec_step(),
    {
        if self.ring > self.radius {
            return None;
        }
        let x = self.ring;
        let z = self.offset;
        proof {
            lemma_loader_bounds(*self);
            lemma_step_wf(*self);
        }
        let position = if self.z_dir > 0 {
            (x * self.x_dir, 0i32, z)
        } else {
            (z * self.z_dir, 0i32, x * self.x_dir)
        };
        let az = if z < 0 {
            -z
        } else {
            z
        };
        let lod = if x < az {
            az as usize
        } else {
            x as usize
        };
        let z1 = -z;
        if z1 == -x * self.z_dir {
            self.ring = x + 1;
            self.offset = 0;
        } else if z1 >= 0 {
            self.offset = z1 + 1;
        } else {
            self.offset = z1;
        }
        Some(ChunkRequest { position, lod })
    }
}

proof fn lemma_new_wf(radius: int, x_dir: int, z_dir: int)
    requires
        loader_fits(radius, x_dir, z_dir),
        i32::MIN <= radius <= i32::MAX,
        i32::MIN <= x_dir <= i32::MAX,
        i32::MIN <= z_dir <= i32::MAX,
    ensures
        ChunkLoader::spec_new(radius, x_dir, z_dir).wf(),
{
    ChunkLoader::lemma_new_facts(radius, x_dir, z_dir);
    if radius >= 1 {
        assert(z_dir * z_dir >= 0) by (nonlinear_arith);
        assert(radius * (z_dir * z_dir + abs(x_dir) + abs(z_dir) + 2) >= radius * 2)
            by (nonlinear_arith)
            requires
                radius >= 1,
                z_dir * z_dir >= 0,
                abs(x_dir) >= 0,
                abs(z_dir) >= 0,
        ;
    }
    assert(z_dir * 1 == z_dir);
}

/// Multiplying by a unit direction keeps or flips the sign.
proof fn lemma_unit_mul(a: int, d: int)
    requires
        unit(d),
    ensures
        a * d == (if d == 1 {
            a
        } else {
            -a
        }),
{
    if d == 1 {
        assert(a * 1 == a) by (nonlinear_arith);
    } else {
        assert(a * (-1) == -a) by (nonlinear_arith);
    }
}

/// A step keeps the loader well formed.
proof fn lemma_step_wf(l: ChunkLoader)
    requires
        l.wf(),
    ensures
        l.spec_step().wf(),
{
    if !l.is_done() {
        let r = l.radius();
        let x = l.ring();
        let zd = l.z_dir();
        let z = l.offset();
        let n = l.spec_step();
        let z1 = -z;
        lemma_loader_bounds(l);
        assert((-x) * zd == -(x * zd)) by (nonlinear_arith);
        assert(x * zd == zd * x) by (nonlinear_arith);
        assert(zd == 0 ==> x * zd == 0) by (nonlinear_arith);
        if z1 == -x * zd {
            assert(n.ring() == x + 1 && n.offset() == 0);
            if x + 1 <= r {
                if zd > 0 {
                    assert(zd * (x + 1) >= 1) by (nonlinear_arith)
                        requires
                            zd > 0,
                            x >= 1,
                    ;
                } else if zd < 0 {
                    assert(zd * (x + 1) <= 0) by (nonlinear_arith)
                        requires
                            zd < 0,
                            x >= 1,
                    ;
                }
            }
        } else {
            assert(n.ring() == x);
            if zd > 0 {
                assert(zd * x >= 1) by (nonlinear_arith)
                    requires
                        zd > 0,
                        x >= 1,
                ;
            } else if zd < 0 {
                assert(zd * x <= -1) by (nonlinear_arith)
                    requires
                        zd < 0,
                        x >= 1,
                ;
            }
        }
    }
}

/// The products that `next_chunk` computes fit in `i32`.
proof fn lemma_loader_bounds(l: ChunkLoader)
    requires
        l.wf(),
        !l.is_done(),
    ensures
        abs(l.ring() * l.x_dir()) <= i32::MAX,
        abs(l.ring() * l.z_dir()) < i32::MAX,
        abs((-l.ring()) * l.z_dir()) < i32::MAX,
        abs(l.offset() * l.z_dir()) <= i32::MAX,
        abs(l.offset()) < i32::MAX,
        l.ring() < i32::MAX,
{
    let r = l.radius();
    let x = l.ring();
    let xd = l.x_dir();
    let zd = l.z_dir();
    let z = l.offset();
    if unit(xd) && unit(zd) && r < i32::MAX {
        lemma_unit_mul(x, xd);
        lemma_unit_mul(x, zd);
        lemma_unit_mul(-x, zd);
        lemma_unit_mul(z, zd);
    } else {
        assert(abs(z) <= abs(zd) * x) by (nonlinear_arith)
            requires
                zd > 0 ==> -(zd * x - 1) <= z && z <= zd * x,
                zd < 0 ==> zd * x <= z && z <= -(zd * x),
                zd == 0 ==> z == 0,
        ;
        assert((-x) * zd == -(x * zd)) by (nonlinear_arith);
        assert(abs(x * xd) <= r * abs(xd)) by (nonlinear_arith)
            requires
                1 <= x <= r,
        ;
        assert(abs(x * zd) <= r * abs(zd)) by (nonlinear_arith)
            requires
                1 <= x <= r,
        ;
        assert(abs(z * zd) <= r * (zd * zd)) by (nonlinear_arith)
            requires
                1 <= x <= r,
                abs(z) <= abs(zd) * x,
        ;
        assert(abs(z) <= r * abs(zd)) by (nonlinear_arith)
            requires
                1 <= x <= r,
                abs(z) <= abs(zd) * x,
        ;
        assert(r * (zd * zd + abs(xd) + abs(zd) + 2) == r * (zd * zd) + r * abs(xd) + r * abs(zd) + 2
            * r) by (nonlinear_arith);
        assert(r * (zd * zd) >= 0 && r * abs(xd) >= 0 && r * abs(zd) >= 0) by (nonlinear_arith)
            requires
                r >= 1,
        ;
    }
}

/// A loader direction of unit length.
pub open spec fn unit(d: int) -> bool {
    d == 1 || d == -1
}

/// The number of chunks in ring `x` of a loader with unit directions.
pub open spec fn ring_len(x: int, z_dir: int) -> int {
    if z_dir > 0 {
        2 * x
    } else {
        2 * x + 1
    }
}

/// The number of chunks handed out before ring `x` starts.
pub open spec fn ring_start(x: int, z_dir: int) -> int
    decreases x,
{
    if x <= 1 {
        0
    } else {
        ring_start(x - 1, z_dir) + ring_len(x - 1, z_dir)
    }
}

/// The offset at position `j` along a ring: 0, 1, -1, 2, -2, ...
pub open spec fn zorder(j: int) -> int {
    if j == 0 {
        0
    } else if j % 2 == 1 {
        (j + 1) / 2
    } else {
        -(j / 2)
    }
}

/// The position along a ring at which offset `z` comes.
pub open spec fn zorder_index(z: int) -> int {
    if z == 0 {
        0
    } else if z > 0 {
        2 * z - 1
    } else {
        -2 * z
    }
}

/// The quadrant directions `(x_dir, z_dir)` of the four loaders.
pub open spec fn quadrant(q: int) -> (int, int) {
    if q == 0 {
        (1, 1)
    } else if q == 1 {
        (-1, 1)
    } else if q == 2 {
        (1, -1)
    } else {
        (-1, -1)
    }
}

proof fn lemma_ring_start_nonneg(x: int, z_dir: int)
    ensures
        ring_start(x, z_dir) >= 0,
        x >= 1 ==> ring_start(x + 1, z_dir) == ring_start(x, z_dir) + ring_len(x, z_dir),
    decreases x,
{
    if x > 1 {
        lemma_ring_start_nonneg(x - 1, z_dir);
    }
}

proof fn lemma_zorder_index(z: int)
    ensures
        zorder(zorder_index(z)) == z,
        zorder_index(z) >= 0,
{
}

/// One step along a ring moves to the next offset, or to the next ring
/// after the last one.
proof fn lemma_ring_step(x: int, j: int, z_dir: int)
    requires
        unit(z_dir),
        1 <= x,
        0 <= j < ring_len(x, z_dir),
    ensures
        ChunkLoader::next_position(x, zorder(j), z_dir) == (if j + 1 < ring_len(x, z_dir) {
            (x, zorder(j + 1))
        } else {
            (x + 1, 0)
        }),
{
}

/// Calls of `next_chunk` keep the loader well formed and its settings.
proof fn lemma_iterate_wf(l: ChunkLoader, n: nat)
    requires
        l.wf(),
    ensures
        l.iterate(n).wf(),
        l.iterate(n).radius() == l.radius(),
        l.iterate(n).x_dir() == l.x_dir(),
        l.iterate(n).z_dir() == l.z_dir(),
    decreases n,
{
    if n > 0 {
        lemma_iterate_wf(l, (n - 1) as nat);
        let s = l.iterate((n - 1) as nat);
        lemma_step_wf(s);
        s.lemma_step_facts();
    }
}

/// A loader that is done stays done.
proof fn lemma_iterate_done(l: ChunkLoader, m: nat, n: nat)
    requires
        m <= n,
        l.iterate(m).is_done(),
    ensures
        l.iterate(n).is_done(),
        l.iterate(n) == l.iterate(m),
    decreases n - m,
{
    if n > m {
        lemma_iterate_done(l, m, (n - 1) as nat);
        let s = l.iterate((n - 1) as nat);
        assert(s.spec_step() == s) by {
            reveal(ChunkLoader::spec_step);
        }
    }
}

/// Starting from the first ring, the loader stands at ring `x`, offset
/// `zorder(j)` after `ring_start(x) + j` calls.
proof fn lemma_walk(l: ChunkLoader, x: int, j: int)
    requires
        l.wf(),
        l.ring() == 1,
        l.offset() == 0,
        unit(l.z_dir()),
        1 <= x <= l.radius(),
        0 <= j < ring_len(x, l.z_dir()),
    ensures
        l.iterate((ring_start(x, l.z_dir()) + j) as nat).ring() == x,
        l.iterate((ring_start(x, l.z_dir()) + j) as nat).offset() == zorder(j),
    decreases x, j,
{
    let zd = l.z_dir();
    lemma_ring_start_nonneg(x, zd);
    if j > 0 {
        lemma_walk(l, x, j - 1);
        let m = (ring_start(x, zd) + j - 1) as nat;
        let s = l.iterate(m);
        lemma_iterate_wf(l, m);
        s.lemma_step_facts();
        lemma_ring_step(x, j - 1, zd);
        assert(l.iterate((m + 1) as nat) == s.spec_step());
        assert((ring_start(x, zd) + j) as nat == (m + 1) as nat);
    } else if x > 1 {
        lemma_ring_start_nonneg(x - 1, zd);
        lemma_walk(l, x - 1, ring_len(x - 1, zd) - 1);
        let m = (ring_start(x - 1, zd) + ring_len(x - 1, zd) - 1) as nat;
        let s = l.iterate(m);
        lemma_iterate_wf(l, m);
        s.lemma_step_facts();
        lemma_ring_step(x - 1, ring_len(x - 1, zd) - 1, zd);
        assert(l.iterate((m + 1) as nat) == s.spec_step());
        assert((ring_start(x, zd) + j) as nat == (m + 1) as nat);
    }
}

/// Law: with unit directions, every chunk a loader hands out lies on the
/// plane `y == 0`, on the ring given by its level of detail, and that ring
/// is within the radius.
pub proof fn lemma_emit_in_radius(radius: i32, x_dir: i32, z_dir: i32, n: nat)
    requires
        loader_fits(radius as int, x_dir as int, z_dir as int),
        unit(x_dir as int),
        unit(z_dir as int),
        !ChunkLoader::spec_new(radius as int, x_dir as int, z_dir as int).iterate(n).is_done(),
    ensures
        ({
            let r = ChunkLoader::spec_new(radius as int, x_dir as int, z_dir as int).iterate(
                n,
            ).spec_emit();
            &&& r.position.1 == 0
            &&& 1 <= r.lod <= radius
            &&& r.lod as int == max(abs(r.position.0 as int), abs(r.position.2 as int))
        }),
{
    let l = ChunkLoader::spec_new(radius as int, x_dir as int, z_dir as int);
    ChunkLoader::lemma_new_facts(radius as int, x_dir as int, z_dir as int);
    lemma_new_wf(radius as int, x_dir as int, z_dir as int);
    lemma_iterate_wf(l, n);
    let s = l.iterate(n);
    lemma_unit_mul(s.ring(), s.x_dir());
    lemma_unit_mul(s.offset(), s.z_dir());
    lemma_unit_mul(s.ring(), s.z_dir());
    assert(abs(s.offset()) <= s.ring());
}

/// Law: a loader with unit directions hands out exactly
/// `ring_start(radius + 1)` chunks and then nothing more.
pub proof fn lemma_loader_count(radius: i32, x_dir: i32, z_dir: i32, n: nat)
    requires
        loader_fits(radius as int, x_dir as int, z_dir as int),
        unit(x_dir as int),
        unit(z_dir as int),
    ensures
        ChunkLoader::spec_new(radius as int, x_dir as int, z_dir as int).iterate(n).is_done()
            <==> n >= ring_start(radius + 1, z_dir as int),
{
    let l = ChunkLoader::spec_new(radius as int, x_dir as int, z_dir as int);
    ChunkLoader::lemma_new_facts(radius as int, x_dir as int, z_dir as int);
    lemma_new_wf(radius as int, x_dir as int, z_dir as int);
    let zd = z_dir as int;
    lemma_iterate_wf(l, n);
    if radius < 1 {
        assert(ring_start(radius + 1, zd) == 0);
        assert(l.iterate(0) == l);
        lemma_iterate_done(l, 0, n);
    } else {
        let total = ring_start(radius + 1, zd);
        lemma_ring_start_nonneg(radius as int, zd);
        lemma_ring_start_nonneg(radius as int + 1, zd);
        if n >= total {
            let m = (total - 1) as nat;
            lemma_walk(l, radius as int, ring_len(radius as int, zd) - 1);
            let s = l.iterate(m);
            lemma_iterate_wf(l, m);
            s.lemma_step_facts();
            lemma_ring_step(radius as int, ring_len(radius as int, zd) - 1, zd);
            assert(l.iterate((m + 1) as nat) == s.spec_step());
            lemma_iterate_done(l, (m + 1) as nat, n);
        } else {
            let (x, j) = lemma_decompose(n as int, radius as int, zd);
            lemma_walk(l, x, j);
        }
    }
}

/// Every count below `ring_start(radius + 1)` is a position `j` along some
/// ring `x` within the radius.
proof fn lemma_decompose(n: int, radius: int, z_dir: int) -> (xj: (int, int))
    requires
        radius >= 1,
        0 <= n < ring_start(radius + 1, z_dir),
        unit(z_dir),
    ensures
        1 <= xj.0 <= radius,
        0 <= xj.1 < ring_len(xj.0, z_dir),
        n == ring_start(xj.0, z_dir) + xj.1,
    decreases radius,
{
    lemma_ring_start_nonneg(radius, z_dir);
    if n >= ring_start(radius, z_dir) {
        (radius, n - ring_start(radius, z_dir))
    } else {
        let r = lemma_decompose(n, radius - 1, z_dir);
        r
    }
}

/// Law: the four quadrant loaders together hand out every chunk position
/// `(a, 0, b)` within `radius` rings of the origin, other than the origin
/// itself, each with its ring as level of detail.
pub proof fn lemma_loaders_cover(radius: i32, a: int, b: int)
    requires
        loader_fits(radius as int, 1, 1),
        1 <= max(abs(a), abs(b)) <= radius,
    ensures
        exists|q: int, n: nat|
            #![trigger ChunkLoader::spec_new(radius as int, quadrant(q).0, quadrant(q).1).iterate(n)]
            0 <= q < 4 && {
                let l = ChunkLoader::spec_new(radius as int, quadrant(q).0, quadrant(q).1);
                &&& !l.iterate(n).is_done()
                &&& l.iterate(n).spec_emit() == ChunkRequest {
                    position: (a as i32, 0i32, b as i32),
                    lod: max(abs(a), abs(b)) as usize,
                }
            },
{
    let m = max(abs(a), abs(b));
    let q: int = if b == -m {
        3
    } else if a == m {
        0
    } else if a == -m {
        1
    } else {
        2
    };
    let (xd, zd) = quadrant(q);
    let z = if q == 0 || q == 1 {
        b
    } else {
        -a
    };
    let j = zorder_index(z);
    lemma_zorder_index(z);
    let l = ChunkLoader::spec_new(radius as int, xd, zd);
    ChunkLoader::lemma_new_facts(radius as int, xd, zd);
    assert(loader_fits(radius as int, xd, zd));
    lemma_new_wf(radius as int, xd, zd);
    lemma_walk(l, m, j);
    lemma_ring_start_nonneg(m, zd);
    let n = (ring_start(m, zd) + j) as nat;
    lemma_iterate_wf(l, n);
    let s = l.iterate(n);
    assert(s.x_dir() == xd && s.z_dir() == zd);
    assert(s.ring() == m && s.offset() == z);
    lemma_unit_mul(m, xd);
    lemma_unit_mul(z, zd);
    assert(s.spec_emit() == ChunkRequest {
        position: (a as i32, 0i32, b as i32),
        lod: max(abs(a), abs(b)) as usize,
    });
}

/// The offset order visits each position along a ring once.
proof fn lemma_zorder_injective(j: int)
    requires
        j >= 0,
    ensures
        zorder_index(zorder(j)) == j,
{
}

/// The loader of quadrant `q` hands out the chunk position `p` on its `n`th
/// call (counting from 0).
pub open spec fn sends(radius: int, q: int, n: nat, p: (int, int, int)) -> bool {
    let s = ChunkLoader::spec_new(radius, quadrant(q).0, quadrant(q).1).iterate(n);
    &&& 0 <= q < 4
    &&& !s.is_done()
    &&& p == (
        s.spec_emit().position.0 as int,
        s.spec_emit().position.1 as int,
        s.spec_emit().position.2 as int,
    )
}

/// Where the loader of quadrant `q` stands when it hands out a chunk: on ring
/// `x` at offset `z`, after exactly `ring_start(x) + zorder_index(z)` calls,
/// handing out `(x * x_dir, 0, z)` when `z_dir > 0` and `(-z, 0, x * x_dir)`
/// otherwise (the directions are 1 or -1).
proof fn lemma_sent(radius: i32, q: int, n: nat, p: (int, int, int))
    requires
        loader_fits(radius as int, 1, 1),
        sends(radius as int, q, n, p),
    ensures
        ({
            let (xd, zd) = quadrant(q);
            let s = ChunkLoader::spec_new(radius as int, xd, zd).iterate(n);
            let x = s.ring();
            let z = s.offset();
            &&& 1 <= x <= radius
            &&& zd > 0 ==> -(x - 1) <= z <= x
            &&& zd < 0 ==> -x <= z <= x
            &&& n == ring_start(x, zd) + zorder_index(z)
            &&& p == if zd > 0 {
                (if xd > 0 { x } else { -x }, 0int, z)
            } else {
                (-z, 0int, if xd > 0 { x } else { -x })
            }
        }),
{
    let (xd, zd) = quadrant(q);
    assert(unit(xd) && unit(zd));
    assert(zd * zd == 1) by (nonlinear_arith)
        requires
            unit(zd),
    ;
    assert(loader_fits(radius as int, xd, zd));
    let l = ChunkLoader::spec_new(radius as int, xd, zd);
    ChunkLoader::lemma_new_facts(radius as int, xd, zd);
    lemma_new_wf(radius as int, xd, zd);
    lemma_iterate_wf(l, n);
    let s = l.iterate(n);
    lemma_loader_count(radius, xd as i32, zd as i32, n);
    let (x, j) = lemma_decompose(n as int, radius as int, zd);
    lemma_walk(l, x, j);
    lemma_zorder_injective(j);
    lemma_loader_bounds(s);
    lemma_unit_mul(s.ring(), xd);
    lemma_unit_mul(s.offset(), zd);
}

/// Law: each loader hands out a chunk position at most once, and two
/// loaders hand out the same position only at the corners `(r, 0int, r)`
/// (the loaders of quadrants 0 and 2) and `(-r, 0int, r)` (quadrants 1 and 2)
/// of a ring `r`.
pub proof fn lemma_sent_at_most_twice(
    radius: i32,
    q1: int,
    n1: nat,
    q2: int,
    n2: nat,
    p: (int, int, int),
)
    requires
        loader_fits(radius as int, 1, 1),
        sends(radius as int, q1, n1, p),
        sends(radius as int, q2, n2, p),
    ensures
        q1 == q2 ==> n1 == n2,
        q1 != q2 ==> {
            &&& 1 <= p.2 <= radius
            &&& p.1 == 0
            &&& (p.0 == p.2 && ((q1 == 0 && q2 == 2) || (q1 == 2 && q2 == 0)))
                || (p.0 == -p.2 && ((q1 == 1 && q2 == 2) || (q1 == 2 && q2 == 1)))
        },
{
    lemma_sent(radius, q1, n1, p);
    lemma_sent(radius, q2, n2, p);
}

/// Law: the corners `(r, 0int, r)` and `(-r, 0int, r)` of every ring within the
/// radius are handed out twice: `(r, 0int, r)` by the loaders of quadrants 0
/// and 2, `(-r, 0int, r)` by those of quadrants 1 and 2.
pub proof fn lemma_corners_sent_twice(radius: i32, r: int)
    requires
        loader_fits(radius as int, 1, 1),
        1 <= r <= radius,
    ensures
        exists|n0: nat, n2: nat|
            #[trigger] sends(radius as int, 0, n0, (r, 0int, r)) && #[trigger] sends(
                radius as int,
                2,
                n2,
                (r, 0int, r),
            ),
        exists|n1: nat, n2: nat|
            #[trigger] sends(radius as int, 1, n1, (-r, 0int, r)) && #[trigger] sends(
                radius as int,
                2,
                n2,
                (-r, 0int, r),
            ),
{
    let ra = radius as int;
    let la = ChunkLoader::spec_new(ra, 1, 1);
    let lb = ChunkLoader::spec_new(ra, -1, 1);
    let lc = ChunkLoader::spec_new(ra, 1, -1);
    ChunkLoader::lemma_new_facts(ra, 1, 1);
    ChunkLoader::lemma_new_facts(ra, -1, 1);
    ChunkLoader::lemma_new_facts(ra, 1, -1);
    lemma_new_wf(ra, 1, 1);
    lemma_new_wf(ra, -1, 1);
    lemma_new_wf(ra, 1, -1);
    lemma_ring_start_nonneg(r, 1);
    lemma_ring_start_nonneg(r, -1);
    let na = (ring_start(r, 1) + 2 * r - 1) as nat;
    let nb = (ring_start(r, 1) + 2 * r - 1) as nat;
    let nc = (ring_start(r, -1) + 2 * r) as nat;
    let nd = (ring_start(r, -1) + 2 * r - 1) as nat;
    lemma_walk(la, r, 2 * r - 1);
    lemma_walk(lb, r, 2 * r - 1);
    lemma_walk(lc, r, 2 * r);
    lemma_walk(lc, r, 2 * r - 1);
    lemma_iterate_wf(la, na);
    lemma_iterate_wf(lb, nb);
    lemma_iterate_wf(lc, nc);
    lemma_iterate_wf(lc, nd);
    lemma_loader_bounds(la.iterate(na));
    lemma_loader_bounds(lb.iterate(nb));
    lemma_loader_bounds(lc.iterate(nc));
    lemma_loader_bounds(lc.iterate(nd));
    assert(sends(ra, 0, na, (r, 0int, r)));
    assert(sends(ra, 2, nc, (r, 0int, r)));
    assert(sends(ra, 1, nb, (-r, 0int, r)));
    assert(sends(ra, 2, nd, (-r, 0int, r)));
}

/// The number of chunks before ring `x` in closed form: `x * (x - 1)` for a
/// loader walking towards positive z, `(x - 1) * (x + 1)` for the other.
proof fn lemma_ring_start_closed(x: int)
    requires
        x >= 1,
    ensures
        ring_start(x, 1) == x * (x - 1),
        ring_start(x, -1) == (x - 1) * (x + 1),
    decreases x,
{
    if x == 1 {
        assert(x * (x - 1) == 0 && (x - 1) * (x + 1) == 0) by (nonlinear_arith)
            requires
                x == 1,
        ;
    } else {
        lemma_ring_start_closed(x - 1);
        assert((x - 1) * (x - 2) + 2 * (x - 1) == x * (x - 1)) by (nonlinear_arith);
        assert((x - 2) * x + 2 * (x - 1) + 1 == (x - 1) * (x + 1)) by (nonlinear_arith);
    }
}

/// Law: a loader with unit directions and a radius `R >= 1` hands out
/// `R * (R + 1)` chunks when `z_dir > 0` and `R * (R + 2)` when `z_dir < 0`,
/// and then nothing more.
pub proof fn lemma_loader_total(radius: i32, x_dir: i32, z_dir: i32, n: nat)
    requires
        loader_fits(radius as int, x_dir as int, z_dir as int),
        unit(x_dir as int),
        unit(z_dir as int),
        radius >= 1,
    ensures
        ChunkLoader::spec_new(radius as int, x_dir as int, z_dir as int).iterate(n).is_done()
            <==> n >= if z_dir > 0 {
            radius * (radius + 1)
        } else {
            radius * (radius + 2)
        },
{
    lemma_loader_count(radius, x_dir, z_dir, n);
    lemma_ring_start_closed(radius + 1);
    assert((radius + 1) * (radius + 1 - 1) == radius * (radius + 1)) by (nonlinear_arith);
    assert((radius + 1 - 1) * (radius + 1 + 1) == radius * (radius + 2)) by (nonlinear_arith);
}

} // verus!
