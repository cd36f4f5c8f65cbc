use engine::terrain::chunk_bounds::ChunkBounds;
use engine::terrain::chunk_loader::{ChunkLoader, ChunkRequest};
use engine::terrain::chunk_map::ChunkMap;
use engine::terrain::dual_contouring::calculate_chunk_size;
use engine::terrain::marching_cubes::{configuration_index, triangle_edges};
use engine::terrain::{CHUNK_RADIUS, CHUNK_SIZE, USE_LOD};

#[test]
fn constants_match_the_terrain_settings() {
    assert_eq!(CHUNK_SIZE, 128);
    assert_eq!(CHUNK_RADIUS, 5);
    assert!(!USE_LOD);
}

#[test]
fn parse_positive_position() {
    let b = ChunkBounds::parse((10, 130, 255));
    assert_eq!(b.min, (0, 128, 128));
    assert_eq!(b.max, (128, 256, 256));
}

#[test]
fn parse_negative_position_rounds_down() {
    let b = ChunkBounds::parse((-1, -128, -129));
    assert_eq!(b.min, (-128, -128, -256));
    assert_eq!(b.max, (0, 0, -128));
}

#[test]
fn parse_at_the_edge_of_range() {
    let b = ChunkBounds::parse((-2147483648, 2147483391, 0));
    assert_eq!(b.min, (-2147483648, 2147483264, 0));
    assert_eq!(b.max, (-2147483520, 2147483392, 128));
}

#[test]
fn parsed_chunk_contains_position() {
    for p in [(0i64, 0i64, 0i64), (-1, 5, 300), (127, 128, -128), (1000, -1000, 64)] {
        let b = ChunkBounds::parse(p);
        assert!(b.contains(p));
        assert!(!b.contains((b.max.0 as i64, p.1, p.2)));
        assert!(!b.contains((p.0, b.min.1 as i64 - 1, p.2)));
    }
}

#[test]
fn of_chunk_matches_parse() {
    let b = ChunkBounds::of_chunk((2, 0, -3));
    assert_eq!(b, ChunkBounds::parse((256, 0, -384)));
    assert_eq!(b, ChunkBounds::parse((383, 127, -257)));
    assert_eq!(b.min, (256, 0, -384));
    assert_eq!(b.max, (384, 128, -256));
}

#[test]
fn contains_is_half_open() {
    let b = ChunkBounds { min: (0, 0, 0), max: (128, 128, 128) };
    assert!(b.contains((0, 0, 0)));
    assert!(b.contains((127, 127, 127)));
    assert!(!b.contains((128, 0, 0)));
    assert!(!b.contains((0, -1, 0)));
    assert!(!b.contains((0, 0, 128)));
}

#[test]
fn corners_in_frustum_order() {
    let b = ChunkBounds { min: (0, 1, 2), max: (10, 11, 12) };
    assert_eq!(
        b.corners(),
        [
            (0, 1, 2),
            (0, 1, 12),
            (0, 11, 2),
            (0, 11, 12),
            (10, 1, 2),
            (10, 1, 12),
            (10, 11, 2),
            (10, 11, 12),
        ]
    );
}

#[test]
fn line_inside_one_chunk_gives_that_chunk() {
    let samples = vec![(1, 1, 1), (5, 5, 5), (100, 2, 3)];
    let chunks = ChunkBounds::get_chunk_bounds_on_line((0, 0, 0), &samples);
    assert_eq!(chunks, vec![ChunkBounds::parse((0, 0, 0))]);
}

#[test]
fn line_across_chunks_lists_each_once_then_start() {
    let samples = vec![(10, 0, 0), (130, 0, 0), (200, 0, 0), (260, 0, 0), (140, 0, 0), (20, 0, 0)];
    let chunks = ChunkBounds::get_chunk_bounds_on_line((0, 0, 0), &samples);
    assert_eq!(
        chunks,
        vec![
            ChunkBounds::of_chunk((1, 0, 0)),
            ChunkBounds::of_chunk((2, 0, 0)),
            ChunkBounds::of_chunk((0, 0, 0)),
        ]
    );
}

#[test]
fn line_with_no_samples_gives_start_chunk() {
    let chunks = ChunkBounds::get_chunk_bounds_on_line((-5, 300, 7), &Vec::new());
    assert_eq!(chunks, vec![ChunkBounds::of_chunk((-1, 2, 0))]);
}

fn drain(mut loader: ChunkLoader) -> Vec<ChunkRequest> {
    let mut out = Vec::new();
    while let Some(r) = loader.next_chunk() {
        out.push(r);
    }
    assert_eq!(loader.next_chunk(), None);
    out
}

fn req(x: i32, z: i32, lod: usize) -> ChunkRequest {
    ChunkRequest { position: (x, 0, z), lod }
}

#[test]
fn loader_walks_first_quadrant() {
    let out = drain(ChunkLoader::new(2, 1, 1));
    assert_eq!(
        out,
        vec![req(1, 0, 1), req(1, 1, 1), req(2, 0, 2), req(2, 1, 2), req(2, -1, 2), req(2, 2, 2)]
    );
}

#[test]
fn loader_walks_last_quadrant() {
    let out = drain(ChunkLoader::new(1, -1, -1));
    assert_eq!(out, vec![req(0, -1, 1), req(-1, -1, 1), req(1, -1, 1)]);
}

#[test]
fn loader_counts() {
    for radius in 0..6i32 {
        let r = radius.max(0) as usize;
        assert_eq!(drain(ChunkLoader::new(radius, 1, 1)).len(), r * (r + 1));
        assert_eq!(drain(ChunkLoader::new(radius, -1, 1)).len(), r * (r + 1));
        assert_eq!(drain(ChunkLoader::new(radius, 1, -1)).len(), r * (r + 2));
        assert_eq!(drain(ChunkLoader::new(radius, -1, -1)).len(), r * (r + 2));
    }
}

#[test]
fn loader_with_negative_radius_hands_out_nothing() {
    assert!(drain(ChunkLoader::new(-3, 1, 1)).is_empty());
}

#[test]
fn four_loaders_cover_the_square() {
    let radius = 4;
    let mut seen = std::collections::HashSet::new();
    for (xd, zd) in [(1, 1), (-1, 1), (1, -1), (-1, -1)] {
        for r in drain(ChunkLoader::new(radius, xd, zd)) {
            assert_eq!(r.position.1, 0);
            let ring = r.position.0.abs().max(r.position.2.abs());
            assert_eq!(r.lod as i32, ring);
            assert!(1 <= ring && ring <= radius);
            seen.insert((r.position.0, r.position.2));
        }
    }
    for a in -radius..=radius {
        for b in -radius..=radius {
            if (a, b) != (0, 0) {
                assert!(seen.contains(&(a, b)), "missing {:?}", (a, b));
            }
        }
    }
}

#[test]
fn loader_with_other_directions() {
    let out = drain(ChunkLoader::new(1, 3, 2));
    assert_eq!(out, vec![req(3, 0, 1), req(3, 1, 1), req(3, -1, 1), req(3, 2, 2)]);
    let out = drain(ChunkLoader::new(2, 1, 0));
    assert_eq!(out, vec![ChunkRequest { position: (0, 0, 1), lod: 1 }, ChunkRequest { position: (0, 0, 2), lod: 2 }]);
}

#[test]
fn chunk_size_by_level_of_detail() {
    assert_eq!(calculate_chunk_size(0), 128);
    assert_eq!(calculate_chunk_size(1), 128);
    assert_eq!(calculate_chunk_size(2), 64);
    assert_eq!(calculate_chunk_size(4), 32);
    assert_eq!(calculate_chunk_size(10), 4);
    assert_eq!(calculate_chunk_size(11), 4);
    assert_eq!(calculate_chunk_size(12), 2);
    assert_eq!(calculate_chunk_size(127), 2);
}

#[test]
fn configuration_index_sets_a_bit_per_corner() {
    assert_eq!(configuration_index(&[false; 8]), 0);
    assert_eq!(configuration_index(&[true; 8]), 255);
    assert_eq!(configuration_index(&[true, false, false, false, false, false, false, false]), 1);
    assert_eq!(configuration_index(&[false, true, false, false, false, false, false, true]), 130);
    for k in 0..8 {
        let mut below = [false; 8];
        below[k] = true;
        assert_eq!(configuration_index(&below), 1u8 << k);
    }
}

#[test]
fn triangle_edges_stop_at_negative() {
    let row: [i8; 15] = [0, 8, 3, -1, -1, -1, -1, -1, -1, -1, -1, -1, -1, -1, -1];
    assert_eq!(triangle_edges(&row), vec![(0, 8, 3)]);
    let row: [i8; 15] = [1, 2, 10, 9, 2, 10, 11, 3, 4, -1, 0, 0, 0, 0, 0];
    assert_eq!(triangle_edges(&row), vec![(1, 2, 10), (9, 2, 10), (11, 3, 4)]);
    let row: [i8; 15] = [-1; 15];
    assert!(triangle_edges(&row).is_empty());
    let row: [i8; 15] = [0, 1, 2, 3, 4, 5, 6, 7, 8, 9, 10, 11, 0, 1, 2];
    assert_eq!(triangle_edges(&row).len(), 5);
}

#[test]
fn chunk_map_stores_and_replaces_by_bounds() {
    let mut chunks: ChunkMap<u32> = ChunkMap::new();
    assert_eq!(chunks.len(), 0);
    let a = ChunkBounds::of_chunk((0, 0, 0));
    let b = ChunkBounds::of_chunk((1, 0, -1));
    assert!(chunks.get(&a).is_none());
    chunks.insert(a, 7);
    chunks.insert(b, 9);
    assert_eq!(chunks.len(), 2);
    assert_eq!(chunks.get(&a), Some(&7));
    assert_eq!(chunks.get(&b), Some(&9));
    chunks.insert(a, 11);
    assert_eq!(chunks.len(), 2);
    assert_eq!(chunks.get(&a), Some(&11));
    assert_eq!(chunks.get(&b), Some(&9));
    assert!(chunks.get(&ChunkBounds::of_chunk((2, 0, 0))).is_none());
}

#[test]
fn chunk_map_get_at_walks_the_entries() {
    let mut chunks: ChunkMap<u32> = ChunkMap::new();
    let a = ChunkBounds::of_chunk((-1, 0, 3));
    let b = ChunkBounds::of_chunk((4, 0, 0));
    chunks.insert(a, 1);
    chunks.insert(b, 2);
    chunks.insert(a, 5);
    let mut seen = Vec::new();
    for i in 0..chunks.len() {
        let (bounds, value) = chunks.get_at(i);
        seen.push((*bounds, *value));
    }
    assert_eq!(seen, vec![(a, 5), (b, 2)]);
}

#[test]
fn position_fits_marks_the_parsable_range() {
    assert!(ChunkBounds::position_fits((0, 0, 0)));
    assert!(ChunkBounds::position_fits((-2147483648, 0, 2147483519)));
    assert!(!ChunkBounds::position_fits((2147483520, 0, 0)));
    assert!(!ChunkBounds::position_fits((0, -2147483649, 0)));
    assert!(!ChunkBounds::position_fits((0, 0, i64::MAX)));
}

#[test]
fn four_loaders_send_only_the_top_corners_twice() {
    let radius = 4;
    let mut counts = std::collections::HashMap::new();
    let mut by_quadrant = std::collections::HashMap::new();
    for (q, (xd, zd)) in [(1, 1), (-1, 1), (1, -1), (-1, -1)].into_iter().enumerate() {
        for r in drain(ChunkLoader::new(radius, xd, zd)) {
            *counts.entry((r.position.0, r.position.2)).or_insert(0) += 1;
            by_quadrant.entry((r.position.0, r.position.2)).or_insert_with(Vec::new).push(q);
        }
    }
    for a in -radius..=radius {
        for b in -radius..=radius {
            if (a, b) == (0, 0) {
                continue;
            }
            let corner = b >= 1 && (a == b || a == -b);
            assert_eq!(counts[&(a, b)], if corner { 2 } else { 1 }, "at {:?}", (a, b));
        }
    }
    for r in 1..=radius {
        assert_eq!(by_quadrant[&(r, r)], vec![0, 2]);
        assert_eq!(by_quadrant[&(-r, r)], vec![1, 2]);
    }
    let total: usize = counts.values().sum();
    assert_eq!(total, 2 * 4 * 5 + 2 * 4 * 6);
}

#[test]
fn loader_with_the_largest_radius_starts_normally() {
    let mut loader = ChunkLoader::new(i32::MAX - 1, -1, -1);
    assert_eq!(loader.next_chunk(), Some(req(0, -1, 1)));
    assert_eq!(loader.next_chunk(), Some(req(-1, -1, 1)));
    assert_eq!(loader.next_chunk(), Some(req(1, -1, 1)));
}
