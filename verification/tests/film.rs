use pt::bbox::BBox2;
use pt::film::{film_pixel_offset, tile_pixel_offset, FilmTileIter};
use pt::vector::Point2;

/// The box of pixels that a film of the given resolution samples with a
/// filter of the given radius: half a pixel in from the corners, widened by
/// the radius, rounded outward.
fn sample_bbox(res_x: u32, res_y: u32, filter_radius: f32) -> BBox2<i32> {
    BBox2::new(
        Point2::new(
            (0. + 0.5 - filter_radius).floor() as i32,
            (0. + 0.5 - filter_radius).floor() as i32,
        ),
        Point2::new(
            (res_x as f32 - 0.5 + filter_radius).ceil() as i32,
            (res_y as f32 - 0.5 + filter_radius).ceil() as i32,
        ),
    )
}

fn count_tiles(mut it: FilmTileIter) -> usize {
    let mut n = 0;
    while let Some(_tile) = it.next() {
        n += 1;
    }
    n
}

#[test]
fn test_film_tile_iter() {
    let n = count_tiles(FilmTileIter::new(sample_bbox(0, 40, 0.)));
    assert_eq!(n, 0);

    let n = count_tiles(FilmTileIter::new(sample_bbox(40, 0, 0.)));
    assert_eq!(n, 0);

    let mut film_iter = FilmTileIter::new(sample_bbox(40, 40, 0.));
    let tiles = [
        BBox2 { min: Point2 { x: 0, y: 0 }, max: Point2 { x: 16, y: 16 } }, BBox2 { min: Point2 { x: 16, y: 0 }, max: Point2 { x: 32, y: 16 } }, BBox2 { min: Point2 { x: 32, y: 0 }, max: Point2 { x: 40, y: 16 } },
        BBox2 { min: Point2 { x: 0, y: 16 }, max: Point2 { x: 16, y: 32 } }, BBox2 { min: Point2 { x: 16, y: 16 }, max: Point2 { x: 32, y: 32 } }, BBox2 { min: Point2 { x: 32, y: 16 }, max: Point2 { x: 40, y: 32 } },
        BBox2 { min: Point2 { x: 0, y: 32 }, max: Point2 { x: 16, y: 40 } }, BBox2 { min: Point2 { x: 16, y: 32 }, max: Point2 { x: 32, y: 40 } }, BBox2 { min: Point2 { x: 32, y: 32 }, max: Point2 { x: 40, y: 40 } },
    ];
    let mut n = 0;
    while let Some(tile) = film_iter.next() {
        assert_eq!(tile.min, tiles[n].min);
        assert_eq!(tile.max, tiles[n].max);
        n += 1;
    }
    assert_eq!(n, tiles.len());
}

#[test]
fn film_tiles_cover_each_pixel_once() {
    let bbox = BBox2::new(Point2::new(-3, 5), Point2::new(37, 22));
    let mut it = FilmTileIter::new(bbox);
    let mut hits = vec![0u32; 40 * 17];
    while let Some(t) = it.next() {
        assert!(t.min.x < t.max.x && t.min.y < t.max.y);
        assert!(t.max.x - t.min.x <= 16 && t.max.y - t.min.y <= 16);
        for y in t.min.y..t.max.y {
            for x in t.min.x..t.max.x {
                hits[((y - 5) * 40 + (x + 3)) as usize] += 1;
            }
        }
    }
    assert!(hits.iter().all(|&h| h == 1));
    // Once exhausted, the iterator stays exhausted.
    assert!(it.next().is_none());
    assert!(it.next().is_none());
}

#[test]
fn film_tiles_of_filtered_film() {
    // A filter radius of two widens the sampled box by two pixels.
    let bbox = sample_bbox(16, 16, 2.);
    assert_eq!(bbox.min, Point2::new(-2, -2));
    assert_eq!(bbox.max, Point2::new(18, 18));
    assert_eq!(count_tiles(FilmTileIter::new(bbox)), 4);
}

#[test]
fn tile_pixel_offsets_are_row_major() {
    let bbox = BBox2::new(Point2::new(16, 32), Point2::new(32, 40));
    assert_eq!(tile_pixel_offset(bbox, 16, 32), 0);
    assert_eq!(tile_pixel_offset(bbox, 17, 32), 1);
    assert_eq!(tile_pixel_offset(bbox, 16, 33), 16);
    assert_eq!(tile_pixel_offset(bbox, 31, 39), 127);
    // Every pixel of the tile gets its own offset below the tile's area.
    let mut seen = vec![false; 128];
    for y in 32..40 {
        for x in 16..32 {
            let o = tile_pixel_offset(bbox, x, y);
            assert!(!seen[o]);
            seen[o] = true;
        }
    }
    assert!(seen.iter().all(|&s| s));
    // A pixel left of the tile has a negative offset, which wraps around.
    assert_eq!(tile_pixel_offset(bbox, 15, 32), usize::MAX);
}

#[test]
fn film_pixel_offsets_are_row_major() {
    let res = Point2::new(40, 30);
    assert_eq!(film_pixel_offset(res, Point2::new(0, 0)), 0);
    assert_eq!(film_pixel_offset(res, Point2::new(39, 0)), 39);
    assert_eq!(film_pixel_offset(res, Point2::new(0, 1)), 40);
    assert_eq!(film_pixel_offset(res, Point2::new(39, 29)), 1199);
    assert_eq!(film_pixel_offset(res, Point2::new(-1, 0)), usize::MAX);
}
