use mic::covers::{
    can_resize, centroid_colors, palette_of, resize_rgb, ImageCache, MAX_SIDE, PALETTE_ROUNDS, PALETTE_SIZE,
    THUMBNAIL_SIZE,
};
use mic::data::points_of;
use mic::error::ErrorKind;
use mic::kmeans::{
    assign_to_clusters, centroids_of, k_means, k_means_from, nearest_centroid, squared_distance,
    update_centroids, Cluster, Point,
};

fn point(x: u8, y: u8, shade: u8) -> Point {
    Point { x, y, color: (shade, shade, shade) }
}

fn checkerboard() -> Vec<Point> {
    vec![point(0, 0, 0), point(1, 0, 255), point(0, 1, 255), point(1, 1, 0)]
}

#[test]
fn squared_distance_is_over_positions() {
    assert_eq!(squared_distance(&point(0, 0, 1), &point(3, 4, 200)), 25);
    assert_eq!(squared_distance(&point(255, 255, 0), &point(0, 0, 0)), 130050);
    assert_eq!(squared_distance(&point(7, 9, 0), &point(7, 9, 255)), 0);
    assert_eq!(squared_distance(&point(0, 10, 0), &point(10, 0, 0)), 200);
}

#[test]
fn the_first_of_equally_near_centroids_wins() {
    let cents = vec![point(0, 0, 1), point(10, 10, 2), point(0, 0, 3)];
    assert_eq!(nearest_centroid(&cents, &point(1, 1, 0)), 0);
    assert_eq!(nearest_centroid(&cents, &point(9, 9, 0)), 1);
    assert_eq!(nearest_centroid(&cents, &point(10, 0, 0)), 0);
    assert_eq!(nearest_centroid(&cents, &point(5, 5, 0)), 0);
    assert_eq!(nearest_centroid(&vec![point(4, 4, 0)], &point(200, 200, 0)), 0);
}

#[test]
fn assignment_gives_every_point_to_one_cluster() {
    let points = vec![point(0, 0, 10), point(10, 0, 20), point(0, 10, 30), point(10, 10, 40), point(9, 9, 50)];
    let mut clusters = vec![
        Cluster { centroid: point(0, 0, 1), points: vec![point(99, 99, 99)] },
        Cluster { centroid: point(10, 10, 2), points: Vec::new() },
        Cluster { centroid: point(200, 200, 3), points: Vec::new() },
    ];
    assign_to_clusters(&points, &mut clusters);
    assert_eq!(clusters.len(), 3);
    assert_eq!(clusters[0].points, vec![point(0, 0, 10), point(10, 0, 20), point(0, 10, 30)]);
    assert_eq!(clusters[1].points, vec![point(10, 10, 40), point(9, 9, 50)]);
    assert!(clusters[2].points.is_empty());
    assert_eq!(centroids_of(&clusters), vec![point(0, 0, 1), point(10, 10, 2), point(200, 200, 3)]);
}

#[test]
fn assignment_without_clusters_does_nothing() {
    let mut none: Vec<Cluster> = Vec::new();
    assign_to_clusters(&checkerboard(), &mut none);
    assert!(none.is_empty());
}

#[test]
fn a_centroid_moves_to_the_mean_and_keeps_its_colour() {
    let mut cluster = Cluster {
        centroid: Point { x: 50, y: 60, color: (1, 2, 3) },
        points: vec![point(0, 0, 9), point(10, 0, 9), point(0, 10, 9)],
    };
    cluster.update_centroid();
    assert_eq!(cluster.centroid, Point { x: 3, y: 3, color: (1, 2, 3) });
    assert_eq!(cluster.points.len(), 3);
    let mut high = Cluster { centroid: point(0, 0, 0), points: vec![point(255, 255, 0), point(255, 254, 0)] };
    high.update_centroid();
    assert_eq!((high.centroid.x, high.centroid.y), (255, 254));
}

#[test]
fn a_centroid_without_points_stays() {
    let mut cluster = Cluster { centroid: Point { x: 50, y: 60, color: (1, 2, 3) }, points: Vec::new() };
    cluster.update_centroid();
    assert_eq!(cluster.centroid, Point { x: 50, y: 60, color: (1, 2, 3) });
    let moved = update_centroids(vec![cluster]);
    assert_eq!(moved[0].centroid, Point { x: 50, y: 60, color: (1, 2, 3) });
}

#[test]
fn one_round_from_given_centroids() {
    let points = vec![point(0, 0, 10), point(10, 0, 20), point(0, 10, 30), point(10, 10, 40)];
    let clusters = k_means_from(&points, vec![point(0, 0, 1), point(10, 10, 2)], 1);
    assert_eq!(clusters.len(), 2);
    assert_eq!(clusters[0].points, vec![point(0, 0, 10), point(10, 0, 20), point(0, 10, 30)]);
    assert_eq!(clusters[1].points, vec![point(10, 10, 40)]);
    assert_eq!(clusters[0].centroid, point(3, 3, 1));
    assert_eq!(clusters[1].centroid, point(10, 10, 2));
}

#[test]
fn two_rounds_assign_by_the_centroids_of_the_first() {
    let points = vec![point(0, 0, 10), point(1, 0, 20), point(2, 0, 30), point(10, 0, 40)];
    let start = vec![point(0, 0, 1), point(1, 0, 2)];
    let once = k_means_from(&points, start.clone(), 1);
    assert_eq!(once[0].points, vec![point(0, 0, 10)]);
    assert_eq!(once[1].points, vec![point(1, 0, 20), point(2, 0, 30), point(10, 0, 40)]);
    assert_eq!(once[0].centroid, point(0, 0, 1));
    assert_eq!(once[1].centroid, point(4, 0, 2));
    // in round two the point at 2 is as near to 0 as to 4, and the first wins
    let twice = k_means_from(&points, start, 2);
    assert_eq!(twice[0].points, vec![point(0, 0, 10), point(1, 0, 20), point(2, 0, 30)]);
    assert_eq!(twice[1].points, vec![point(10, 0, 40)]);
    assert_eq!(twice[0].centroid, point(1, 0, 1));
    assert_eq!(twice[1].centroid, point(10, 0, 2));
}

#[test]
fn no_round_leaves_the_clusters_empty() {
    let clusters = k_means_from(&checkerboard(), vec![point(5, 5, 7)], 0);
    assert_eq!(clusters.len(), 1);
    assert_eq!(clusters[0].centroid, point(5, 5, 7));
    assert!(clusters[0].points.is_empty());
}

#[test]
fn clusters_part_a_checkerboard() {
    for _ in 0..50 {
        let points = checkerboard();
        let clusters = k_means(points.clone(), 3, 10).unwrap();
        assert_eq!(clusters.len(), 3);
        let total: usize = clusters.iter().map(|c| c.points.len()).sum();
        assert_eq!(total, points.len());
        for p in &points {
            let homes = clusters.iter().filter(|c| c.points.contains(p)).count();
            assert_eq!(homes, 1);
        }
        for c in &clusters {
            assert!(c.centroid.color == (0, 0, 0) || c.centroid.color == (255, 255, 255));
            for p in &c.points {
                assert!(points.contains(p));
            }
        }
    }
}

#[test]
fn clusters_start_from_points_of_the_input() {
    let points = vec![point(3, 4, 77)];
    let clusters = k_means(points, 4, 3).unwrap();
    assert_eq!(clusters.len(), 4);
    for c in &clusters {
        assert_eq!(c.centroid, point(3, 4, 77));
    }
    assert_eq!(clusters[0].points, vec![point(3, 4, 77)]);
    assert!(clusters[1].points.is_empty());
}

#[test]
fn clustering_no_points_fails() {
    assert!(matches!(k_means(Vec::new(), 3, 10), Err(ErrorKind::EmptyImage)));
    assert!(matches!(k_means(Vec::new(), 0, 0), Err(ErrorKind::EmptyImage)));
}

#[test]
fn clustering_into_no_clusters_gives_none() {
    assert!(k_means(checkerboard(), 0, 10).unwrap().is_empty());
}

#[test]
fn centroid_colors_follow_the_clusters() {
    let clusters = vec![
        Cluster { centroid: Point { x: 0, y: 0, color: (1, 2, 3) }, points: Vec::new() },
        Cluster { centroid: Point { x: 0, y: 0, color: (4, 5, 6) }, points: Vec::new() },
    ];
    assert_eq!(centroid_colors(&clusters), vec![(1, 2, 3), (4, 5, 6)]);
}

#[test]
fn a_palette_has_five_colours_of_the_image() {
    let pixels: Vec<u8> = vec![10, 20, 30, 40, 50, 60, 70, 80, 90, 100, 110, 120];
    let colors = palette_of(&pixels, 2).unwrap();
    assert_eq!(colors.len(), PALETTE_SIZE);
    assert_eq!(PALETTE_SIZE, 5);
    assert_eq!(PALETTE_ROUNDS, 10);
    let points = points_of(&pixels, 2);
    for color in colors {
        assert!(points.iter().any(|p| p.color == color));
    }
}

#[test]
fn an_image_without_a_pixel_has_no_palette() {
    assert_eq!(palette_of(&Vec::new(), 2), Err(ErrorKind::EmptyImage));
    assert_eq!(palette_of(&vec![1, 2], 2), Err(ErrorKind::EmptyImage));
    assert_eq!(palette_of(&vec![1, 2, 3], 0), Err(ErrorKind::EmptyImage));
    assert!(ImageCache::from_pixels(0, 0, Vec::new()).is_err());
}

#[test]
fn an_image_cache_keeps_the_pixels() {
    let pixels: Vec<u8> = vec![9, 9, 9, 200, 200, 200];
    let cache = ImageCache::from_pixels(2, 1, pixels.clone()).unwrap();
    assert_eq!((cache.width, cache.height), (2, 1));
    assert_eq!(cache.pixels, pixels);
    assert_eq!(cache.dominant_colors.len(), 5);
    for color in cache.dominant_colors {
        assert!(color == (9, 9, 9) || color == (200, 200, 200));
    }
}

#[test]
fn a_decoded_image_becomes_a_thumbnail_with_a_palette() {
    let mut pixels: Vec<u8> = Vec::new();
    for _row in 0..4 {
        for column in 0..8 {
            pixels.extend_from_slice(if column < 4 { &[250, 10, 10] } else { &[10, 10, 250] });
        }
    }
    let cache = ImageCache::from(8, 4, pixels).unwrap();
    assert_eq!(THUMBNAIL_SIZE, 480);
    assert_eq!((cache.width, cache.height), (480, 480));
    assert_eq!(cache.pixels.len(), 3 * 480 * 480);
    assert_eq!(cache.dominant_colors.len(), 5);
    assert_eq!(&cache.pixels[0..3], &[250, 10, 10]);
    let last = cache.pixels.len() - 3;
    assert_eq!(&cache.pixels[last..], &[10, 10, 250]);
    let points = points_of(&cache.pixels, 480);
    for color in &cache.dominant_colors {
        assert!(points.iter().any(|p| p.color == *color));
    }
}

#[test]
fn a_thumbnail_is_what_the_image_crate_resizes_to() {
    let pixels: Vec<u8> = (0..(3 * 6 * 5)).map(|k| (k * 7 % 256) as u8).collect();
    let cache = ImageCache::from(6, 5, pixels.clone()).unwrap();
    let source = image::RgbImage::from_vec(6, 5, pixels).unwrap();
    let expected = image::imageops::resize(&source, 480, 480, image::imageops::FilterType::Triangle).into_raw();
    assert_eq!(cache.pixels, expected);
}

#[test]
fn an_image_of_the_size_of_a_thumbnail_stays_as_it_is() {
    let pixels: Vec<u8> = (0..(3 * 480 * 480)).map(|k| (k % 251) as u8).collect();
    let cache = ImageCache::from(480, 480, pixels.clone()).unwrap();
    assert_eq!(cache.pixels, pixels);
}

#[test]
fn an_image_that_cannot_be_resized_has_no_thumbnail() {
    assert!(matches!(ImageCache::from(0, 0, Vec::new()), Err(ErrorKind::EmptyImage)));
    assert!(matches!(ImageCache::from(0, 5, vec![1, 2, 3]), Err(ErrorKind::EmptyImage)));
    assert!(matches!(ImageCache::from(5, 0, vec![1, 2, 3]), Err(ErrorKind::EmptyImage)));
    assert!(matches!(ImageCache::from(2, 2, vec![0; 11]), Err(ErrorKind::BrokenCover)));
    assert!(ImageCache::from(2, 2, vec![0; 12]).is_ok());
    assert!(ImageCache::from(2, 2, vec![0; 13]).is_ok());
}

#[test]
fn resizing_goes_by_the_sizes() {
    assert_eq!(resize_rgb(1, 1, &vec![9, 8, 7], 3, 2), Ok(vec![9, 8, 7, 9, 8, 7, 9, 8, 7, 9, 8, 7, 9, 8, 7, 9, 8, 7]));
    assert_eq!(resize_rgb(2, 1, &vec![10, 10, 10, 30, 30, 30], 1, 1), Ok(vec![20, 20, 20]));
    assert_eq!(resize_rgb(1, 1, &vec![9, 8, 7], 0, 2), Err(ErrorKind::EmptyImage));
    assert_eq!(resize_rgb(1, 1, &vec![9, 8, 7], 2, 0), Err(ErrorKind::EmptyImage));
    assert_eq!(resize_rgb(1, 2, &vec![9, 8, 7], 2, 2), Err(ErrorKind::BrokenCover));
    assert!(mic::covers::can_resize(4000, 4000, 480, 480));
    assert!(!mic::covers::can_resize(u32::MAX, 1, u32::MAX, u32::MAX));
    assert_eq!(resize_rgb(u32::MAX, 1, &Vec::new(), u32::MAX, u32::MAX), Err(ErrorKind::OversizedCanvas));
}

#[test]
fn no_side_of_a_resized_image_is_longer_than_the_limit() {
    assert_eq!(MAX_SIDE, 65_535);
    assert!(can_resize(MAX_SIDE, 1, 1, 1));
    assert!(can_resize(1, MAX_SIDE, 1, 1));
    assert!(can_resize(1, 1, MAX_SIDE, 1));
    assert!(can_resize(1, 1, 1, MAX_SIDE));
    assert!(!can_resize(MAX_SIDE + 1, 1, 1, 1));
    assert!(!can_resize(1, MAX_SIDE + 1, 1, 1));
    assert!(!can_resize(1, 1, MAX_SIDE + 1, 1));
    assert!(!can_resize(1, 1, 1, MAX_SIDE + 1));
    let row = vec![7u8; 3 * 65_536];
    assert_eq!(resize_rgb(65_536, 1, &row, 1, 1), Err(ErrorKind::OversizedCanvas));
    assert_eq!(resize_rgb(1, 1, &vec![9, 8, 7], 65_536, 1), Err(ErrorKind::OversizedCanvas));
    assert_eq!(resize_rgb(33_554_435, 1, &Vec::new(), 67_108_864, 1), Err(ErrorKind::OversizedCanvas));
    assert!(matches!(ImageCache::from(65_536, 1, row), Err(ErrorKind::OversizedCanvas)));
}

#[test]
fn an_image_of_the_longest_side_is_resized() {
    let row = vec![7u8; 3 * 65_535];
    assert_eq!(resize_rgb(65_535, 1, &row, 2, 1), Ok(vec![7; 6]));
    assert_eq!(resize_rgb(65_535, 1, &row, 65_534, 1), Ok(vec![7; 3 * 65_534]));
    let wide = resize_rgb(3, 1, &vec![0, 0, 0, 100, 100, 100, 200, 200, 200], 65_535, 1).unwrap();
    assert_eq!(wide.len(), 3 * 65_535);
    assert_eq!(&wide[..3], &[0, 0, 0]);
    assert_eq!(&wide[3 * 65_534..], &[200, 200, 200]);
    let tall = resize_rgb(1, 2, &vec![0, 0, 0, 200, 200, 200], 1, 65_535).unwrap();
    assert_eq!(&tall[..3], &[0, 0, 0]);
    assert_eq!(&tall[3 * 65_534..], &[200, 200, 200]);
}
