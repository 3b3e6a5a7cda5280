use tiled_renderer::partition::{partition, row_span, PixelRange};

fn start_lin(r: &PixelRange, width: usize) -> usize {
    r.start_x + r.start_y * width
}

fn end_lin(r: &PixelRange, width: usize) -> usize {
    r.end_x + r.end_y * width
}

#[test]
fn partition_four_workers_single_row() {
    // A 100 x 1 image split four ways covers x in [0,25), [25,50),
    // [50,75), [75,100) on row 0 exactly.
    let expected = [(0usize, 25usize), (25, 50), (50, 75), (75, 100)];
    for i in 0..4 {
        let r = partition(100, 1, 4, i);
        assert_eq!(start_lin(&r, 100), expected[i].0);
        assert_eq!(end_lin(&r, 100), expected[i].1);
    }
    let first = partition(100, 1, 4, 0);
    assert_eq!(first.start_x, 0);
    assert_eq!(first.start_y, 0);
    assert_eq!(first.end_x, 25);
    assert_eq!(first.end_y, 0);
}

#[test]
fn partition_is_deterministic() {
    let a = partition(640, 480, 7, 3);
    let b = partition(640, 480, 7, 3);
    assert_eq!(a, b);
}

#[test]
fn partition_covers_every_pixel_exactly_once() {
    for &(w, h, n) in &[
        (1usize, 1usize, 1usize),
        (4, 4, 1),
        (4, 4, 3),
        (100, 1, 4),
        (7, 5, 4),
        (5, 7, 6),
        (16, 9, 5),
        (3, 3, 8),
    ] {
        let mut hits = vec![0u32; w * h];
        for i in 0..n {
            let r = partition(w, h, n, i);
            for p in start_lin(&r, w)..end_lin(&r, w) {
                hits[p] += 1;
            }
        }
        for (p, &c) in hits.iter().enumerate() {
            assert_eq!(c, 1, "pixel {} of {}x{} split {} ways", p, w, h, n);
        }
    }
}

#[test]
fn partition_ranges_are_contiguous() {
    let (w, h, n) = (31usize, 17usize, 6usize);
    for i in 0..n - 1 {
        let a = partition(w, h, n, i);
        let b = partition(w, h, n, i + 1);
        assert_eq!(end_lin(&a, w), start_lin(&b, w));
    }
    assert_eq!(start_lin(&partition(w, h, n, 0), w), 0);
    assert_eq!(end_lin(&partition(w, h, n, n - 1), w), w * h);
}

#[test]
fn more_workers_than_pixels_yields_empty_ranges() {
    let (w, h, n) = (2usize, 1usize, 5usize);
    let mut covered = 0;
    for i in 0..n {
        let r = partition(w, h, n, i);
        let (s, e) = (start_lin(&r, w), end_lin(&r, w));
        assert!(s <= e && e <= w * h);
        covered += e - s;
    }
    assert_eq!(covered, w * h);
}

#[test]
fn row_span_full_middle_rows_and_partial_ends() {
    // Total 16 pixels split two ways: worker 0 has linear [0, 8), which is
    // rows 0 and 1 of a width-4 image, ending exactly on a row boundary.
    let r0 = partition(4, 4, 2, 0);
    assert_eq!(row_span(&r0, 4, 0), (0, 4));
    assert_eq!(row_span(&r0, 4, 1), (0, 4));
    let (s2, e2) = row_span(&r0, 4, 2);
    assert_eq!(s2, e2, "row 2 is outside worker 0's range");
    let (s3, e3) = row_span(&r0, 4, 3);
    assert_eq!(s3, e3);
}

#[test]
fn row_span_mid_row_boundaries() {
    // 6 pixels per row, 3 rows, 4 workers: worker 1 covers linear [4, 9),
    // a partial first row and a partial last row.
    let r = partition(6, 3, 4, 1);
    assert_eq!(start_lin(&r, 6), 4);
    assert_eq!(end_lin(&r, 6), 9);
    assert_eq!(row_span(&r, 6, 0), (4, 6));
    assert_eq!(row_span(&r, 6, 1), (0, 3));
    let (s2, e2) = row_span(&r, 6, 2);
    assert_eq!(s2, e2);
}
