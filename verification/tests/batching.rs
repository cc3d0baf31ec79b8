use scop::batch::{batch, checked_total, DrawError, DrawRun, Primitive};

fn run(start: usize, count: usize, arity: usize) -> DrawRun {
    DrawRun { start, count, arity }
}

#[test]
fn uniform_triangles_make_one_run() {
    let arities = vec![3usize; 5];
    assert_eq!(batch(&arities, 15), vec![run(0, 15, 3)]);
}

#[test]
fn alternating_faces_make_one_run_each() {
    let arities = vec![3usize, 4, 3, 4];
    assert_eq!(
        batch(&arities, 14),
        vec![run(0, 3, 3), run(3, 4, 4), run(7, 3, 3), run(10, 4, 4)]
    );
}

#[test]
fn neighbouring_triangles_are_merged_between_polygons() {
    let arities = vec![4usize, 3, 3, 5, 3];
    assert_eq!(
        batch(&arities, 18),
        vec![run(0, 4, 4), run(4, 6, 3), run(10, 5, 5), run(15, 3, 3)]
    );
}

#[test]
fn a_stream_that_ends_inside_a_face_trims_the_last_run() {
    let arities = vec![3usize, 4];
    assert_eq!(batch(&arities, 5), vec![run(0, 3, 3), run(3, 3, 4)]);
}

#[test]
fn a_stream_longer_than_the_faces_trims_the_last_run() {
    let arities = vec![3usize];
    assert_eq!(batch(&arities, 5), vec![run(0, 2, 3)]);
}

#[test]
fn a_trimmed_run_of_one_index_is_dropped() {
    let arities = vec![1usize];
    assert_eq!(batch(&arities, 5), vec![]);
}

#[test]
fn a_face_without_corners_separates_triangles() {
    let arities = vec![3usize, 0, 3];
    assert_eq!(batch(&arities, 6), vec![run(0, 3, 3), run(3, 3, 3)]);
}

#[test]
fn no_faces_make_no_runs() {
    let arities: Vec<usize> = Vec::new();
    assert_eq!(batch(&arities, 0), vec![]);
    assert_eq!(batch(&arities, 7), vec![]);
}

#[test]
fn faces_beyond_the_stream_are_not_read() {
    let arities = vec![3usize, 3, 4];
    assert_eq!(batch(&arities, 3), vec![run(0, 3, 3)]);
}

#[test]
fn primitive_by_arity() {
    assert_eq!(run(0, 3, 3).primitive(), Ok(Primitive::Triangles));
    assert_eq!(run(0, 4, 4).primitive(), Ok(Primitive::TriangleFan));
    assert_eq!(run(0, 7, 7).primitive(), Ok(Primitive::TriangleFan));
    assert_eq!(run(0, 1, 1).primitive(), Err(DrawError::UnsupportedArity));
    assert_eq!(run(0, 2, 2).primitive(), Err(DrawError::UnsupportedArity));
}

#[test]
fn draw_error_in_words() {
    assert_eq!(
        DrawError::UnsupportedArity.message(),
        "error: unsupported index set 1 or 2"
    );
}

#[test]
fn checked_total_sums_or_overflows() {
    assert_eq!(checked_total(&vec![3, 4, 5]), Some(12));
    assert_eq!(checked_total(&Vec::new()), Some(0));
    assert_eq!(checked_total(&vec![usize::MAX, 1]), None);
    assert_eq!(checked_total(&vec![usize::MAX, 0]), Some(usize::MAX));
}

#[test]
fn runs_tile_the_index_stream() {
    let records: Vec<Vec<usize>> = vec![
        vec![3, 3, 4, 3, 5, 5, 3, 3, 3, 6],
        vec![4, 4, 4],
        vec![3],
        vec![7, 3, 0, 3, 3, 0, 0, 4],
        vec![2, 3, 2],
    ];
    for arities in records {
        let len: usize = arities.iter().sum();
        let runs = batch(&arities, len);
        let mut next = 0;
        for r in runs.iter() {
            assert_eq!(r.start, next);
            assert!(r.count > 0);
            assert_eq!(r.count % r.arity, 0);
            next = r.start + r.count;
        }
        assert_eq!(next, len);
        for pair in runs.windows(2) {
            assert_eq!(pair[0].start + pair[0].count, pair[1].start);
        }
    }
}

#[test]
fn runs_of_other_faces_hold_one_face() {
    let arities = vec![3usize, 3, 4, 4, 3, 5, 3, 3];
    let runs = batch(&arities, 28);
    assert_eq!(
        runs,
        vec![
            run(0, 6, 3),
            run(6, 4, 4),
            run(10, 4, 4),
            run(14, 3, 3),
            run(17, 5, 5),
            run(22, 6, 3)
        ]
    );
    for pair in runs.windows(2) {
        assert!(!(pair[0].arity == 3 && pair[1].arity == 3));
    }
}
