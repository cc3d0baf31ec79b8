use scop::batch::{DrawError, DrawRun};
use scop::color::{Color, Ratio};
use scop::mat::{Axis, Vec2d, Vec3d};
use scop::model::{Model, TextureSwitch};

fn vertex(x: f32, y: f32, z: f32) -> Vec3d {
    Vec3d::new(x.to_bits(), y.to_bits(), z.to_bits())
}

fn uv(x: f32, y: f32) -> Vec2d {
    Vec2d::new(x.to_bits(), y.to_bits())
}

fn gray(num: usize, den: usize) -> Color {
    let level = Ratio::new(num, den);
    Color::new(level, level, level)
}

fn run(start: usize, count: usize, arity: usize) -> DrawRun {
    DrawRun {
        start,
        count,
        arity,
    }
}

fn mesh(vertices: usize, faces: &[&[u32]]) -> Model {
    let mut model = Model::new();
    for i in 0..vertices {
        model.push_vertices(vertex(i as f32, 0.0, 0.0));
    }
    for face in faces {
        for index in face.iter() {
            model.push_indices(*index);
        }
        model.push_index_count(face.len());
    }
    model
}

#[test]
fn new_model_is_empty() {
    let model = Model::new();
    assert!(model.is_empty());
    assert!(model.get_vertices().is_empty());
    assert!(model.get_colors().is_empty());
    assert!(model.get_uv().is_empty());
    assert!(model.get_indices().is_empty());
    assert!(model.get_index_count().is_empty());
    assert_eq!(model.get_index_set(), 0);
    assert_eq!(model.get_max_size(), 0);
    assert_eq!(
        model.get_texture(),
        TextureSwitch {
            id: 0,
            texture_on: false
        }
    );
}

#[test]
fn vectors_from_tuples() {
    assert_eq!(Vec3d::from((1, 2, 3)), Vec3d::new(1, 2, 3));
    assert_eq!(Vec2d::from((4, 5)), Vec2d::new(4, 5));
    assert_eq!(Vec3d::new(1, 2, 3).d1, 2);
    assert_eq!(Vec2d::new(4, 5).d0, 4);
    assert!(Axis::X != Axis::Y && Axis::Y != Axis::Z);
}

#[test]
fn push_vertices_raises_the_extent() {
    let mut model = Model::new();
    model.push_vertices(vertex(0.25, -0.5, 0.125));
    assert_eq!(f32::from_bits(model.get_max_size()), 0.5);
    model.push_vertices(vertex(0.1, 0.2, -0.3));
    assert_eq!(f32::from_bits(model.get_max_size()), 0.5);
    model.push_vertices(vertex(-3.0, 2.0, 2.5));
    assert_eq!(f32::from_bits(model.get_max_size()), 3.0);
    model.push_vertices(vertex(f32::NAN, -f32::NAN, 0.0));
    assert_eq!(f32::from_bits(model.get_max_size()), 3.0);
    model.push_vertices(vertex(0.0, f32::NEG_INFINITY, 0.0));
    assert_eq!(f32::from_bits(model.get_max_size()), f32::INFINITY);
    assert_eq!(model.get_vertices().len(), 5);
    assert!(!model.is_empty());
}

#[test]
fn push_vertices_agrees_with_comparison_of_absolute_values() {
    let samples = [
        0.0f32,
        -0.0,
        1.0,
        -1.0,
        1.5e-42,
        -3.0e-39,
        f32::MIN_POSITIVE,
        0.1,
        -0.7,
        12345.678,
        -99999.0,
        f32::MAX,
        f32::MIN,
        f32::INFINITY,
        f32::NAN,
    ];
    for a in samples {
        for b in samples {
            for c in samples {
                let mut model = Model::new();
                model.push_vertices(vertex(0.0, 0.5, 0.0));
                model.push_vertices(vertex(a, b, c));
                let mut expected = 0.5f32;
                for x in [a, b, c] {
                    if x.abs() > expected {
                        expected = x.abs();
                    }
                }
                assert_eq!(model.get_max_size(), expected.to_bits());
            }
        }
    }
}

#[test]
fn setters_of_the_face_record() {
    let mut model = Model::new();
    model.set_index_set(5);
    assert_eq!(model.get_index_set(), 5);
    model.push_index_count(4);
    model.push_index_count(3);
    assert_eq!(model.get_index_count(), &vec![4, 3]);
    model.push_indices(9);
    assert_eq!(model.get_indices(), &vec![9]);
}

#[test]
fn texture_switch_toggles() {
    let mut switch = TextureSwitch::new();
    assert_eq!(switch.set(), (0, 0));
    switch.switch();
    assert!(switch.texture_on);
    switch.set_program(7);
    assert_eq!(switch.set(), (7, 1));
    switch.switch();
    assert_eq!(switch.set(), (7, 0));
    let mut model = Model::new();
    model.set_texture(3);
    model.switch_texture();
    assert_eq!(model.get_texture().set(), (3, 1));
    model.switch_texture();
    assert_eq!(model.get_texture().set(), (3, 0));
}

#[test]
fn resolve_gives_every_corner_its_vertex() {
    let mut model = mesh(4, &[&[0, 1, 2], &[0, 3, 2]]);
    assert!(model.has_valid_indices());
    model.resolve_duplicate_indices();
    assert_eq!(
        model.get_vertices(),
        &vec![
            vertex(0.0, 0.0, 0.0),
            vertex(1.0, 0.0, 0.0),
            vertex(2.0, 0.0, 0.0),
            vertex(0.0, 0.0, 0.0),
            vertex(3.0, 0.0, 0.0),
            vertex(2.0, 0.0, 0.0)
        ]
    );
    assert_eq!(model.get_indices(), &vec![0, 1, 2, 3, 4, 5]);
    assert_eq!(model.get_index_count(), &vec![3, 3]);
    assert_eq!(f32::from_bits(model.get_max_size()), 3.0);
}

#[test]
fn resolve_twice_is_resolve_once() {
    let mut model = mesh(5, &[&[4, 4, 1, 0], &[2, 3, 2]]);
    model.resolve_duplicate_indices();
    let vertices = model.get_vertices().clone();
    let indices = model.get_indices().clone();
    assert_eq!(vertices.len(), 7);
    assert_eq!(indices, vec![0, 1, 2, 3, 4, 5, 6]);
    assert!(model.has_valid_indices());
    model.resolve_duplicate_indices();
    assert_eq!(model.get_vertices(), &vertices);
    assert_eq!(model.get_indices(), &indices);
}

#[test]
fn resolve_leaves_a_mesh_without_indices() {
    let mut model = mesh(3, &[]);
    model.resolve_duplicate_indices();
    assert_eq!(model.get_vertices().len(), 3);
    assert!(model.get_indices().is_empty());
}

#[test]
fn indices_out_of_range_are_found() {
    let model = mesh(2, &[&[0, 1, 2]]);
    assert!(!model.has_valid_indices());
    let model = mesh(0, &[&[0]]);
    assert!(!model.has_valid_indices());
    let model = mesh(0, &[]);
    assert!(model.has_valid_indices());
}

#[test]
fn uv_cycles_through_the_corners() {
    let mut model = mesh(6, &[]);
    model.set_uv();
    assert_eq!(
        model.get_uv(),
        &vec![
            uv(0.0, 0.0),
            uv(1.0, 0.0),
            uv(0.0, 1.0),
            uv(1.0, 1.0),
            uv(0.0, 0.0),
            uv(1.0, 0.0)
        ]
    );
    model.push_vertices(vertex(0.0, 0.0, 0.0));
    model.set_uv();
    assert_eq!(model.get_uv().len(), 6);
}

#[test]
fn uv_of_an_indexed_mesh() {
    let mut model = mesh(3, &[&[0, 1, 2]]);
    model.set_uv();
    assert_eq!(
        model.get_uv(),
        &vec![uv(0.0, 0.0), uv(1.0, 0.0), uv(0.0, 1.0)]
    );
}

#[test]
fn gray_bands_by_face() {
    let mut model = mesh(4, &[&[0, 1, 2], &[0, 1, 2, 3], &[1, 2], &[3, 2, 1]]);
    model.set_colors_gray(2);
    assert_eq!(
        model.get_colors(),
        &vec![
            gray(1, 3),
            gray(1, 3),
            gray(1, 3),
            gray(2, 3),
            gray(2, 3),
            gray(2, 3),
            gray(2, 3),
            gray(1, 3),
            gray(1, 3),
            gray(2, 3),
            gray(2, 3),
            gray(2, 3)
        ]
    );
}

#[test]
fn gray_bands_of_six_classes() {
    let faces: Vec<&[u32]> = vec![&[0]; 8];
    let mut model = mesh(1, &faces);
    model.set_colors_gray(6);
    let nums: Vec<usize> = model.get_colors().iter().map(|c| c.red.num).collect();
    assert_eq!(nums, vec![1, 2, 3, 4, 5, 6, 1, 2]);
    assert!(model.get_colors().iter().all(|c| c.red.den == 7));
    assert!(model
        .get_colors()
        .iter()
        .all(|c| c.red == c.green && c.green == c.blue));
}

#[test]
fn gray_bands_without_indices() {
    let mut model = mesh(8, &[]);
    model.set_colors_gray(1);
    assert_eq!(model.get_colors(), &vec![gray(1, 2); 6]);
}

#[test]
fn gray_leaves_colours_that_are_there() {
    let mut model = mesh(3, &[&[0, 1, 2]]);
    model.set_colors_one(Ratio::new(1, 4));
    model.set_colors_gray(6);
    assert_eq!(model.get_colors(), &vec![gray(1, 4); 3]);
}

#[test]
fn colours_one_gradation_and_grain() {
    let mut model = mesh(4, &[]);
    model.set_colors_one(Ratio::new(1, 1));
    assert_eq!(model.get_colors(), &vec![gray(1, 1); 4]);
    model.set_colors_one(Ratio::new(1, 2));
    assert_eq!(model.get_colors(), &vec![gray(1, 2); 4]);

    let mut model = mesh(4, &[]);
    model.set_colors_gradation();
    assert_eq!(
        model.get_colors(),
        &vec![gray(0, 4), gray(1, 4), gray(2, 4), gray(3, 4)]
    );

    let none = Ratio::new(0, 1);
    let mut model = mesh(4, &[]);
    model.set_colors_gradation_colorful();
    assert_eq!(
        model.get_colors(),
        &vec![
            Color::new(Ratio::new(0, 4), none, none),
            Color::new(none, Ratio::new(1, 4), none),
            Color::new(none, none, Ratio::new(2, 4)),
            Color::new(Ratio::new(3, 4), none, none)
        ]
    );

    let shade = |r, g, b| Color::new(Ratio::new(r, 255), Ratio::new(g, 255), Ratio::new(b, 255));
    let mut model = mesh(4, &[]);
    model.set_colors_grain();
    assert_eq!(
        model.get_colors(),
        &vec![
            shade(222, 184, 135),
            shade(210, 180, 140),
            shade(245, 222, 179),
            shade(222, 184, 135)
        ]
    );
    model.set_colors_grain();
    assert_eq!(model.get_colors().len(), 8);
}

#[test]
fn draw_without_indices_is_one_run_over_the_vertices() {
    let model = mesh(6, &[]);
    assert_eq!(model.draw(), Ok(vec![run(0, 6, 3)]));
    let model = Model::new();
    assert_eq!(model.draw(), Ok(vec![run(0, 0, 3)]));
}

#[test]
fn draw_of_triangles_is_one_run_over_the_indices() {
    let mut model = mesh(4, &[&[0, 1, 2], &[0, 3, 2]]);
    model.set_index_set(3);
    assert_eq!(model.draw(), Ok(vec![run(0, 6, 3)]));
}

#[test]
fn draw_of_mixed_faces_is_batched() {
    let mut model = mesh(5, &[&[0, 1, 2], &[0, 1, 2, 3], &[0, 1, 2], &[0, 1, 2, 4]]);
    model.set_index_set(1);
    assert_eq!(
        model.draw(),
        Ok(vec![run(0, 3, 3), run(3, 4, 4), run(7, 3, 3), run(10, 4, 4)])
    );
    let mut model = mesh(4, &[&[0, 1, 2, 3], &[0, 1, 2, 3]]);
    model.set_index_set(4);
    assert_eq!(model.draw(), Ok(vec![run(0, 4, 4), run(4, 4, 4)]));
}

#[test]
fn draw_does_not_sum_faces_that_it_does_not_batch() {
    let mut model = mesh(3, &[]);
    model.push_index_count(usize::MAX);
    model.push_index_count(usize::MAX);
    assert_eq!(model.draw(), Ok(vec![run(0, 3, 3)]));
    model.push_indices(0);
    model.push_indices(1);
    model.push_indices(2);
    model.set_index_set(3);
    assert_eq!(model.draw(), Ok(vec![run(0, 3, 3)]));
}

#[test]
fn draw_refuses_faces_of_one_or_two_corners() {
    let mut model = mesh(3, &[&[0, 1, 2], &[0, 1]]);
    model.set_index_set(1);
    assert_eq!(model.draw(), Err(DrawError::UnsupportedArity));
    let mut model = mesh(3, &[&[0], &[0, 1, 2]]);
    model.set_index_set(1);
    assert_eq!(model.draw(), Err(DrawError::UnsupportedArity));
}

#[test]
fn rect_samples() {
    let mut model = Model::new();
    model.set_rect_sample();
    assert_eq!(
        model.get_vertices(),
        &vec![
            vertex(-0.7, -0.7, 0.0),
            vertex(0.7, -0.7, 0.0),
            vertex(0.7, 0.7, 0.0),
            vertex(-0.7, 0.7, 0.0)
        ]
    );
    let full = |r, g, b| Color::new(Ratio::new(r, 1), Ratio::new(g, 1), Ratio::new(b, 1));
    assert_eq!(
        model.get_colors(),
        &vec![full(1, 1, 0), full(0, 1, 0), full(0, 0, 1), full(0, 1, 1)]
    );
    assert_eq!(model.get_indices(), &vec![0, 1, 2, 0, 3, 2]);
    assert_eq!(model.get_index_count(), &vec![3, 3]);
    assert_eq!(model.get_index_set(), 3);
    assert_eq!(f32::from_bits(model.get_max_size()), 1.0);
    assert!(model.get_uv().is_empty());

    let mut model = Model::new();
    model.set_rect_uv_sample();
    assert_eq!(model.get_vertices().len(), 4);
    assert_eq!(
        model.get_uv(),
        &vec![uv(0.0, 0.0), uv(1.0, 0.0), uv(1.0, 1.0), uv(0.0, 1.0)]
    );
    assert!(model.get_colors().is_empty());
    assert_eq!(model.draw(), Ok(vec![run(0, 6, 3)]));
}

#[test]
fn cube_samples() {
    let mut model = Model::new();
    model.set_cube_sample();
    assert_eq!(model.get_vertices().len(), 36);
    assert_eq!(model.get_vertices()[0], vertex(-0.5, -0.5, -0.5));
    assert_eq!(model.get_vertices()[3], vertex(0.5, 0.5, -0.5));
    assert_eq!(model.get_vertices()[35], vertex(0.5, -0.5, 0.5));
    assert!(model
        .get_vertices()
        .iter()
        .all(|v| [v.d0, v.d1, v.d2].iter().all(|b| f32::from_bits(*b).abs() == 0.5)));
    assert_eq!(model.get_colors().len(), 36);
    let first = model.get_colors()[0];
    assert_eq!(
        (first.red, first.green, first.blue),
        (Ratio::new(583, 1000), Ratio::new(771, 1000), Ratio::new(14, 1000))
    );
    let last = model.get_colors()[35];
    assert_eq!(
        (last.red, last.green, last.blue),
        (Ratio::new(982, 1000), Ratio::new(99, 1000), Ratio::new(879, 1000))
    );
    assert_eq!(f32::from_bits(model.get_max_size()), 1.0);
    assert!(model.get_indices().is_empty());

    let mut model = Model::new();
    model.set_cube_sample_uv();
    assert_eq!(model.get_vertices().len(), 36);
    assert_eq!(model.get_uv().len(), 36);
    assert_eq!(model.get_uv()[0], uv(0.000059, 1.0 - 0.000004));
    assert_eq!(model.get_uv()[1], uv(0.000103, 1.0 - 0.336048));
    assert_eq!(model.get_uv()[3], uv(1.000023, 1.0 - 0.000013));
    assert_eq!(model.get_uv()[35], uv(0.667979, 1.0 - 0.335851));
    model.resolve_duplicate_indices();
    model.set_colors_gray(6);
    assert_eq!(model.get_colors().len(), 36);
    assert_eq!(model.get_colors()[3], gray(2, 7));
    model.set_uv();
    assert_eq!(model.get_uv()[0], uv(0.000059, 1.0 - 0.000004));
    assert_eq!(model.draw(), Ok(vec![run(0, 36, 3)]));
}
