use scop::batch::{DrawRun, Primitive};
use scop::loader::{parse_index, tokenize, Loader, ParseError, Token};
use scop::mat::Vec3d;
use scop::model::Model;

fn token(text: &str) -> Token {
    Token::new(
        text.to_string(),
        text.parse::<f32>().ok().map(|x| x.to_bits()),
    )
}

fn lines_of(text: &str) -> Vec<Vec<Token>> {
    text.lines()
        .map(|line| tokenize(line).iter().map(|t| token(t)).collect())
        .collect()
}

fn vertex(x: f32, y: f32, z: f32) -> Vec3d {
    Vec3d::new(x.to_bits(), y.to_bits(), z.to_bits())
}

fn load(text: &str) -> (Model, Result<(), ParseError>) {
    let mut model = Model::new();
    let result = Loader::new("mesh.obj".to_string()).parse(&mut model, &lines_of(text));
    (model, result)
}

#[test]
fn tokenize_splits_at_white_space() {
    assert_eq!(tokenize("v 1 2 3"), vec!["v", "1", "2", "3"]);
    assert_eq!(tokenize("  f\t1  2\r"), vec!["f", "1", "2"]);
    assert_eq!(tokenize(""), Vec::<String>::new());
    assert_eq!(tokenize(" \t \u{3000}"), Vec::<String>::new());
    assert_eq!(tokenize("a\u{a0}b\u{2003}c\u{85}d"), vec!["a", "b", "c", "d"]);
    assert_eq!(tokenize("é\u{200b}ü x"), vec!["é\u{200b}ü", "x"]);
}

#[test]
fn tokenize_agrees_with_split_whitespace() {
    let texts = [
        "v 0.5 -1e3 +7",
        "\u{1680}x\u{2028}y\u{2029}z\u{202f}w\u{205f}",
        "\u{0b}one\u{0c}two\u{1c}three",
        "no-space",
        "trailing   ",
        "\u{180e}mongolian \u{feff}bom",
    ];
    for text in texts {
        let expected: Vec<String> = text.split_whitespace().map(|t| t.to_string()).collect();
        assert_eq!(tokenize(text), expected);
    }
}

#[test]
fn index_one_names_the_first_vertex() {
    assert_eq!(parse_index("1"), Some(0));
    assert_eq!(parse_index("2"), Some(1));
    assert_eq!(parse_index("+3"), Some(2));
    assert_eq!(parse_index("007"), Some(6));
}

#[test]
fn index_below_one_clamps_to_zero() {
    assert_eq!(parse_index("0"), Some(0));
    assert_eq!(parse_index("-0"), Some(0));
    assert_eq!(parse_index("-1"), Some(0));
    assert_eq!(parse_index("-17"), Some(0));
    assert_eq!(parse_index("-99999999999999999999999999"), Some(0));
}

#[test]
fn index_at_the_limits() {
    assert_eq!(parse_index("4294967295"), Some(4294967294));
    assert_eq!(parse_index("4294967296"), None);
    assert_eq!(parse_index("99999999999999999999999999"), None);
}

#[test]
fn index_that_is_no_integer() {
    assert_eq!(parse_index(""), None);
    assert_eq!(parse_index("+"), None);
    assert_eq!(parse_index("-"), None);
    assert_eq!(parse_index("1.0"), None);
    assert_eq!(parse_index("1/2"), None);
    assert_eq!(parse_index("x"), None);
    assert_eq!(parse_index("1x"), None);
    assert_eq!(parse_index("--1"), None);
    assert_eq!(parse_index("١"), None);
}

#[test]
fn example_scenario() {
    let (model, result) = load("v 0 0 0\nv 1 0 0\nv 0 1 0\nf 1 2 3\n");
    assert_eq!(result, Ok(()));
    assert_eq!(
        model.get_vertices(),
        &vec![
            vertex(0.0, 0.0, 0.0),
            vertex(1.0, 0.0, 0.0),
            vertex(0.0, 1.0, 0.0)
        ]
    );
    assert_eq!(model.get_indices(), &vec![0, 1, 2]);
    assert_eq!(model.get_index_count(), &vec![3]);
    assert_eq!(model.get_index_set(), 3);
    let runs = model.draw().unwrap();
    assert_eq!(
        runs,
        vec![DrawRun {
            start: 0,
            count: 3,
            arity: 3
        }]
    );
    assert_eq!(runs[0].primitive(), Ok(Primitive::Triangles));
    let extent = f32::from_bits(model.get_max_size());
    assert_eq!(extent, 1.0);
    assert_eq!((1.0 / extent).min(1000.0), 1.0);
}

#[test]
fn parser_counts_vertices_and_indices() {
    let text = "# a comment\n\nv 1 2 3\nv -4 5 6\nvt 0 0\nf 1 2 3 4 5\nv 7 8 -9.5\nf 3 2 1 3\nf 1 2 3\ng group\n";
    let (model, result) = load(text);
    assert_eq!(result, Ok(()));
    assert_eq!(model.get_vertices().len(), 3);
    assert_eq!(model.get_indices().len(), 5 + 4 + 3);
    assert_eq!(model.get_index_count(), &vec![5, 4, 3]);
    assert_eq!(
        model.get_indices(),
        &vec![0, 1, 2, 3, 4, 2, 1, 0, 2, 0, 1, 2]
    );
}

#[test]
fn parser_tracks_the_largest_coordinate() {
    let (model, result) = load("v 1 -7.25 3\nv 0.5 2 -6\nv 0 -0 1e-40\n");
    assert_eq!(result, Ok(()));
    assert_eq!(f32::from_bits(model.get_max_size()), 7.25);
    let (model, result) = load("v 1 -7.25 3\nv 0.5 2 -3.4028235e38\n");
    assert_eq!(result, Ok(()));
    assert_eq!(f32::from_bits(model.get_max_size()), f32::MAX);
}

#[test]
fn parser_refuses_coordinates_that_are_not_finite() {
    let (model, result) = load("v 1 2 3\nv 1 2 inf\n");
    assert_eq!(result, Err(ParseError::Number { line: 1, field: 3 }));
    assert_eq!(model.get_vertices().len(), 1);
    assert_eq!(f32::from_bits(model.get_max_size()), 3.0);
    let (_, result) = load("v nan 0 0\n");
    assert_eq!(result, Err(ParseError::Number { line: 0, field: 1 }));
    let (_, result) = load("v 0 -infinity 0\n");
    assert_eq!(result, Err(ParseError::Number { line: 0, field: 2 }));
    let (_, result) = load("v 1e40 0 0\n");
    assert_eq!(result, Err(ParseError::Number { line: 0, field: 1 }));
    let (_, result) = load("v 0 0 -NaN\n");
    assert_eq!(result, Err(ParseError::Number { line: 0, field: 3 }));
}

#[test]
fn parser_keeps_coordinates_finite() {
    let (model, result) = load("v 1 2 3\nv -4.5 1e38 -1e-45\nf 1 2 1\n");
    assert_eq!(result, Ok(()));
    for v in model.get_vertices() {
        for bits in [v.d0, v.d1, v.d2] {
            assert!(f32::from_bits(bits).is_finite());
        }
    }
    assert!(f32::from_bits(model.get_max_size()).is_finite());
    assert!(model.draw().is_ok());
}

#[test]
fn parser_infers_the_working_arity() {
    let (model, _) = load("v 0 0 0\n");
    assert_eq!(model.get_index_set(), 0);
    let (model, _) = load("v 0 0 0\nf 1 1 1\nf 1 1 1\n");
    assert_eq!(model.get_index_set(), 3);
    let (model, _) = load("v 0 0 0\nf 1 1 1 1\nf 1 1 1 1\n");
    assert_eq!(model.get_index_set(), 4);
    let (model, _) = load("v 0 0 0\nf 1 1 1 1\nf 1 1 1\n");
    assert_eq!(model.get_index_set(), 4);
    let (model, _) = load("v 0 0 0\nf 1 1 1\nf 1 1 1 1\n");
    assert_eq!(model.get_index_set(), 1);
    let (model, _) = load("v 0 0 0\nf 1 1 1 1\nf 1 1 1 1 1\nf 1 1 1\nf 1 1 1 1\n");
    assert_eq!(model.get_index_set(), 1);
}

#[test]
fn parser_refuses_a_vertex_with_the_wrong_number_of_fields() {
    let (model, result) = load("v 1 2 3\nv 1 2\n");
    assert_eq!(result, Err(ParseError::VertexFields { line: 1 }));
    assert_eq!(model.get_vertices().len(), 1);
    let (_, result) = load("v 1 2 3 4\n");
    assert_eq!(result, Err(ParseError::VertexFields { line: 0 }));
    let (_, result) = load("v\n");
    assert_eq!(result, Err(ParseError::VertexFields { line: 0 }));
}

#[test]
fn parser_refuses_a_face_with_too_few_fields() {
    let (_, result) = load("v 1 2 3\n\nf 1\n");
    assert_eq!(result, Err(ParseError::FaceFields { line: 2 }));
    let (_, result) = load("f\n");
    assert_eq!(result, Err(ParseError::FaceFields { line: 0 }));
    let (model, result) = load("v 0 0 0\nf 1 2\n");
    assert_eq!(result, Err(ParseError::FaceFields { line: 1 }));
    assert!(model.get_indices().is_empty());
    assert!(model.get_index_count().is_empty());
    assert_eq!(model.get_index_set(), 0);
    let (_, result) = load("v 0 0 0\nf x y\n");
    assert_eq!(result, Err(ParseError::FaceFields { line: 1 }));
    let (model, result) = load("v 0 0 0\nf 1 2 3\n");
    assert_eq!(result, Ok(()));
    assert_eq!(model.get_index_count(), &vec![3]);
}

#[test]
fn parser_refuses_a_field_that_is_no_number() {
    let (_, result) = load("v 1 two 3\n");
    assert_eq!(result, Err(ParseError::Number { line: 0, field: 2 }));
    let (_, result) = load("v x y z\n");
    assert_eq!(result, Err(ParseError::Number { line: 0, field: 1 }));
    let (model, result) = load("v 1 2 3\nf 1 2 3\nf 1 2.5 x\n");
    assert_eq!(result, Err(ParseError::Number { line: 2, field: 2 }));
    assert_eq!(model.get_indices().len(), 3);
    assert_eq!(model.get_index_count(), &vec![3]);
    let (_, result) = load("v 1 2 3\nf 1 2 4294967296\n");
    assert_eq!(result, Err(ParseError::Number { line: 1, field: 3 }));
}

#[test]
fn parser_refuses_a_text_without_vertices() {
    let (_, result) = load("");
    assert_eq!(result, Err(ParseError::Empty));
    let (model, result) = load("# nothing\nf 1 2 3\n");
    assert_eq!(result, Err(ParseError::Empty));
    assert_eq!(model.get_indices().len(), 3);
}

#[test]
fn parser_stops_at_the_first_refusal() {
    let (model, result) = load("v 1 2 3\nv 1 2\nv 4 5 6\nf x\n");
    assert_eq!(result, Err(ParseError::VertexFields { line: 1 }));
    assert_eq!(model.get_vertices().len(), 1);
}

#[test]
fn parser_passes_over_other_records() {
    let (model, result) = load("o thing\nvn 0 0 1\nv 1 2 3\nvertex 1 2\nface 1\ns off\n");
    assert_eq!(result, Ok(()));
    assert_eq!(model.get_vertices().len(), 1);
    assert_eq!(model.get_indices().len(), 0);
}

#[test]
fn parse_error_in_words() {
    let lines = lines_of("v 1 2 3\nv 1  2\nf 1 x 3\nf 1\n");
    assert_eq!(
        ParseError::VertexFields { line: 1 }.message(&lines),
        "error: parse obj: v 1 2"
    );
    assert_eq!(
        ParseError::Number { line: 2, field: 2 }.message(&lines),
        "error: parse obj: x"
    );
    assert_eq!(
        ParseError::FaceFields { line: 3 }.message(&lines),
        "error: parse obj: f 1"
    );
    assert_eq!(ParseError::Empty.message(&lines), "error: parse obj: empty");
    assert_eq!(
        ParseError::Number { line: 9, field: 0 }.message(&lines),
        "error: parse obj: "
    );
    assert_eq!(
        ParseError::Number { line: 0, field: 9 }.message(&lines),
        "error: parse obj: "
    );
    assert_eq!(
        ParseError::FaceFields { line: 9 }.message(&lines),
        "error: parse obj: "
    );
}

#[test]
fn loader_keeps_its_path() {
    let loader = Loader::new("meshes/teapot.obj".to_string());
    assert_eq!(loader.get_path(), "meshes/teapot.obj");
}

#[test]
fn single_records() {
    let loader = Loader::new(String::new());
    let mut model = Model::new();
    let line: Vec<Token> = ["v", "1", "2", "3"].iter().map(|t| token(t)).collect();
    assert_eq!(loader.parse_v(&mut model, &line, 0), Ok(()));
    assert_eq!(model.get_vertices(), &vec![vertex(1.0, 2.0, 3.0)]);
    let line: Vec<Token> = ["f", "3", "0", "-2", "1"].iter().map(|t| token(t)).collect();
    assert_eq!(loader.parse_f(&mut model, &line, 1), Ok(()));
    assert_eq!(model.get_indices(), &vec![2, 0, 0, 0]);
    assert_eq!(model.get_index_count(), &vec![4]);
    assert_eq!(model.get_index_set(), 4);
    let line: Vec<Token> = ["f", "3", "x", "y"].iter().map(|t| token(t)).collect();
    assert_eq!(
        loader.parse_f(&mut model, &line, 7),
        Err(ParseError::Number { line: 7, field: 2 })
    );
    assert_eq!(model.get_indices().len(), 4);
    let line: Vec<Token> = ["f", "1", "2"].iter().map(|t| token(t)).collect();
    assert_eq!(
        loader.parse_f(&mut model, &line, 8),
        Err(ParseError::FaceFields { line: 8 })
    );
    assert_eq!(model.get_indices().len(), 4);
    assert_eq!(model.get_index_count(), &vec![4]);
    let line: Vec<Token> = ["v", "1", "inf", "3"].iter().map(|t| token(t)).collect();
    assert_eq!(
        loader.parse_v(&mut model, &line, 9),
        Err(ParseError::Number { line: 9, field: 2 })
    );
    assert_eq!(model.get_vertices().len(), 1);
}
