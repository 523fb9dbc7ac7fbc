use appetizer::obj_parser::{parse_lines, ParseError};
use appetizer::object::{Object, VertexIndex};

fn lines(src: &str) -> Vec<String> {
    src.lines().map(|l| l.to_string()).collect()
}

fn text(v: &Vec<char>) -> String {
    v.iter().collect()
}

fn texts(v: &Vec<Vec<char>>) -> Vec<String> {
    v.iter().map(text).collect()
}

fn parse(src: &str) -> Result<Object, ParseError> {
    parse_lines(&lines(src))
}

const TRIANGLE: &str = "v 0 0 0
v 1 0 0
v 0 1 0
vt 0 0
vt 1 0
vt 0 1
vn 0 0 1
f 1/1/1 2/2/1 3/3/1";

#[test]
fn single_triangle_scenario() {
    let obj = parse(TRIANGLE).unwrap();
    assert_eq!(obj.vertexes.len(), 3);
    assert_eq!(obj.triangle_indices, vec![VertexIndex(0, 1, 2)]);
    for v in &obj.vertexes {
        assert_eq!(texts(&v.normal), vec!["0", "0", "1"]);
    }
    assert_eq!(texts(&obj.vertexes[0].position), vec!["0", "0", "0"]);
    assert_eq!(texts(&obj.vertexes[1].position), vec!["1", "0", "0"]);
    assert_eq!(texts(&obj.vertexes[2].position), vec!["0", "1", "0"]);
    assert_eq!(texts(&obj.vertexes[1].uv), vec!["1", "0"]);
    assert_eq!(texts(&obj.vertexes[2].uv), vec!["0", "1"]);
}

#[test]
fn one_based_indices_resolve_to_first_entries() {
    let src = "v 10 11 12
v 20 21 22
v 30 31 32
vt 0.1 0.2
vt 0.3 0.4
vt 0.5 0.6
vn 1 0 0
vn 0 1 0
vn 0 0 1
f 1/1/1 2/2/2 3/3/3";
    let obj = parse(src).unwrap();
    assert_eq!(texts(&obj.vertexes[0].position), vec!["10", "11", "12"]);
    assert_eq!(texts(&obj.vertexes[1].position), vec!["20", "21", "22"]);
    assert_eq!(texts(&obj.vertexes[2].position), vec!["30", "31", "32"]);
    assert_eq!(texts(&obj.vertexes[0].uv), vec!["0.1", "0.2"]);
    assert_eq!(texts(&obj.vertexes[2].uv), vec!["0.5", "0.6"]);
    assert_eq!(texts(&obj.vertexes[0].normal), vec!["1", "0", "0"]);
    assert_eq!(texts(&obj.vertexes[1].normal), vec!["0", "1", "0"]);
}

#[test]
fn corner_indices_pick_each_pool_separately() {
    let src = "v 1 1 1
v 2 2 2
vt 5 5
vn 7 7 7
vn 8 8 8
f 2/1/1 1/1/2 +2/1/+1";
    let obj = parse(src).unwrap();
    assert_eq!(texts(&obj.vertexes[0].position), vec!["2", "2", "2"]);
    assert_eq!(texts(&obj.vertexes[0].normal), vec!["7", "7", "7"]);
    assert_eq!(texts(&obj.vertexes[1].position), vec!["1", "1", "1"]);
    assert_eq!(texts(&obj.vertexes[1].normal), vec!["8", "8", "8"]);
    assert_eq!(texts(&obj.vertexes[2].position), vec!["2", "2", "2"]);
}

#[test]
fn missing_component_is_malformed_with_zero_based_line() {
    let src = "v 0 0 0
v 1 0 0
v 0 1 0
vt 0 0
vn 0 0 1
f 1/1 2/1/1 3/1/1";
    assert_eq!(parse(src).unwrap_err(), ParseError::MalformedVertex(5));
    let first = "f 1/1 2/2/2 3/3/3";
    assert_eq!(parse(first).unwrap_err(), ParseError::MalformedVertex(0));
}

#[test]
fn face_count_gives_vertex_and_triangle_counts() {
    let src = "v 0 0 0
v 1 0 0
v 0 1 0
vt 0 0
vn 0 0 1
f 1/1/1 2/1/1 3/1/1
# a comment
f 3/1/1 2/1/1 1/1/1

f 1/1/1 1/1/1 1/1/1
o ignored";
    let obj = parse(src).unwrap();
    assert_eq!(obj.vertexes.len(), 9);
    assert_eq!(
        obj.triangle_indices,
        vec![VertexIndex(0, 1, 2), VertexIndex(3, 4, 5), VertexIndex(6, 7, 8)]
    );
    assert_eq!(texts(&obj.vertexes[3].position), vec!["0", "1", "0"]);
}

#[test]
fn parsing_twice_gives_identical_meshes() {
    let a = parse(TRIANGLE).unwrap();
    let b = parse(TRIANGLE).unwrap();
    assert_eq!(a, b);
}

#[test]
fn empty_input_gives_empty_mesh() {
    let obj = parse("").unwrap();
    assert!(obj.vertexes.is_empty());
    assert!(obj.triangle_indices.is_empty());
    let obj = parse("\n   \n\t\n").unwrap();
    assert!(obj.vertexes.is_empty());
}

#[test]
fn bad_coordinate_is_str_parse_error() {
    assert_eq!(parse("v 1 x 3").unwrap_err(), ParseError::StrParseError);
    assert_eq!(parse("vn 1 2").unwrap_err(), ParseError::StrParseError);
    assert_eq!(parse("vt 0.5").unwrap_err(), ParseError::StrParseError);
    assert_eq!(parse("v 1 2 3.0.1").unwrap_err(), ParseError::StrParseError);
}

#[test]
fn float_spellings_are_accepted() {
    let obj = parse("v 1e3 -.5 +INF\nvt nan 5.\nvn 2E-2 infinity -0\nf 1/1/1 1/1/1 1/1/1").unwrap();
    assert_eq!(texts(&obj.vertexes[0].position), vec!["1e3", "-.5", "+INF"]);
    assert_eq!(texts(&obj.vertexes[0].uv), vec!["nan", "5."]);
    assert_eq!(texts(&obj.vertexes[0].normal), vec!["2E-2", "infinity", "-0"]);
}

#[test]
fn extra_coordinates_are_ignored() {
    let obj = parse("v 1 2 3 4\nvt 1 2 3\nvn 0 0 1 x\nf 1/1/1 1/1/1 1/1/1").unwrap();
    assert_eq!(texts(&obj.vertexes[0].position), vec!["1", "2", "3"]);
    assert_eq!(texts(&obj.vertexes[0].uv), vec!["1", "2"]);
}

#[test]
fn quad_face_is_malformed() {
    let src = "v 0 0 0\nvt 0 0\nvn 0 0 1\nf 1/1/1 1/1/1 1/1/1 1/1/1";
    assert_eq!(parse(src).unwrap_err(), ParseError::MalformedVertex(3));
    let src = "v 0 0 0\nvt 0 0\nvn 0 0 1\nf 1/1/1 1/1/1";
    assert_eq!(parse(src).unwrap_err(), ParseError::MalformedVertex(3));
    assert_eq!(parse("f").unwrap_err(), ParseError::MalformedVertex(0));
}

#[test]
fn out_of_range_indices_are_malformed() {
    let pools = "v 0 0 0\nvt 0 0\nvn 0 0 1\n";
    assert_eq!(parse(&format!("{}f 0/1/1 1/1/1 1/1/1", pools)).unwrap_err(), ParseError::MalformedVertex(3));
    assert_eq!(parse(&format!("{}f 1/1/1 1/2/1 1/1/1", pools)).unwrap_err(), ParseError::MalformedVertex(3));
    assert_eq!(parse(&format!("{}f 1/1/1 1/1/1 1/1/99999999999999999999999", pools)).unwrap_err(), ParseError::MalformedVertex(3));
    assert_eq!(parse(&format!("{}f 1/1/1 -1/1/1 1/1/1", pools)).unwrap_err(), ParseError::MalformedVertex(3));
    assert_eq!(parse(&format!("{}f 1//1 1/1/1 1/1/1", pools)).unwrap_err(), ParseError::MalformedVertex(3));
    assert_eq!(parse(&format!("{}f 1/1/1/1 1/1/1 1/1/1", pools)).unwrap_err(), ParseError::MalformedVertex(3));
    assert_eq!(parse(&format!("{}f a/1/1 1/1/1 1/1/1", pools)).unwrap_err(), ParseError::MalformedVertex(3));
}

#[test]
fn face_before_its_pools_is_malformed() {
    let src = "f 1/1/1 1/1/1 1/1/1\nv 0 0 0\nvt 0 0\nvn 0 0 1";
    assert_eq!(parse(src).unwrap_err(), ParseError::MalformedVertex(0));
}

#[test]
fn first_error_wins() {
    let src = "v 0 0 0\nv a 0 0\nf 1/1 2/2/2 3/3/3";
    assert_eq!(parse(src).unwrap_err(), ParseError::StrParseError);
    let src = "f 1/1/1\nv a 0 0";
    assert_eq!(parse(src).unwrap_err(), ParseError::MalformedVertex(0));
}

#[test]
fn unicode_whitespace_separates_words() {
    let obj = parse("v\u{3000}1\u{a0}2\t3\r\nvt 0 0\nvn 0 0 1\nf 1/1/1\u{2003}1/1/1 1/1/1").unwrap();
    assert_eq!(texts(&obj.vertexes[0].position), vec!["1", "2", "3"]);
}

#[test]
fn keywords_are_exact() {
    let obj = parse("V 1 2 3\nvx 1\nF 1/1/1\nfo 1").unwrap();
    assert!(obj.vertexes.is_empty());
}
