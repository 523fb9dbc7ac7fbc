//! A reader for the triangulated subset of the OBJ mesh format.
//!
//! Lines are split on whitespace; a line whose first word is `v`, `vn` or
//! `vt` adds a position, normal or texture coordinate to the pools, a line
//! whose first word is `f` adds one triangle, and any other line is ignored.
//! A face has exactly three corners written `position/uv/normal`, each a
//! 1-based index into its pool. Every corner becomes a new vertex.

use vstd::prelude::*;
use crate::lexer::{chars_of, fields, split_fields, split_words, texts, words};
use crate::numeric::{is_float_literal, is_float_text, one_based, resolve_one_based};
use crate::object::{copy_text, copy_texts, in_range, Object, ObjectView, Vertex, VertexIndex, VertexView};

verus! {

/// Why a mesh file could not be read. Line numbers count from 0.
#[derive(Debug, Clone, Copy, PartialEq, Eq, Structural)]
pub enum ParseError {
    /// The file could not be opened.
    FileReadError,
    /// A line of the file is not valid text.
    LineReadError,
    /// A coordinate of a `v`, `vn` or `vt` line is missing or is not a number.
    StrParseError,
    /// A face line on the given line does not have exactly three corners, or a
    /// corner is not three `/`-separated indices that each name an existing
    /// pool entry.
    MalformedVertex(usize),
}

/// The attribute pools read so far: each entry is the coordinate texts of one line.
pub struct PoolsView {
    pub positions: Seq<Seq<Seq<char>>>,
    pub normals: Seq<Seq<Seq<char>>>,
    pub uvs: Seq<Seq<Seq<char>>>,
}

impl PoolsView {
    pub open spec fn wf(&self) -> bool {
        &&& forall|i: int| 0 <= i < self.positions.len() ==> (#[trigger] self.positions[i]).len() == 3
        &&& forall|i: int| 0 <= i < self.normals.len() ==> (#[trigger] self.normals[i]).len() == 3
        &&& forall|i: int| 0 <= i < self.uvs.len() ==> (#[trigger] self.uvs[i]).len() == 2
    }
}

/// What has been read after some lines: the attribute pools and the mesh so far.
pub struct ParseState {
    pub pools: PoolsView,
    pub mesh: ObjectView,
}

impl ParseState {
    pub open spec fn wf(&self) -> bool {
        self.pools.wf() && self.mesh.wf()
    }
}

pub open spec fn initial_state() -> ParseState {
    ParseState {
        pools: PoolsView { positions: seq![], normals: seq![], uvs: seq![] },
        mesh: ObjectView { vertexes: seq![], triangles: seq![] },
    }
}

/// The `n` coordinates that follow the keyword of an attribute line, when
/// they are all there and all numbers.
pub open spec fn coordinates(toks: Seq<Seq<char>>, n: int) -> Option<Seq<Seq<char>>> {
    if toks.len() > n && forall|i: int| 1 <= i <= n ==> is_float_text(#[trigger] toks[i]) {
        Some(toks.subrange(1, n + 1))
    } else {
        None
    }
}

/// The vertex that the face corner `d` describes, given the pools `pl`.
pub open spec fn corner(pl: PoolsView, d: Seq<char>) -> Option<VertexView> {
    let f = fields(d, '/');
    if f.len() == 3 {
        match (
            one_based(f[0], pl.positions.len()),
            one_based(f[1], pl.uvs.len()),
            one_based(f[2], pl.normals.len()),
        ) {
            (Some(p), Some(t), Some(n)) => Some(
                VertexView {
                    position: pl.positions[p as int],
                    normal: pl.normals[n as int],
                    uv: pl.uvs[t as int],
                },
            ),
            _ => None,
        }
    } else {
        None
    }
}

pub open spec fn keyword_v() -> Seq<char> {
    seq!['v']
}

pub open spec fn keyword_vn() -> Seq<char> {
    seq!['v', 'n']
}

pub open spec fn keyword_vt() -> Seq<char> {
    seq!['v', 't']
}

pub open spec fn keyword_f() -> Seq<char> {
    seq!['f']
}

/// The state after reading the line numbered `line_no`, whose words are `toks`.
pub open spec fn step_words(st: ParseState, toks: Seq<Seq<char>>, line_no: int) -> Result<
    ParseState,
    ParseError,
> {
    let pl = st.pools;
    if toks.len() == 0 {
        Ok(st)
    } else if toks[0] == keyword_v() {
        match coordinates(toks, 3) {
            Some(c) => Ok(ParseState { pools: PoolsView { positions: pl.positions.push(c), ..pl }, ..st }),
            None => Err(ParseError::StrParseError),
        }
    } else if toks[0] == keyword_vn() {
        match coordinates(toks, 3) {
            Some(c) => Ok(ParseState { pools: PoolsView { normals: pl.normals.push(c), ..pl }, ..st }),
            None => Err(ParseError::StrParseError),
        }
    } else if toks[0] == keyword_vt() {
        match coordinates(toks, 2) {
            Some(c) => Ok(ParseState { pools: PoolsView { uvs: pl.uvs.push(c), ..pl }, ..st }),
            None => Err(ParseError::StrParseError),
        }
    } else if toks[0] == keyword_f() {
        if toks.len() != 4 {
            Err(ParseError::MalformedVertex(line_no as usize))
        } else {
            match (corner(pl, toks[1]), corner(pl, toks[2]), corner(pl, toks[3])) {
                (Some(a), Some(b), Some(c)) => {
                    let k = st.mesh.vertexes.len();
                    Ok(
                        ParseState {
                            mesh: ObjectView {
                                vertexes: st.mesh.vertexes.push(a).push(b).push(c),
                                triangles: st.mesh.triangles.push(
                                    VertexIndex(k as u32, (k + 1) as u32, (k + 2) as u32),
                                ),
                            },
                            ..st
                        },
                    )
                },
                _ => Err(ParseError::MalformedVertex(line_no as usize)),
            }
        }
    } else {
        Ok(st)
    }
}

/// The state after reading `line`, the line numbered `line_no`.
pub open spec fn step(st: ParseState, line: Seq<char>, line_no: int) -> Result<ParseState, ParseError> {
    step_words(st, words(line), line_no)
}

/// The state after reading all of `lines`, or the first error.
pub open spec fn run(lines: Seq<Seq<char>>) -> Result<ParseState, ParseError>
    decreases lines.len(),
{
    if lines.len() == 0 {
        Ok(initial_state())
    } else {
        match run(lines.drop_last()) {
            Ok(st) => step(st, lines.last(), lines.len() - 1),
            Err(e) => Err(e),
        }
    }
}

/// The mesh that the text `lines` describes, or why it describes none.
pub open spec fn parse_model(lines: Seq<Seq<char>>) -> Result<ObjectView, ParseError> {
    match run(lines) {
        Ok(st) => Ok(st.mesh),
        Err(e) => Err(e),
    }
}

/// The contents of a sequence of lines.
pub open spec fn line_texts(lines: Seq<String>) -> Seq<Seq<char>> {
    lines.map_values(|l: String| l@)
}

/// The contents of a pool of coordinate lists.
pub open spec fn pool_view(v: Seq<Vec<Vec<char>>>) -> Seq<Seq<Seq<char>>> {
    v.map_values(|e: Vec<Vec<char>>| texts(e@))
}

/// The attribute pools of a parse in progress.
struct Pools {
    positions: Vec<Vec<Vec<char>>>,
    normals: Vec<Vec<Vec<char>>>,
    uvs: Vec<Vec<Vec<char>>>,
}

impl View for Pools {
    type V = PoolsView;

    closed spec fn view(&self) -> PoolsView {
        PoolsView {
            positions: pool_view(self.positions@),
            normals: pool_view(self.normals@),
            uvs: pool_view(self.uvs@),
        }
    }
}

/// Whether `tok` is the one-letter keyword `a`.
fn is_keyword1(tok: &Vec<char>, a: char) -> (r: bool)
    ensures
        r == (tok@ == seq![a]),
{
    let r = tok.len() == 1 && tok[0] == a;
    if r {
        assert(tok@ =~= seq![a]);
    }
    r
}

/// Whether `tok` is the two-letter keyword `ab`.
fn is_keyword2(tok: &Vec<char>, a: char, b: char) -> (r: bool)
    ensures
        r == (tok@ == seq![a, b]),
{
    let r = tok.len() == 2 && tok[0] == a && tok[1] == b;
    if r {
        assert(tok@ =~= seq![a, b]);
    }
    r
}

/// The `n` coordinates after the keyword of an attribute line.
fn take_coordinates(toks: &Vec<Vec<char>>, n: usize) -> (r: Option<Vec<Vec<char>>>)
    requires
        n <= 3,
    ensures
        r matches Some(c) ==> coordinates(texts(toks@), n as int) == Some(texts(c@)),
        r is None ==> coordinates(texts(toks@), n as int) is None,
{
    let ghost tt = texts(toks@);
    if toks.len() <= n {
        return None;
    }
    let mut out: Vec<Vec<char>> = Vec::new();
    let mut i: usize = 1;
    while i <= n
        invariant
            1 <= i <= n + 1,
            n <= 3,
            n < toks@.len(),
            tt == texts(toks@),
            texts(out@) == tt.subrange(1, i as int),
            forall|j: int| 1 <= j < i ==> is_float_text(#[trigger] tt[j]),
        decreases n + 1 - i,
    {
        if !is_float_literal(&toks[i]) {
            assert(tt[i as int] == toks@[i as int]@);
            return None;
        }
        let ghost prev = out@;
        out.push(copy_text(&toks[i]));
        i = i + 1;
        assert(texts(out@) =~= texts(prev).push(tt[i - 1]));
        assert(texts(out@) =~= tt.subrange(1, i as int));
    }
    Some(out)
}

/// The vertex that the face corner `d` describes.
fn resolve_corner(d: &Vec<char>, pools: &Pools) -> (r: Option<Vertex>)
    requires
        pools@.wf(),
    ensures
        r matches Some(v) ==> corner(pools@, d@) == Some(v@) && v@.wf(),
        r is None ==> corner(pools@, d@) is None,
{
    let f = split_fields(d, '/');
    if f.len() != 3 {
        return None;
    }
    assert(texts(f@)[0] == f@[0]@ && texts(f@)[1] == f@[1]@ && texts(f@)[2] == f@[2]@);
    let p = resolve_one_based(&f[0], pools.positions.len());
    let t = resolve_one_based(&f[1], pools.uvs.len());
    let n = resolve_one_based(&f[2], pools.normals.len());
    match (p, t, n) {
        (Some(p), Some(t), Some(n)) => {
            let v = Vertex {
                position: copy_texts(&pools.positions[p]),
                normal: copy_texts(&pools.normals[n]),
                uv: copy_texts(&pools.uvs[t]),
            };
            assert(pools@.positions[p as int] == texts(pools.positions@[p as int]@));
            assert(pools@.normals[n as int] == texts(pools.normals@[n as int]@));
            assert(pools@.uvs[t as int] == texts(pools.uvs@[t as int]@));
            Some(v)
        },
        _ => None,
    }
}

/// Reads the line numbered `line_no`, whose words are `toks`, into the pools and the mesh.
fn read_line(pools: &mut Pools, obj: &mut Object, toks: &Vec<Vec<char>>, line_no: usize) -> (r:
    Result<(), ParseError>)
    requires
        (ParseState { pools: old(pools)@, mesh: old(obj)@ }).wf(),
        old(obj)@.vertexes.len() + 3 <= u32::MAX,
    ensures
        r is Ok ==> step_words(
            ParseState { pools: old(pools)@, mesh: old(obj)@ },
            texts(toks@),
            line_no as int,
        ) == Ok::<ParseState, ParseError>(ParseState { pools: final(pools)@, mesh: final(obj)@ })
            && (ParseState {
            pools: final(pools)@,
            mesh: final(obj)@,
        }).wf() && final(obj)@.vertexes.len() <= old(obj)@.vertexes.len() + 3,
        r matches Err(e) ==> step_words(
            ParseState { pools: old(pools)@, mesh: old(obj)@ },
            texts(toks@),
            line_no as int,
        ) == Err::<ParseState, ParseError>(e),
{
    let ghost tt = texts(toks@);
    if toks.len() == 0 {
        return Ok(());
    }
    assert(tt[0] == toks@[0]@);
    if is_keyword1(&toks[0], 'v') {
        let c = take_coordinates(toks, 3);
        match c {
            Some(c) => {
                let ghost prev = pools.positions@;
                pools.positions.push(c);
                assert(pool_view(pools.positions@) =~= pool_view(prev).push(texts(c@)));
                Ok(())
            },
            None => Err(ParseError::StrParseError),
        }
    } else if is_keyword2(&toks[0], 'v', 'n') {
        let c = take_coordinates(toks, 3);
        match c {
            Some(c) => {
                let ghost prev = pools.normals@;
                pools.normals.push(c);
                assert(pool_view(pools.normals@) =~= pool_view(prev).push(texts(c@)));
                Ok(())
            },
            None => Err(ParseError::StrParseError),
        }
    } else if is_keyword2(&toks[0], 'v', 't') {
        let c = take_coordinates(toks, 2);
        match c {
            Some(c) => {
                let ghost prev = pools.uvs@;
                pools.uvs.push(c);
                assert(pool_view(pools.uvs@) =~= pool_view(prev).push(texts(c@)));
                Ok(())
            },
            None => Err(ParseError::StrParseError),
        }
    } else if is_keyword1(&toks[0], 'f') {
        if toks.len() != 4 {
            return Err(ParseError::MalformedVertex(line_no));
        }
        assert(tt[1] == toks@[1]@ && tt[2] == toks@[2]@ && tt[3] == toks@[3]@);
        let a = resolve_corner(&toks[1], pools);
        let b = resolve_corner(&toks[2], pools);
        let c = resolve_corner(&toks[3], pools);
        match (a, b, c) {
            (Some(a), Some(b), Some(c)) => {
                let k = obj.vertexes.len();
                let ghost prev = obj.vertexes@;
                let ghost (va, vb, vc) = (a@, b@, c@);
                obj.vertexes.push(a);
                obj.vertexes.push(b);
                obj.vertexes.push(c);
                obj.triangle_indices.push(VertexIndex(k as u32, (k + 1) as u32, (k + 2) as u32));
                assert(obj.vertexes@.map_values(|v: Vertex| v@) =~= prev.map_values(
                    |v: Vertex| v@,
                ).push(va).push(vb).push(vc));
                proof {
                    let m = obj@;
                    assert forall|i: int| 0 <= i < m.vertexes.len() implies (
                    #[trigger] m.vertexes[i]).wf() by {
                        if i < k {
                            assert(m.vertexes[i] == old(obj)@.vertexes[i]);
                        }
                    }
                    assert forall|j: int| 0 <= j < m.triangles.len() implies in_range(
                        #[trigger] m.triangles[j],
                        m.vertexes.len() as int,
                    ) by {
                        if j < m.triangles.len() - 1 {
                            assert(m.triangles[j] == old(obj)@.triangles[j]);
                        }
                    }
                }
                Ok(())
            },
            _ => Err(ParseError::MalformedVertex(line_no)),
        }
    } else {
        Ok(())
    }
}

/// Reads a mesh from the lines of an OBJ file.
///
/// The result is exactly [`parse_model`] of the lines: on success every
/// triangle corner names a vertex and every vertex has three position, three
/// normal and two texture coordinates; the error is that of the first line
/// that cannot be read.
pub fn parse_lines(lines: &Vec<String>) -> (r: Result<Object, ParseError>)
    requires
        lines@.len() * 3 <= u32::MAX,
    ensures
        r matches Ok(o) ==> parse_model(line_texts(lines@)) == Ok::<ObjectView, ParseError>(o@)
            && o@.wf(),
        r matches Err(e) ==> parse_model(line_texts(lines@)) == Err::<ObjectView, ParseError>(e),
{
    let ghost all = line_texts(lines@);
    let mut pools = Pools { positions: Vec::new(), normals: Vec::new(), uvs: Vec::new() };
    let mut obj = Object { vertexes: Vec::new(), triangle_indices: Vec::new() };
    assert(pool_view(pools.positions@) =~= seq![]);
    assert(pool_view(pools.normals@) =~= seq![]);
    assert(pool_view(pools.uvs@) =~= seq![]);
    assert(obj@.vertexes =~= initial_state().mesh.vertexes);
    assert(all.take(0).len() == 0);
    let mut i: usize = 0;
    while i < lines.len()
        invariant
            i <= lines@.len(),
            lines@.len() * 3 <= u32::MAX,
            all == line_texts(lines@),
            run(all.take(i as int)) == Ok::<ParseState, ParseError>(
                ParseState { pools: pools@, mesh: obj@ },
            ),
            (ParseState { pools: pools@, mesh: obj@ }).wf(),
            obj@.vertexes.len() <= 3 * i,
        decreases lines@.len() - i,
    {
        let line = chars_of(lines[i].as_str());
        let toks = split_words(&line);
        assert(all.take(i + 1).drop_last() =~= all.take(i as int));
        assert(all.take(i + 1).last() == line@);
        let r = read_line(&mut pools, &mut obj, &toks, i);
        match r {
            Ok(()) => {},
            Err(e) => {
                proof {
                    lemma_run_error_sticks(all, i as int + 1);
                }
                return Err(e);
            },
        }
        i = i + 1;
    }
    assert(all.take(i as int) =~= all);
    Ok(obj)
}

/// Whether `line` is a face line: its first word is `f`.
pub open spec fn is_face_line(line: Seq<char>) -> bool {
    words(line).len() > 0 && words(line)[0] == keyword_f()
}

/// The number of face lines among `lines`.
pub open spec fn face_count(lines: Seq<Seq<char>>) -> nat
    decreases lines.len(),
{
    if lines.len() == 0 {
        0
    } else {
        face_count(lines.drop_last()) + if is_face_line(lines.last()) {
            1nat
        } else {
            0nat
        }
    }
}

/// The triangle that the `k`-th face line creates.
pub open spec fn fresh_triangle(k: int) -> VertexIndex {
    VertexIndex((3 * k) as u32, (3 * k + 1) as u32, (3 * k + 2) as u32)
}

proof fn lemma_face_count_bound(lines: Seq<Seq<char>>)
    ensures
        face_count(lines) <= lines.len(),
    decreases lines.len(),
{
    if lines.len() > 0 {
        lemma_face_count_bound(lines.drop_last());
    }
}

proof fn lemma_run_shape(lines: Seq<Seq<char>>)
    ensures
        run(lines) matches Ok(st) ==> {
            &&& st.mesh.vertexes.len() == 3 * face_count(lines)
            &&& st.mesh.triangles.len() == face_count(lines)
            &&& forall|k: int|
                0 <= k < face_count(lines) ==> #[trigger] st.mesh.triangles[k] == fresh_triangle(k)
        },
    decreases lines.len(),
{
    if lines.len() > 0 {
        let prev = lines.drop_last();
        lemma_run_shape(prev);
        if let Ok(st0) = run(prev) {
            if let Ok(st) = step(st0, lines.last(), lines.len() - 1) {
                let toks = words(lines.last());
                if is_face_line(lines.last()) {
                    assert(toks[0] == keyword_f());
                    assert(keyword_f() != keyword_v() && keyword_f() != keyword_vn() && keyword_f()
                        != keyword_vt()) by {
                        assert(keyword_vn().len() == 2 && keyword_vt().len() == 2);
                        assert(keyword_v()[0] != keyword_f()[0]);
                    }
                    let k = face_count(prev) as int;
                    assert(st.mesh.triangles.last() == fresh_triangle(k));
                    assert forall|j: int| 0 <= j < face_count(lines) implies #[trigger]
                        st.mesh.triangles[j] == fresh_triangle(j) by {
                        if j < k {
                            assert(st.mesh.triangles[j] == st0.mesh.triangles[j]);
                        }
                    }
                } else {
                    assert(st.mesh == st0.mesh);
                }
            }
        }
    }
}

/// A mesh read from lines that hold `F` face lines has exactly `3F` vertices
/// and `F` triangles, and the `k`-th triangle is made of the three new
/// vertices `3k`, `3k + 1` and `3k + 2`.
pub proof fn lemma_vertex_count(lines: Seq<Seq<char>>)
    ensures
        parse_model(lines) matches Ok(m) ==> {
            &&& m.vertexes.len() == 3 * face_count(lines)
            &&& m.triangles.len() == face_count(lines)
            &&& forall|k: int|
                0 <= k < face_count(lines) ==> #[trigger] m.triangles[k] == fresh_triangle(k)
        },
{
    lemma_run_shape(lines);
}

/// Reading the same lines twice gives the same mesh, vertex for vertex and
/// triangle for triangle, or the same error.
pub proof fn lemma_parse_repeatable(a: Seq<Seq<char>>, b: Seq<Seq<char>>)
    requires
        a == b,
    ensures
        parse_model(a) == parse_model(b),
{
}

/// Once a prefix of the lines fails, every longer prefix fails the same way.
proof fn lemma_run_error_sticks(lines: Seq<Seq<char>>, n: int)
    requires
        0 <= n <= lines.len(),
        run(lines.take(n)) is Err,
    ensures
        run(lines) == run(lines.take(n)),
    decreases lines.len() - n,
{
    if n < lines.len() {
        assert(lines.take(n + 1).drop_last() =~= lines.take(n));
        lemma_run_error_sticks(lines, n + 1);
    } else {
        assert(lines.take(n) =~= lines);
    }
}

} // verus!
