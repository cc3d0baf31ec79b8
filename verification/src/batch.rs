//! Partition of a flattened index stream into draw runs.
//!
//! A mesh keeps the corner counts of its faces in face order. A draw run is a
//! contiguous span of the index stream that one drawing call renders:
//! neighbouring triangles share a run, every other face gets a run to itself.

use vstd::prelude::*;

verus! {

/// A contiguous span `[start, start + count)` of the index stream, to be drawn
/// with faces of `arity` corners.
#[derive(Clone, Copy, Debug, PartialEq, Eq, Structural)]
pub struct DrawRun {
    pub start: usize,
    pub count: usize,
    pub arity: usize,
}

/// The mathematical content of a [`DrawRun`].
pub struct Span {
    pub start: int,
    pub count: int,
    pub arity: int,
}

impl View for DrawRun {
    type V = Span;

    open spec fn view(&self) -> Span {
        Span { start: self.start as int, count: self.count as int, arity: self.arity as int }
    }
}

/// How the indices of a run are assembled into triangles.
#[derive(Clone, Copy, Debug, PartialEq, Eq, Structural)]
pub enum Primitive {
    /// Every three indices form one triangle.
    Triangles,
    /// The run is one convex polygon, fanned out from its first corner.
    TriangleFan,
}

/// Why a mesh cannot be drawn.
#[derive(Clone, Copy, Debug, PartialEq, Eq, Structural)]
pub enum DrawError {
    /// A run is made of faces with one or two corners.
    UnsupportedArity,
}

/// The spans of a sequence of runs.
pub open spec fn spans(runs: Seq<DrawRun>) -> Seq<Span> {
    runs.map_values(|r: DrawRun| r@)
}

/// The number of indices that the faces of `arities` stand for.
pub open spec fn total(arities: Seq<usize>) -> int
    decreases arities.len(),
{
    if arities.len() == 0 {
        0
    } else {
        total(arities.drop_last()) + arities.last() as int
    }
}

/// What a left-to-right scan over the faces has gathered.
pub struct Scan {
    /// The runs so far, the last of them possibly still growing.
    pub runs: Seq<Span>,
    /// The position in the index stream behind the last face that was read.
    pub cursor: int,
    /// Whether the last run is still growing.
    pub open: bool,
}

/// The scan over all of `arities`, against an index stream of `len` entries.
///
/// A face is read only while the cursor is inside the stream. A face without
/// corners closes the run before it and contributes nothing. A triangle
/// that directly follows a triangle extends its run; any other face begins
/// a run of its own.
pub open spec fn scan(arities: Seq<usize>, len: int) -> Scan
    decreases arities.len(),
{
    if arities.len() == 0 {
        Scan { runs: Seq::empty(), cursor: 0, open: false }
    } else {
        let before = scan(arities.drop_last(), len);
        let a = arities.last() as int;
        if before.cursor >= len {
            before
        } else if a == 0 {
            Scan { runs: before.runs, cursor: before.cursor, open: false }
        } else if a == 3 && before.open && before.runs.last().arity == 3 {
            let last = before.runs.last();
            Scan {
                runs: before.runs.drop_last().push(
                    Span { start: last.start, count: last.count + 3, arity: 3 },
                ),
                cursor: before.cursor + 3,
                open: true,
            }
        } else {
            Scan {
                runs: before.runs.push(Span { start: before.cursor, count: a, arity: a }),
                cursor: before.cursor + a,
                open: true,
            }
        }
    }
}

/// `runs` with its last run shortened by one index, and dropped if nothing
/// is left of it.
pub open spec fn trimmed(runs: Seq<Span>) -> Seq<Span>
    recommends
        runs.len() > 0,
{
    let last = runs.last();
    if last.count <= 1 {
        runs.drop_last()
    } else {
        runs.drop_last().push(Span { start: last.start, count: last.count - 1, arity: last.arity })
    }
}

/// The draw runs of a mesh with the given face arities and `len` indices.
///
/// Where the scan ends with a growing run off the end of the index stream,
/// short of it or beyond it, that run is shortened by one index.
pub open spec fn batches(arities: Seq<usize>, len: int) -> Seq<Span> {
    let s = scan(arities, len);
    if s.open && s.cursor != len {
        trimmed(s.runs)
    } else {
        s.runs
    }
}

/// Whether some run is made of faces with one or two corners.
pub open spec fn has_degenerate(runs: Seq<Span>) -> bool {
    exists|i: int|
        0 <= i < runs.len() && ((#[trigger] runs[i]).arity == 1 || runs[i].arity == 2)
}

/// A prefix of the faces that is one face longer stands for the indices of
/// that face more.
proof fn lemma_take_step(arities: Seq<usize>, k: int)
    requires
        0 <= k < arities.len(),
    ensures
        arities.take(k + 1).drop_last() == arities.take(k),
        arities.take(k + 1).last() == arities[k],
        total(arities.take(k + 1)) == total(arities.take(k)) + arities[k] as int,
{
    assert(arities.take(k + 1).drop_last() =~= arities.take(k));
}

/// The faces of a prefix stand for no more indices than all the faces do.
pub proof fn lemma_total_prefix(arities: Seq<usize>, k: int)
    requires
        0 <= k <= arities.len(),
    ensures
        0 <= total(arities.take(k)) <= total(arities),
    decreases arities.len(),
{
    if k == arities.len() {
        assert(arities.take(k) =~= arities);
        if arities.len() > 0 {
            lemma_total_prefix(arities.drop_last(), k - 1);
            assert(arities.drop_last().take(k - 1) =~= arities.drop_last());
        }
    } else {
        lemma_total_prefix(arities.drop_last(), k);
        assert(arities.drop_last().take(k) =~= arities.take(k));
    }
}

/// Once the cursor has left the index stream no further face is read.
proof fn lemma_scan_saturated(arities: Seq<usize>, len: int, k: int)
    requires
        0 <= k <= arities.len(),
        scan(arities.take(k), len).cursor >= len,
    ensures
        scan(arities, len) == scan(arities.take(k), len),
    decreases arities.len(),
{
    if k == arities.len() {
        assert(arities.take(k) =~= arities);
    } else {
        assert(arities.drop_last().take(k) =~= arities.take(k));
        lemma_scan_saturated(arities.drop_last(), len, k);
    }
}

/// The spans of a sequence of runs that has grown by one run.
proof fn lemma_spans_push(runs: Seq<DrawRun>, run: DrawRun)
    ensures
        spans(runs.push(run)) == spans(runs).push(run@),
{
    assert(spans(runs.push(run)) =~= spans(runs).push(run@));
}

/// Partitions an index stream of `len` entries into draw runs, given the
/// corner count of each face in face order.
pub fn batch(arities: &Vec<usize>, len: usize) -> (runs: Vec<DrawRun>)
    requires
        total(arities@) <= usize::MAX,
    ensures
        spans(runs@) == batches(arities@, len as int),
{
    let n: usize = arities.len();
    let mut runs: Vec<DrawRun> = Vec::new();
    let mut face: usize = 0;
    let mut cursor: usize = 0;
    let mut start: usize = 0;
    let mut arity: usize = 0;
    proof {
        assert(arities@.take(0) =~= Seq::<usize>::empty());
        assert(spans(runs@) =~= Seq::<Span>::empty());
    }
    while face < n && cursor < len
        invariant
            n == arities.len(),
            face <= n,
            start <= cursor,
            total(arities@) <= usize::MAX,
            scan(arities@.take(face as int), len as int).cursor == cursor,
            cursor <= total(arities@.take(face as int)),
            scan(arities@.take(face as int), len as int).open == (cursor != start),
            scan(arities@.take(face as int), len as int).runs == if cursor != start {
                spans(runs@).push(
                    Span {
                        start: start as int,
                        count: cursor as int - start as int,
                        arity: arity as int,
                    },
                )
            } else {
                spans(runs@)
            },
        decreases n - face,
    {
        let a: usize = arities[face];
        proof {
            lemma_take_step(arities@, face as int);
            lemma_total_prefix(arities@, face as int + 1);
        }
        if cursor != start && (arity != 3 || a != 3) {
            let run = DrawRun { start, count: cursor - start, arity };
            proof {
                lemma_spans_push(runs@, run);
            }
            runs.push(run);
            start = cursor;
        }
        if cursor == start {
            arity = a;
        }
        cursor = cursor + a;
        face = face + 1;
        proof {
            let before = scan(arities@.take(face as int - 1), len as int);
            let after = scan(arities@.take(face as int), len as int);
            if a == 3 && before.open && before.runs.last().arity == 3 {
                assert(after.runs =~= spans(runs@).push(
                    Span {
                        start: start as int,
                        count: cursor as int - start as int,
                        arity: arity as int,
                    },
                ));
            }
        }
    }
    proof {
        if face < n {
            lemma_scan_saturated(arities@, len as int, face as int);
        } else {
            assert(arities@.take(face as int) =~= arities@);
        }
    }
    if cursor != start {
        let count: usize = if cursor != len {
            cursor - start - 1
        } else {
            cursor - start
        };
        if count > 0 {
            let run = DrawRun { start, count, arity };
            proof {
                lemma_spans_push(runs@, run);
                let open = Span {
                    start: start as int,
                    count: cursor as int - start as int,
                    arity: arity as int,
                };
                assert(spans(runs@).push(open).drop_last() =~= spans(runs@));
            }
            runs.push(run);
        } else {
            proof {
                let open = Span {
                    start: start as int,
                    count: cursor as int - start as int,
                    arity: arity as int,
                };
                assert(spans(runs@).push(open).drop_last() =~= spans(runs@));
            }
        }
    }
    runs
}

/// Whether run `i` is not empty and begins where the run before it ends, the
/// first at the start of the index stream.
pub open spec fn follows(runs: Seq<Span>, i: int) -> bool {
    runs[i].count > 0 && runs[i].start == if i == 0 {
        0
    } else {
        runs[i - 1].start + runs[i - 1].count
    }
}

/// Whether the runs follow one another without gap or overlap from the
/// start of the index stream, none of them empty.
pub open spec fn chained(runs: Seq<Span>) -> bool {
    forall|i: int| 0 <= i < runs.len() ==> #[trigger] follows(runs, i)
}

/// The position behind the last run.
pub open spec fn end_of(runs: Seq<Span>) -> int {
    if runs.len() == 0 {
        0
    } else {
        runs.last().start + runs.last().count
    }
}

/// Whether position `p` of the index stream lies in `run`.
pub open spec fn holds(run: Span, p: int) -> bool {
    run.start <= p < run.start + run.count
}

/// Whether some run of `runs` draws position `p`.
pub open spec fn covered(runs: Seq<Span>, p: int) -> bool {
    exists|i: int| 0 <= i < runs.len() && holds(#[trigger] runs[i], p)
}

/// Whether every run is made of faces with at least one corner.
pub open spec fn cornered(runs: Seq<Span>) -> bool {
    forall|i: int| 0 <= i < runs.len() ==> (#[trigger] runs[i]).arity > 0
}

/// A chained sequence stays chained when its last run is replaced by one
/// with the same start, or when a run is added at its end.
proof fn lemma_chained_last(before: Seq<Span>, after: Seq<Span>)
    requires
        chained(before),
        after.len() > 0,
        after.last().count > 0,
        after.len() == before.len() && after.last().start == before.last().start || after.len()
            == before.len() + 1 && after.last().start == end_of(before),
        forall|i: int| 0 <= i < after.len() - 1 ==> after[i] == before[i],
    ensures
        chained(after),
{
    assert forall|i: int| 0 <= i < after.len() implies #[trigger] follows(after, i) by {
        if i < before.len() {
            assert(follows(before, i));
        }
        if i > 0 {
            assert(follows(before, i - 1));
        }
    }
}

/// A chained sequence without its last run is chained.
proof fn lemma_chained_front(runs: Seq<Span>)
    requires
        chained(runs),
        runs.len() > 0,
    ensures
        chained(runs.drop_last()),
        end_of(runs.drop_last()) == runs.last().start,
{
    let front = runs.drop_last();
    assert forall|i: int| 0 <= i < front.len() implies #[trigger] follows(front, i) by {
        assert(follows(runs, i));
    }
    assert(follows(runs, runs.len() - 1));
}

/// The shape of a scan: its runs are chained and end at the cursor, the
/// cursor has passed over whole faces only, and it stops short of the last
/// face only after leaving the index stream.
proof fn lemma_scan_shape(arities: Seq<usize>, len: int)
    ensures
        chained(scan(arities, len).runs),
        cornered(scan(arities, len).runs),
        end_of(scan(arities, len).runs) == scan(arities, len).cursor,
        scan(arities, len).open ==> scan(arities, len).runs.len() > 0,
        0 <= scan(arities, len).cursor <= total(arities),
        scan(arities, len).cursor == total(arities) || scan(arities, len).cursor >= len,
    decreases arities.len(),
{
    if arities.len() > 0 {
        lemma_scan_shape(arities.drop_last(), len);
        let before = scan(arities.drop_last(), len);
        let after = scan(arities, len);
        let a = arities.last() as int;
        if before.cursor < len && a != 0 {
            if before.runs.len() > 0 {
                assert(follows(before.runs, before.runs.len() - 1));
            }
            lemma_chained_last(before.runs, after.runs);
            assert forall|i: int| 0 <= i < after.runs.len() implies (#[trigger] after.runs[i]).arity
                > 0 by {
                if i < after.runs.len() - 1 {
                    assert(after.runs[i] == before.runs[i]);
                }
            }
        }
    }
}

/// In a chained sequence an earlier run ends before a later one begins.
proof fn lemma_chained_order(runs: Seq<Span>, i: int, j: int)
    requires
        chained(runs),
        0 <= i < j < runs.len(),
    ensures
        runs[i].start + runs[i].count <= runs[j].start,
    decreases j - i,
{
    assert(follows(runs, j));
    if i + 1 < j {
        lemma_chained_order(runs, i, j - 1);
        assert(follows(runs, j - 1));
    }
}

/// In a chained sequence every position before its end lies in some run.
proof fn lemma_chained_cover(runs: Seq<Span>, p: int) -> (i: int)
    requires
        chained(runs),
        0 <= p < end_of(runs),
    ensures
        0 <= i < runs.len(),
        holds(runs[i], p),
    decreases runs.len(),
{
    if runs.last().start <= p {
        runs.len() - 1
    } else {
        lemma_chained_front(runs);
        lemma_chained_cover(runs.drop_last(), p)
    }
}

/// The draw runs follow one another without gap or overlap from the start of
/// the index stream, and none is empty. Where the faces stand for exactly the
/// indices of the stream, the runs end at its end: every index is drawn by
/// exactly one run.
pub proof fn lemma_batches_tile(arities: Seq<usize>, len: int)
    ensures
        chained(batches(arities, len)),
        total(arities) == len ==> end_of(batches(arities, len)) == len,
        total(arities) == len ==> forall|p: int|
            0 <= p < len ==> #[trigger] covered(batches(arities, len), p),
        forall|i: int, j: int, p: int|
            0 <= i < batches(arities, len).len() && 0 <= j < batches(arities, len).len()
                && #[trigger] holds(batches(arities, len)[i], p) && #[trigger] holds(
                batches(arities, len)[j],
                p,
            ) ==> i == j,
{
    lemma_scan_shape(arities, len);
    let s = scan(arities, len);
    let runs = batches(arities, len);
    if s.open && s.cursor != len {
        lemma_chained_front(s.runs);
        if s.runs.last().count > 1 {
            lemma_chained_last(s.runs, runs);
        }
    }
    if total(arities) == len {
        assert forall|p: int| 0 <= p < len implies #[trigger] covered(runs, p) by {
            let i = lemma_chained_cover(runs, p);
            assert(holds(runs[i], p));
        }
    }
    assert forall|i: int, j: int, p: int|
        0 <= i < runs.len() && 0 <= j < runs.len() && #[trigger] holds(runs[i], p)
            && #[trigger] holds(runs[j], p) implies i == j by {
        if i < j {
            lemma_chained_order(runs, i, j);
        } else if j < i {
            lemma_chained_order(runs, j, i);
        }
    }
}

/// The scan of triangles alone, against a stream that holds them all.
proof fn lemma_scan_triangles(arities: Seq<usize>, len: int)
    requires
        arities.len() > 0,
        forall|i: int| 0 <= i < arities.len() ==> arities[i] == 3,
        3 * (arities.len() as int) <= len,
    ensures
        total(arities) == 3 * (arities.len() as int),
        scan(arities, len) == (Scan {
            runs: seq![Span { start: 0, count: 3 * (arities.len() as int), arity: 3 }],
            cursor: 3 * (arities.len() as int),
            open: true,
        }),
    decreases arities.len(),
{
    let front = arities.drop_last();
    assert(arities.last() == 3);
    if front.len() == 0 {
        assert(total(front) == 0);
        assert(scan(front, len).cursor == 0 && !scan(front, len).open);
        assert(scan(arities, len).runs =~= seq![Span { start: 0, count: 3, arity: 3 }]);
    } else {
        assert forall|i: int| 0 <= i < front.len() implies front[i] == 3 by {
            assert(front[i] == arities[i]);
        }
        lemma_scan_triangles(front, len);
        assert(scan(arities, len).runs =~= seq![
            Span { start: 0, count: 3 * (arities.len() as int), arity: 3 },
        ]);
    }
}

/// A mesh of `n` triangles and nothing else, with its `3 * n` indices, is
/// drawn by a single run.
pub proof fn lemma_triangles_one_run(arities: Seq<usize>)
    requires
        arities.len() > 0,
        forall|i: int| 0 <= i < arities.len() ==> arities[i] == 3,
    ensures
        total(arities) == 3 * (arities.len() as int),
        batches(arities, 3 * (arities.len() as int)) == seq![
            Span { start: 0, count: 3 * (arities.len() as int), arity: 3 },
        ],
{
    lemma_scan_triangles(arities, 3 * (arities.len() as int));
}

/// Whether faces `i` and `i + 1` are both triangles.
pub open spec fn twin_triangles(arities: Seq<usize>, i: int) -> bool {
    arities[i] == 3 && arities[i + 1] == 3
}

/// The scan of faces of which no two neighbours are both triangles and none
/// is without corners, against a stream that holds them all.
proof fn lemma_scan_split(arities: Seq<usize>, len: int)
    requires
        forall|i: int| 0 <= i < arities.len() ==> arities[i] > 0,
        forall|i: int| 0 <= i < arities.len() - 1 ==> !#[trigger] twin_triangles(arities, i),
        total(arities) <= len,
    ensures
        scan(arities, len).runs.len() == arities.len(),
        scan(arities, len).cursor == total(arities),
        scan(arities, len).open == (arities.len() > 0),
        forall|i: int|
            0 <= i < arities.len() ==> #[trigger] scan(arities, len).runs[i] == (Span {
                start: total(arities.take(i)),
                count: arities[i] as int,
                arity: arities[i] as int,
            }),
    decreases arities.len(),
{
    if arities.len() > 0 {
        let front = arities.drop_last();
        assert forall|i: int| 0 <= i < front.len() - 1 implies !#[trigger] twin_triangles(
            front,
            i,
        ) by {
            assert(!twin_triangles(arities, i));
        }
        lemma_scan_split(front, len);
        let before = scan(front, len);
        let after = scan(arities, len);
        if front.len() > 0 {
            assert(!twin_triangles(arities, front.len() - 1));
            assert(front.take(front.len() - 1) =~= front.drop_last());
        }
        assert forall|i: int| 0 <= i < arities.len() implies #[trigger] after.runs[i] == (Span {
            start: total(arities.take(i)),
            count: arities[i] as int,
            arity: arities[i] as int,
        }) by {
            if i < front.len() {
                assert(after.runs[i] == before.runs[i]);
                assert(front.take(i) =~= arities.take(i));
            } else {
                assert(arities.take(i) =~= front);
            }
        }
    }
}

/// Where no face is without corners and no two neighbouring faces are both
/// triangles, every face is drawn by a run of its own: neighbouring faces of
/// different arity are never drawn together.
pub proof fn lemma_one_run_per_face(arities: Seq<usize>)
    requires
        forall|i: int| 0 <= i < arities.len() ==> arities[i] > 0,
        forall|i: int| 0 <= i < arities.len() - 1 ==> !#[trigger] twin_triangles(arities, i),
    ensures
        batches(arities, total(arities)).len() == arities.len(),
        forall|i: int|
            0 <= i < arities.len() ==> #[trigger] batches(arities, total(arities))[i] == (Span {
                start: total(arities.take(i)),
                count: arities[i] as int,
                arity: arities[i] as int,
            }),
{
    lemma_scan_split(arities, total(arities));
}

/// Whether runs `i` and `i + 1` are both runs of triangles.
pub open spec fn twin_runs(runs: Seq<Span>, i: int) -> bool {
    runs[i].arity == 3 && runs[i + 1].arity == 3
}

/// Whether no run could be joined with its neighbour: no two neighbouring
/// runs are both runs of triangles.
pub open spec fn unmergeable(runs: Seq<Span>) -> bool {
    forall|i: int| 0 <= i < runs.len() - 1 ==> !#[trigger] twin_runs(runs, i)
}

/// Whether every run of faces that are no triangles holds one face at most.
pub open spec fn single_faced(runs: Seq<Span>) -> bool {
    forall|i: int| 0 <= i < runs.len() ==> (#[trigger] runs[i]).arity != 3 ==> runs[i].count <= runs[i].arity
}

/// The scan of faces none of which is without corners never leaves two
/// runs of triangles side by side.
proof fn lemma_scan_maximal(arities: Seq<usize>, len: int)
    requires
        forall|i: int| 0 <= i < arities.len() ==> arities[i] > 0,
    ensures
        unmergeable(scan(arities, len).runs),
        single_faced(scan(arities, len).runs),
        scan(arities, len).open == (scan(arities, len).runs.len() > 0),
    decreases arities.len(),
{
    if arities.len() > 0 {
        let front = arities.drop_last();
        lemma_scan_maximal(front, len);
        let before = scan(front, len);
        let after = scan(arities, len);
        if before.cursor < len {
            assert forall|i: int| 0 <= i < after.runs.len() - 1 implies !#[trigger] twin_runs(
                after.runs,
                i,
            ) by {
                if i < before.runs.len() - 1 {
                    assert(!twin_runs(before.runs, i));
                }
            }
            assert forall|i: int|
                0 <= i < after.runs.len() && (#[trigger] after.runs[i]).arity
                    != 3 implies after.runs[i].count <= after.runs[i].arity by {
                if i < after.runs.len() - 1 {
                    assert(after.runs[i] == before.runs[i]);
                }
            }
        }
    }
}

/// The draw runs are as few as contiguous drawing allows: where no face is
/// without corners, no two neighbouring runs are both runs of triangles, and
/// a run of other faces holds a single face.
pub proof fn lemma_batches_maximal(arities: Seq<usize>, len: int)
    requires
        forall|i: int| 0 <= i < arities.len() ==> arities[i] > 0,
    ensures
        unmergeable(batches(arities, len)),
        single_faced(batches(arities, len)),
{
    lemma_scan_maximal(arities, len);
    let s = scan(arities, len);
    let runs = batches(arities, len);
    if s.open && s.cursor != len {
        assert forall|i: int| 0 <= i < runs.len() - 1 implies !#[trigger] twin_runs(runs, i) by {
            assert(!twin_runs(s.runs, i));
        }
        assert forall|i: int| 0 <= i < runs.len() && (#[trigger] runs[i]).arity != 3 implies runs[i].count
            <= runs[i].arity by {
            assert(s.runs[i].arity != 3 ==> s.runs[i].count <= s.runs[i].arity);
        }
    }
}

/// Whether every run holds whole faces: its length is a multiple of the
/// corner count of its faces.
pub open spec fn whole_faced(runs: Seq<Span>) -> bool {
    forall|i: int|
        0 <= i < runs.len() ==> (#[trigger] runs[i]).arity > 0 && runs[i].count % runs[i].arity
            == 0
}

/// The runs of a scan hold whole faces.
proof fn lemma_scan_whole(arities: Seq<usize>, len: int)
    ensures
        whole_faced(scan(arities, len).runs),
    decreases arities.len(),
{
    if arities.len() > 0 {
        lemma_scan_whole(arities.drop_last(), len);
        lemma_scan_shape(arities.drop_last(), len);
        let before = scan(arities.drop_last(), len);
        let after = scan(arities, len);
        let a = arities.last() as int;
        if before.cursor < len && a != 0 {
            let last = after.runs.len() - 1;
            if a == 3 && before.open && before.runs.last().arity == 3 {
                assert(before.runs[last].count % before.runs[last].arity == 0);
                assert(after.runs[last].count % 3 == 0);
            } else {
                assert(a % a == 0) by (nonlinear_arith)
                    requires
                        a > 0,
                ;
                assert(after.runs[last].count % after.runs[last].arity == 0);
            }
            assert forall|i: int| 0 <= i < after.runs.len() implies (#[trigger] after.runs[i]).arity
                > 0 && after.runs[i].count % after.runs[i].arity == 0 by {
                if i < last {
                    assert(after.runs[i] == before.runs[i]);
                }
            }
        }
    }
}

/// Where the faces stand for exactly the indices of the stream, no run is
/// cut short: every run holds whole faces, so that a run never ends inside
/// a face.
pub proof fn lemma_batches_whole(arities: Seq<usize>, len: int)
    requires
        total(arities) == len,
    ensures
        batches(arities, len) == scan(arities, len).runs,
        whole_faced(batches(arities, len)),
{
    lemma_scan_shape(arities, len);
    lemma_scan_whole(arities, len);
}

/// The runs of a scan over faces of three corners or more are made of such
/// faces.
proof fn lemma_scan_cornered(arities: Seq<usize>, len: int)
    requires
        forall|k: int| 0 <= k < arities.len() ==> (#[trigger] arities[k]) >= 3,
    ensures
        forall|i: int|
            0 <= i < scan(arities, len).runs.len() ==> (#[trigger] scan(arities, len).runs[i]).arity
                >= 3,
    decreases arities.len(),
{
    if arities.len() > 0 {
        let front = arities.drop_last();
        assert forall|k: int| 0 <= k < front.len() implies (#[trigger] front[k]) >= 3 by {
            assert(front[k] == arities[k]);
        }
        lemma_scan_cornered(front, len);
        let before = scan(front, len);
        let after = scan(arities, len);
        assert(arities.last() >= 3);
        assert forall|i: int| 0 <= i < after.runs.len() implies (#[trigger] after.runs[i]).arity
            >= 3 by {
            if i < after.runs.len() - 1 {
                assert(after.runs[i] == before.runs[i]);
            } else if after.runs.len() == before.runs.len() && before.cursor >= len {
                assert(after.runs[i] == before.runs[i]);
            }
        }
    }
}

/// Where every face has three corners or more, every run is made of such
/// faces: none is made of faces with one or two corners.
pub proof fn lemma_cornered_runs(arities: Seq<usize>, len: int)
    requires
        forall|k: int| 0 <= k < arities.len() ==> (#[trigger] arities[k]) >= 3,
    ensures
        forall|i: int|
            0 <= i < batches(arities, len).len() ==> (#[trigger] batches(arities, len)[i]).arity
                >= 3,
        !has_degenerate(batches(arities, len)),
{
    lemma_scan_cornered(arities, len);
    lemma_scan_shape(arities, len);
    let s = scan(arities, len);
    let runs = batches(arities, len);
    assert forall|i: int| 0 <= i < runs.len() implies (#[trigger] runs[i]).arity >= 3 by {
        assert(s.runs[i].arity >= 3);
    }
}

/// The primitive that draws faces of `arity` corners, if there is one.
pub open spec fn primitive_of(arity: int) -> Result<Primitive, DrawError> {
    if arity == 1 || arity == 2 {
        Err(DrawError::UnsupportedArity)
    } else if arity == 3 {
        Ok(Primitive::Triangles)
    } else {
        Ok(Primitive::TriangleFan)
    }
}

impl DrawRun {
    /// The primitive that draws this run: triangles for faces of three
    /// corners, a fan for larger faces, none for smaller ones.
    pub fn primitive(&self) -> (r: Result<Primitive, DrawError>)
        ensures
            r == primitive_of(self.arity as int),
    {
        if self.arity == 1 || self.arity == 2 {
            Err(DrawError::UnsupportedArity)
        } else if self.arity == 3 {
            Ok(Primitive::Triangles)
        } else {
            Ok(Primitive::TriangleFan)
        }
    }
}

impl DrawError {
    /// The error in words.
    pub fn message(&self) -> (r: &'static str)
        ensures
            r@ == "error: unsupported index set 1 or 2"@,
    {
        "error: unsupported index set 1 or 2"
    }
}

/// The number of indices that the faces stand for, unless it exceeds what a
/// `usize` holds.
pub fn checked_total(arities: &Vec<usize>) -> (r: Option<usize>)
    ensures
        match r {
            Some(sum) => sum == total(arities@),
            None => total(arities@) > usize::MAX,
        },
{
    let mut sum: usize = 0;
    let mut i: usize = 0;
    proof {
        assert(arities@.take(0) =~= Seq::<usize>::empty());
    }
    while i < arities.len()
        invariant
            i <= arities.len(),
            sum == total(arities@.take(i as int)),
        decreases arities.len() - i,
    {
        proof {
            lemma_take_step(arities@, i as int);
            lemma_total_prefix(arities@, i as int + 1);
        }
        match sum.checked_add(arities[i]) {
            Some(next) => {
                sum = next;
            },
            None => {
                return None;
            },
        }
        i = i + 1;
    }
    proof {
        assert(arities@.take(i as int) =~= arities@);
    }
    Some(sum)
}

} // verus!
