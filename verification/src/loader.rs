//! Reading the mesh text.
//!
//! The text is a sequence of lines, each a sequence of tokens separated by
//! white space. A line that begins with `v` is a vertex record of three
//! finite coordinates; one that begins with `f` is a face record of three or
//! more corner indices, counted from one. Blank lines and lines that begin
//! with anything else are passed over.
//!
//! Reading a coordinate as a binary32 value is left to the caller, who
//! hands each token over together with that reading.

use vstd::prelude::*;
use vstd::string::{StrSliceExecFns, StringExecFns};
use crate::mat::{finite, is_finite, Vec3d};
use crate::model::{
    lemma_face_keeps_inference, lemma_face_keeps_match, lemma_vertex_keeps_finite,
    lemma_vertex_keeps_peak, next_index_set, Model, ModelView, MIXED, UNSET,
};

verus! {

/// Whether `c` is white space: a character with the Unicode property
/// `White_Space`.
pub open spec fn is_space(c: char) -> bool {
    let n = c as u32;
    ||| 0x09 <= n <= 0x0d
    ||| n == 0x20
    ||| n == 0x85
    ||| n == 0xa0
    ||| n == 0x1680
    ||| 0x2000 <= n <= 0x200a
    ||| n == 0x2028
    ||| n == 0x2029
    ||| n == 0x202f
    ||| n == 0x205f
    ||| n == 0x3000
}

/// The tokens of a line: its maximal runs of characters that are not white
/// space, in order.
pub open spec fn tokens_of(line: Seq<char>) -> Seq<Seq<char>>
    decreases line.len(),
{
    if line.len() == 0 {
        Seq::empty()
    } else {
        let before = tokens_of(line.drop_last());
        let c = line.last();
        if is_space(c) {
            before
        } else if line.len() >= 2 && !is_space(line[line.len() - 2]) {
            before.drop_last().push(before.last().push(c))
        } else {
            before.push(seq![c])
        }
    }
}

fn space(c: char) -> (r: bool)
    ensures
        r == is_space(c),
{
    let n: u32 = c as u32;
    (0x09 <= n && n <= 0x0d) || n == 0x20 || n == 0x85 || n == 0xa0 || n == 0x1680 || (0x2000 <= n
        && n <= 0x200a) || n == 0x2028 || n == 0x2029 || n == 0x202f || n == 0x205f || n == 0x3000
}

/// The characters of `text`.
fn chars_of(text: &str) -> (r: Vec<char>)
    ensures
        r@ == text@,
{
    let mut out: Vec<char> = Vec::new();
    for c in it: text.chars()
        invariant
            it.seq() == text@,
            out@ == text@.take(it.index() as int),
    {
        out.push(c);
        proof {
            assert(out@ =~= text@.take(it.index() + 1));
        }
    }
    proof {
        assert(text@.take(text@.len() as int) =~= text@);
    }
    out
}

/// The tokens that have been closed, and the one that is still growing.
spec fn gathered(closed: Seq<Seq<char>>, line: Seq<char>, start: int, end: int) -> Seq<Seq<char>> {
    if start < end {
        closed.push(line.subrange(start, end))
    } else {
        closed
    }
}

/// Splits a line into its tokens.
pub fn tokenize(line: &str) -> (r: Vec<String>)
    ensures
        r.deep_view() == tokens_of(line@),
{
    let chars: Vec<char> = chars_of(line);
    let n: usize = chars.len();
    let mut out: Vec<String> = Vec::new();
    let mut start: usize = 0;
    let mut i: usize = 0;
    proof {
        assert(line@.take(0) =~= Seq::<char>::empty());
        assert(out.deep_view() =~= Seq::<Seq<char>>::empty());
    }
    while i < n
        invariant
            n == chars.len(),
            chars@ == line@,
            i <= n,
            start <= i,
            start < i ==> !is_space(chars@[i - 1]),
            start == i ==> i == 0 || is_space(chars@[i - 1]),
            tokens_of(line@.take(i as int)) == gathered(
                out.deep_view(),
                line@,
                start as int,
                i as int,
            ),
        decreases n - i,
    {
        let ghost closed = out.deep_view();
        proof {
            assert(line@.take(i + 1).drop_last() =~= line@.take(i as int));
        }
        if space(chars[i]) {
            if start < i {
                let token: String = line.substring_char(start, i).to_owned();
                out.push(token);
                proof {
                    assert(out.deep_view() =~= closed.push(line@.subrange(start as int, i as int)));
                }
            }
            start = i + 1;
        } else {
            proof {
                if start < i {
                    assert(closed.push(line@.subrange(start as int, i as int)).drop_last()
                        =~= closed);
                    assert(line@.subrange(start as int, i as int).push(line@[i as int])
                        =~= line@.subrange(start as int, i + 1));
                } else {
                    assert(seq![line@[i as int]] =~= line@.subrange(start as int, i + 1));
                }
            }
        }
        i = i + 1;
    }
    proof {
        assert(line@.take(n as int) =~= line@);
    }
    if start < n {
        let ghost closed = out.deep_view();
        let token: String = line.substring_char(start, n).to_owned();
        out.push(token);
        proof {
            assert(out.deep_view() =~= closed.push(line@.subrange(start as int, n as int)));
        }
    }
    out
}

/// Whether `c` is one of the digits `0` to `9`.
pub open spec fn is_digit(c: char) -> bool {
    0x30 <= c as u32 <= 0x39
}

/// Whether `text` is made of digits alone.
pub open spec fn all_digits(text: Seq<char>) -> bool {
    forall|i: int| 0 <= i < text.len() ==> is_digit(#[trigger] text[i])
}

/// The number that the digits of `text` denote in base ten.
pub open spec fn number(text: Seq<char>) -> int
    decreases text.len(),
{
    if text.len() == 0 {
        0
    } else {
        number(text.drop_last()) * 10 + (text.last() as u32 - 0x30)
    }
}

/// The integer that `text` denotes: one or more digits, with or without a
/// sign before them.
pub open spec fn integer(text: Seq<char>) -> Option<int> {
    if text.len() > 0 && (text[0] == '-' || text[0] == '+') {
        let digits = text.subrange(1, text.len() as int);
        if digits.len() == 0 || !all_digits(digits) {
            None
        } else if text[0] == '-' {
            Some(-number(digits))
        } else {
            Some(number(digits))
        }
    } else if text.len() == 0 || !all_digits(text) {
        None
    } else {
        Some(number(text))
    }
}

/// The vertex that a corner field names. Corners are counted from one; a
/// field below one names the first vertex, and a field that is no integer,
/// or that exceeds `u32::MAX`, names none.
pub open spec fn face_index(text: Seq<char>) -> Option<u32> {
    match integer(text) {
        None => None,
        Some(v) => if v > u32::MAX {
            None
        } else if v < 1 {
            Some(0u32)
        } else {
            Some((v - 1) as u32)
        },
    }
}

/// Digits denote a number that is not negative.
proof fn lemma_number_nonnegative(text: Seq<char>)
    requires
        all_digits(text),
    ensures
        0 <= number(text),
    decreases text.len(),
{
    if text.len() > 0 {
        assert(is_digit(text.last()));
        assert forall|i: int| 0 <= i < text.drop_last().len() implies is_digit(
            #[trigger] text.drop_last()[i],
        ) by {
            assert(text.drop_last()[i] == text[i]);
        }
        lemma_number_nonnegative(text.drop_last());
    }
}

/// Reads a corner field.
pub fn parse_index(text: &str) -> (r: Option<u32>)
    ensures
        r == face_index(text@),
{
    let chars: Vec<char> = chars_of(text);
    let n: usize = chars.len();
    if n == 0 {
        return None;
    }
    let negative: bool = chars[0] == '-';
    let first: usize = if chars[0] == '-' || chars[0] == '+' {
        1
    } else {
        0
    };
    if first == n {
        return None;
    }
    let ghost digits = text@.subrange(first as int, n as int);
    proof {
        if first == 0 {
            assert(digits =~= text@);
        }
        assert(digits.take(0) =~= Seq::<char>::empty());
    }
    let mut value: u64 = 0;
    let mut over: bool = false;
    let mut i: usize = first;
    while i < n
        invariant
            n == chars.len(),
            chars@ == text@,
            first <= i <= n,
            0 < n,
            first == 1 || first == 0,
            (first == 1) == (text@[0] == '-' || text@[0] == '+'),
            digits == text@.subrange(first as int, n as int),
            all_digits(digits.take(i - first)),
            !over ==> value == number(digits.take(i - first)) && value <= u32::MAX,
            over ==> number(digits.take(i - first)) > u32::MAX,
        decreases n - i,
    {
        let c: u32 = chars[i] as u32;
        proof {
            assert(digits[i - first] == text@[i as int]);
            assert(digits.take(i - first + 1).drop_last() =~= digits.take(i - first));
        }
        if c < 0x30 || c > 0x39 {
            proof {
                assert(!is_digit(digits[i - first]));
                assert(!all_digits(digits));
                assert(text@.len() > 0);
                if first == 1 {
                    assert(digits == text@.subrange(1, text@.len() as int));
                } else {
                    assert(digits =~= text@);
                }
            }
            return None;
        }
        proof {
            let longer = digits.take(i - first + 1);
            assert forall|j: int| 0 <= j < longer.len() implies is_digit(#[trigger] longer[j]) by {
                if j < i - first {
                    assert(longer[j] == digits.take(i - first)[j]);
                }
            }
            lemma_number_nonnegative(digits.take(i - first));
        }
        if !over {
            value = value * 10 + (c - 0x30) as u64;
            if value > 0xffff_ffff {
                over = true;
            }
        }
        i = i + 1;
    }
    proof {
        assert(digits.take(n - first) =~= digits);
    }
    if negative {
        proof {
            lemma_number_nonnegative(digits);
        }
        Some(0)
    } else if over {
        None
    } else if value == 0 {
        Some(0)
    } else {
        Some((value - 1) as u32)
    }
}

/// A token of the mesh text, with its reading as a coordinate.
#[derive(Clone, Debug)]
pub struct Token {
    /// The characters of the token.
    pub text: String,
    /// The binary32 value that the token denotes, by its bit pattern, or
    /// nothing where it denotes none.
    pub scalar: Option<u32>,
}

/// The mathematical content of a [`Token`].
pub struct TokenView {
    pub text: Seq<char>,
    pub scalar: Option<u32>,
}

impl View for Token {
    type V = TokenView;

    open spec fn view(&self) -> TokenView {
        TokenView { text: self.text@, scalar: self.scalar }
    }
}

impl DeepView for Token {
    type V = TokenView;

    open spec fn deep_view(&self) -> TokenView {
        self@
    }
}

impl Token {
    pub fn new(text: String, scalar: Option<u32>) -> (r: Self)
        ensures
            r@ == (TokenView { text: text@, scalar }),
    {
        Self { text, scalar }
    }
}

/// Why a mesh text is refused.
#[derive(Clone, Copy, Debug, PartialEq, Eq, Structural)]
pub enum ParseError {
    /// The vertex record at `line` does not have exactly three fields.
    VertexFields { line: usize },
    /// The face record at `line` has fewer than three fields.
    FaceFields { line: usize },
    /// Token `field` of the record at `line` does not denote a number: a
    /// finite one in a vertex record, a whole one in a face record.
    Number { line: usize, field: usize },
    /// The mesh has no vertex.
    Empty,
}

/// Whether `line` is a record of the kind that `keyword` names.
pub open spec fn is_record(line: Seq<TokenView>, keyword: char) -> bool {
    line.len() > 0 && line[0].text == seq![keyword]
}

/// The coordinate that a field of a vertex record denotes: the reading of
/// the token where that is a finite number, and nothing otherwise.
pub open spec fn coordinate(token: TokenView) -> Option<u32> {
    match token.scalar {
        Some(bits) => if is_finite(bits) {
            Some(bits)
        } else {
            None
        },
        None => None,
    }
}

/// The vertex of the vertex record `line`, the line numbered `at`.
pub open spec fn vertex_of(line: Seq<TokenView>, at: usize) -> Result<Vec3d, ParseError> {
    if line.len() != 4 {
        Err(ParseError::VertexFields { line: at })
    } else if coordinate(line[1]) is None {
        Err(ParseError::Number { line: at, field: 1 })
    } else if coordinate(line[2]) is None {
        Err(ParseError::Number { line: at, field: 2 })
    } else if coordinate(line[3]) is None {
        Err(ParseError::Number { line: at, field: 3 })
    } else {
        Ok(Vec3d { d0: coordinate(line[1])->0, d1: coordinate(line[2])->0, d2: coordinate(line[3])->0 })
    }
}

/// The first token from `from` on that names no vertex, or the length of the
/// line if there is none.
pub open spec fn first_bad(line: Seq<TokenView>, from: int) -> int
    decreases line.len() - from,
{
    if from >= line.len() {
        line.len() as int
    } else if face_index(line[from].text) is None {
        from
    } else {
        first_bad(line, from + 1)
    }
}

/// The corners of the face record `line`, the line numbered `at`.
pub open spec fn face_of(line: Seq<TokenView>, at: usize) -> Result<Seq<u32>, ParseError> {
    if line.len() < 4 {
        Err(ParseError::FaceFields { line: at })
    } else if first_bad(line, 1) < line.len() {
        Err(ParseError::Number { line: at, field: first_bad(line, 1) as usize })
    } else {
        Ok(Seq::new((line.len() - 1) as nat, |i: int| face_index(line[i + 1].text)->0))
    }
}

/// A mesh in the making, and the reason why reading stopped, if it did.
pub struct Progress {
    pub model: ModelView,
    pub error: Option<ParseError>,
}

/// The mesh after the line numbered `at`. A record that is refused leaves
/// the mesh as it was.
pub open spec fn after_line(model: ModelView, line: Seq<TokenView>, at: usize) -> Progress {
    if is_record(line, 'v') {
        match vertex_of(line, at) {
            Ok(v) => Progress { model: model.with_vertex(v), error: None },
            Err(e) => Progress { model, error: Some(e) },
        }
    } else if is_record(line, 'f') {
        match face_of(line, at) {
            Ok(face) => Progress { model: model.with_face(face), error: None },
            Err(e) => Progress { model, error: Some(e) },
        }
    } else {
        Progress { model, error: None }
    }
}

/// The mesh after all of `lines`, read in order up to the first record
/// that is refused.
pub open spec fn after_lines(model: ModelView, lines: Seq<Seq<TokenView>>) -> Progress
    decreases lines.len(),
{
    if lines.len() == 0 {
        Progress { model, error: None }
    } else {
        let before = after_lines(model, lines.drop_last());
        if before.error is Some {
            before
        } else {
            after_line(before.model, lines.last(), (lines.len() - 1) as usize)
        }
    }
}

/// The result of reading `lines` into `model`: as `after_lines`, and a text
/// that leaves the mesh without a vertex is refused.
pub open spec fn outcome(model: ModelView, lines: Seq<Seq<TokenView>>) -> Progress {
    let read = after_lines(model, lines);
    if read.error is None && read.model.vertices.len() == 0 {
        Progress { model: read.model, error: Some(ParseError::Empty) }
    } else {
        read
    }
}

/// The source of a mesh.
#[derive(Debug, Clone)]
pub struct Loader {
    file_path: String,
}

impl View for Loader {
    type V = Seq<char>;

    closed spec fn view(&self) -> Seq<char> {
        self.file_path@
    }
}

/// The coordinate that `token` denotes in a vertex record.
fn read_coordinate(token: &Token) -> (r: Option<u32>)
    ensures
        r == coordinate(token@),
{
    match token.scalar {
        Some(bits) => {
            if finite(bits) {
                Some(bits)
            } else {
                None
            }
        },
        None => None,
    }
}

/// Whether the text of `token` is the single character `keyword`.
fn is_keyword(token: &Token, keyword: char) -> (r: bool)
    ensures
        r == (token@.text == seq![keyword]),
{
    let text: &str = token.text.as_str();
    if text.unicode_len() == 1 {
        let c: char = text.get_char(0);
        proof {
            if c == keyword {
                assert(token@.text =~= seq![keyword]);
            }
        }
        c == keyword
    } else {
        false
    }
}

impl Loader {
    pub fn new(path: String) -> (r: Self)
        ensures
            r@ == path@,
    {
        Loader { file_path: path }
    }

    /// The path of the file that holds the mesh text.
    pub fn get_path(&self) -> (r: &String)
        ensures
            r@ == self@,
    {
        &self.file_path
    }

    /// Reads the vertex record `line`, the line numbered `at`, into `model`.
    pub fn parse_v(&self, model: &mut Model, line: &Vec<Token>, at: usize) -> (r: Result<
        (),
        ParseError,
    >)
        ensures
            match vertex_of(line.deep_view(), at) {
                Ok(v) => r is Ok && final(model)@ == old(model)@.with_vertex(v),
                Err(e) => r == Err::<(), ParseError>(e) && final(model)@ == old(model)@,
            },
    {
        proof {
            assert(line.deep_view().len() == line@.len());
        }
        if line.len() != 4 {
            return Err(ParseError::VertexFields { line: at });
        }
        assert(line.deep_view()[1] == line@[1]@);
        assert(line.deep_view()[2] == line@[2]@);
        assert(line.deep_view()[3] == line@[3]@);
        let x1: u32 = match read_coordinate(&line[1]) {
            Some(x) => x,
            None => {
                return Err(ParseError::Number { line: at, field: 1 });
            },
        };
        let x2: u32 = match read_coordinate(&line[2]) {
            Some(x) => x,
            None => {
                return Err(ParseError::Number { line: at, field: 2 });
            },
        };
        let x3: u32 = match read_coordinate(&line[3]) {
            Some(x) => x,
            None => {
                return Err(ParseError::Number { line: at, field: 3 });
            },
        };
        model.push_vertices(Vec3d::new(x1, x2, x3));
        Ok(())
    }

    /// Reads the face record `line`, the line numbered `at`, into `model`.
    pub fn parse_f(&self, model: &mut Model, line: &Vec<Token>, at: usize) -> (r: Result<
        (),
        ParseError,
    >)
        ensures
            match face_of(line.deep_view(), at) {
                Ok(face) => r is Ok && final(model)@ == old(model)@.with_face(face),
                Err(e) => r == Err::<(), ParseError>(e) && final(model)@ == old(model)@,
            },
    {
        let ghost tokens = line.deep_view();
        proof {
            assert(tokens.len() == line@.len());
        }
        if line.len() < 4 {
            return Err(ParseError::FaceFields { line: at });
        }
        let mut face: Vec<u32> = Vec::new();
        let mut i: usize = 1;
        while i < line.len()
            invariant
                1 <= i <= line.len(),
                4 <= line.len(),
                *model == *old(model),
                tokens == line.deep_view(),
                tokens.len() == line@.len(),
                first_bad(tokens, 1) == first_bad(tokens, i as int),
                face.len() == i - 1,
                forall|j: int|
                    0 <= j < i - 1 ==> #[trigger] face@[j] == face_index(tokens[j + 1].text)->0,
            decreases line.len() - i,
        {
            assert(tokens[i as int] == line@[i as int]@);
            match parse_index(line[i].text.as_str()) {
                Some(index) => {
                    face.push(index);
                },
                None => {
                    return Err(ParseError::Number { line: at, field: i });
                },
            }
            i = i + 1;
        }
        let count: usize = line.len() - 1;
        assert(face@ =~= face_of(tokens, at)->Ok_0);
        let current: usize = model.get_index_set();
        if current == UNSET {
            model.set_index_set(count);
        } else if count != 3 && count != current {
            model.set_index_set(MIXED);
        }
        let mut k: usize = 0;
        while k < count
            invariant
                k <= count,
                count == face.len(),
                model@ == (ModelView {
                    indices: old(model)@.indices + face@.take(k as int),
                    index_set: next_index_set(old(model)@.index_set, count),
                    ..old(model)@
                }),
            decreases count - k,
        {
            let ghost before = model@.indices;
            model.push_indices(face[k]);
            proof {
                assert(before.push(face@[k as int]) =~= old(model)@.indices + face@.take(k + 1));
            }
            k = k + 1;
        }
        proof {
            assert(face@.take(count as int) =~= face@);
        }
        model.push_index_count(count);
        Ok(())
    }

    /// Reads the lines of a mesh text into `model`, up to the first record
    /// that is refused. What is sound in the mesh stays so: that its faces
    /// stand for exactly its indices, that each has three corners or more,
    /// that its working arity is the one that they lead to, that its
    /// coordinates and its extent are finite, and that its extent is the
    /// largest weight among all coordinates.
    pub fn parse(&self, model: &mut Model, lines: &Vec<Vec<Token>>) -> (r: Result<(), ParseError>)
        ensures
            final(model)@ == outcome(old(model)@, lines.deep_view()).model,
            r == match outcome(old(model)@, lines.deep_view()).error {
                Some(e) => Err::<(), ParseError>(e),
                None => Ok(()),
            },
            old(model)@.faces_match() ==> final(model)@.faces_match(),
            old(model)@.faces_cornered() ==> final(model)@.faces_cornered(),
            old(model)@.arity_inferred() ==> final(model)@.arity_inferred(),
            old(model)@.extent_is_peak() ==> final(model)@.extent_is_peak(),
            old(model)@.is_finite() ==> final(model)@.is_finite(),
    {
        let ghost all = lines.deep_view();
        proof {
            assert(all.take(0) =~= Seq::<Seq<TokenView>>::empty());
            assert(all.len() == lines@.len());
            assert forall|i: int| 0 <= i < all.len() implies (#[trigger] all[i]).len()
                <= usize::MAX by {
                assert(all[i] == lines@[i].deep_view());
                assert(lines@[i].deep_view().len() == lines@[i].len());
            }
            lemma_parse_keeps_shape(old(model)@, all);
        }
        let ghost end = outcome(old(model)@, all).model;
        let mut i: usize = 0;
        while i < lines.len()
            invariant
                i <= lines.len(),
                all == lines.deep_view(),
                all.len() == lines@.len(),
                end == outcome(old(model)@, all).model,
                old(model)@.faces_match() ==> end.faces_match(),
                old(model)@.faces_cornered() ==> end.faces_cornered(),
                old(model)@.arity_inferred() ==> end.arity_inferred(),
                old(model)@.extent_is_peak() ==> end.extent_is_peak(),
                old(model)@.is_finite() ==> end.is_finite(),
                after_lines(old(model)@, all.take(i as int)) == (Progress {
                    model: model@,
                    error: None,
                }),
            decreases lines.len() - i,
        {
            let line: &Vec<Token> = &lines[i];
            proof {
                assert(all.take(i + 1).drop_last() =~= all.take(i as int));
                assert(all[i as int] == line.deep_view());
                assert(line.deep_view().len() == line@.len());
                if line@.len() > 0 {
                    assert(line.deep_view()[0] == line@[0]@);
                }
            }
            let step: Result<(), ParseError> = if line.is_empty() {
                Ok(())
            } else if is_keyword(&line[0], 'v') {
                self.parse_v(model, line, i)
            } else if is_keyword(&line[0], 'f') {
                self.parse_f(model, line, i)
            } else {
                Ok(())
            };
            match step {
                Ok(()) => {},
                Err(e) => {
                    proof {
                        lemma_stopped(old(model)@, all, i + 1);
                    }
                    return Err(e);
                },
            }
            i = i + 1;
        }
        proof {
            assert(all.take(i as int) =~= all);
        }
        if model.is_empty() {
            return Err(ParseError::Empty);
        }
        Ok(())
    }
}

/// Once a record has been refused, the lines after it are not read.
proof fn lemma_stopped(model: ModelView, lines: Seq<Seq<TokenView>>, k: int)
    requires
        0 <= k <= lines.len(),
        after_lines(model, lines.take(k)).error is Some,
    ensures
        after_lines(model, lines) == after_lines(model, lines.take(k)),
    decreases lines.len(),
{
    if k == lines.len() {
        assert(lines.take(k) =~= lines);
    } else {
        assert(lines.drop_last().take(k) =~= lines.take(k));
        lemma_stopped(model, lines.drop_last(), k);
    }
}

/// Whether `line` is read without refusal: it is no record, or a vertex
/// record of three finite coordinates, or a face record of three or more
/// fields that all name a vertex.
pub open spec fn accepted(line: Seq<TokenView>) -> bool {
    if is_record(line, 'v') {
        line.len() == 4 && coordinate(line[1]) is Some && coordinate(line[2]) is Some
            && coordinate(line[3]) is Some
    } else if is_record(line, 'f') {
        line.len() >= 4 && first_bad(line, 1) == line.len()
    } else {
        true
    }
}

/// Whether `line` is a face record.
pub open spec fn is_face(line: Seq<TokenView>) -> bool {
    !is_record(line, 'v') && is_record(line, 'f')
}

/// The number of vertex records among `lines`.
pub open spec fn vertex_records(lines: Seq<Seq<TokenView>>) -> nat
    decreases lines.len(),
{
    if lines.len() == 0 {
        0
    } else {
        vertex_records(lines.drop_last()) + if is_record(lines.last(), 'v') {
            1nat
        } else {
            0nat
        }
    }
}

/// The number of face records among `lines`.
pub open spec fn face_records(lines: Seq<Seq<TokenView>>) -> nat
    decreases lines.len(),
{
    if lines.len() == 0 {
        0
    } else {
        face_records(lines.drop_last()) + if is_face(lines.last()) {
            1nat
        } else {
            0nat
        }
    }
}

/// The number of fields of all face records among `lines`: for each of them
/// its tokens but the first.
pub open spec fn face_fields(lines: Seq<Seq<TokenView>>) -> nat
    decreases lines.len(),
{
    if lines.len() == 0 {
        0
    } else {
        face_fields(lines.drop_last()) + if is_face(lines.last()) {
            (lines.last().len() - 1) as nat
        } else {
            0nat
        }
    }
}

/// A text whose lines are all accepted is read to its end. The mesh gains
/// one vertex for each vertex record, one face for each face record, and one
/// index for each field of a face record. The text as a whole is accepted
/// unless the mesh is left without a vertex.
pub proof fn lemma_parse_counts(model: ModelView, lines: Seq<Seq<TokenView>>)
    requires
        forall|i: int| 0 <= i < lines.len() ==> accepted(#[trigger] lines[i]),
    ensures
        after_lines(model, lines).error is None,
        after_lines(model, lines).model.vertices.len() == model.vertices.len() + vertex_records(
            lines,
        ),
        after_lines(model, lines).model.indices.len() == model.indices.len() + face_fields(lines),
        after_lines(model, lines).model.index_count.len() == model.index_count.len()
            + face_records(lines),
        model.vertices.len() + vertex_records(lines) > 0 ==> outcome(model, lines) == after_lines(
            model,
            lines,
        ),
    decreases lines.len(),
{
    if lines.len() > 0 {
        let front = lines.drop_last();
        assert forall|i: int| 0 <= i < front.len() implies accepted(#[trigger] front[i]) by {
            assert(front[i] == lines[i]);
        }
        lemma_parse_counts(model, front);
        assert(accepted(lines.last()));
    }
}

/// Reading a text changes a mesh only by adding vertices and faces. It
/// keeps the faces and the indices in step, every face at three corners or
/// more, the working arity the one that the faces lead to, the coordinates
/// and the extent finite, and the extent the largest weight among all
/// coordinates.
pub proof fn lemma_parse_keeps_shape(model: ModelView, lines: Seq<Seq<TokenView>>)
    requires
        forall|i: int| 0 <= i < lines.len() ==> (#[trigger] lines[i]).len() <= usize::MAX,
    ensures
        after_lines(model, lines).model.colors == model.colors,
        after_lines(model, lines).model.uv == model.uv,
        after_lines(model, lines).model.texture_on == model.texture_on,
        model.faces_match() ==> after_lines(model, lines).model.faces_match(),
        model.faces_cornered() ==> after_lines(model, lines).model.faces_cornered(),
        model.arity_inferred() ==> after_lines(model, lines).model.arity_inferred(),
        model.extent_is_peak() ==> after_lines(model, lines).model.extent_is_peak(),
        model.is_finite() ==> after_lines(model, lines).model.is_finite(),
        outcome(model, lines).model == after_lines(model, lines).model,
    decreases lines.len(),
{
    if lines.len() > 0 {
        let front = lines.drop_last();
        assert forall|i: int| 0 <= i < front.len() implies (#[trigger] front[i]).len()
            <= usize::MAX by {
            assert(front[i] == lines[i]);
        }
        lemma_parse_keeps_shape(model, front);
        let before = after_lines(model, front);
        let line = lines.last();
        let at = (lines.len() - 1) as usize;
        if before.error is None {
            if is_record(line, 'v') {
                if let Ok(v) = vertex_of(line, at) {
                    if before.model.extent_is_peak() {
                        lemma_vertex_keeps_peak(before.model, v);
                    }
                    if before.model.is_finite() {
                        lemma_vertex_keeps_finite(before.model, v);
                    }
                }
            } else if is_record(line, 'f') {
                if let Ok(face) = face_of(line, at) {
                    if before.model.faces_match() {
                        lemma_face_keeps_match(before.model, face);
                    }
                    if before.model.arity_inferred() {
                        lemma_face_keeps_inference(before.model, face);
                    }
                    if before.model.faces_cornered() {
                        let after = before.model.with_face(face);
                        assert forall|i: int| 0 <= i < after.index_count.len() implies (
                        #[trigger] after.index_count[i]) >= 3 by {
                            if i < before.model.index_count.len() {
                                assert(after.index_count[i] == before.model.index_count[i]);
                            }
                        }
                    }
                    assert(before.model.with_face(face).extent_is_peak()
                        == before.model.extent_is_peak());
                }
            }
        }
    }
}

/// A mesh read from a text alone is sound: its faces stand for exactly its
/// indices, each has three corners or more, its working arity is the one
/// that they lead to, its coordinates and its extent are finite, and its
/// extent is the largest weight among all coordinates of its vertices.
pub proof fn lemma_parse_from_empty(lines: Seq<Seq<TokenView>>)
    requires
        forall|i: int| 0 <= i < lines.len() ==> (#[trigger] lines[i]).len() <= usize::MAX,
    ensures
        outcome(ModelView::empty(), lines).model.faces_match(),
        outcome(ModelView::empty(), lines).model.faces_cornered(),
        outcome(ModelView::empty(), lines).model.arity_inferred(),
        outcome(ModelView::empty(), lines).model.extent_is_peak(),
        outcome(ModelView::empty(), lines).model.is_finite(),
{
    lemma_parse_keeps_shape(ModelView::empty(), lines);
}

/// Corners are counted from one: the field `1` names the first vertex, and
/// so does every field below it; a field above names the vertex before
/// its number.
pub proof fn lemma_index_clamped(text: Seq<char>)
    ensures
        match integer(text) {
            Some(v) => if v > u32::MAX {
                face_index(text) is None
            } else if v <= 1 {
                face_index(text) == Some(0u32)
            } else {
                face_index(text) == Some((v - 1) as u32)
            },
            None => face_index(text) is None,
        },
{
}

/// The tokens of a line, with one space between neighbours.
pub open spec fn joined(line: Seq<TokenView>) -> Seq<char>
    decreases line.len(),
{
    if line.len() == 0 {
        Seq::empty()
    } else if line.len() == 1 {
        line[0].text
    } else {
        joined(line.drop_last()) + seq![' '] + line.last().text
    }
}

/// What a refusal quotes of the text: the record for a wrong number of
/// fields, the field for one that denotes no number.
pub open spec fn quoted(error: ParseError, lines: Seq<Seq<TokenView>>) -> Seq<char> {
    match error {
        ParseError::VertexFields { line } => if line < lines.len() {
            joined(lines[line as int])
        } else {
            Seq::empty()
        },
        ParseError::FaceFields { line } => if line < lines.len() {
            joined(lines[line as int])
        } else {
            Seq::empty()
        },
        ParseError::Number { line, field } => if line < lines.len() && field
            < lines[line as int].len() {
            lines[line as int][field as int].text
        } else {
            Seq::empty()
        },
        ParseError::Empty => "empty"@,
    }
}

/// Adds the tokens of `line` to `text`, with one space between neighbours.
fn append_joined(text: &mut String, line: &Vec<Token>)
    ensures
        final(text)@ == old(text)@ + joined(line.deep_view()),
{
    let ghost tokens = line.deep_view();
    let ghost before = text@;
    proof {
        assert(tokens.take(0) =~= Seq::<TokenView>::empty());
        assert(before + joined(tokens.take(0)) =~= before);
        reveal_strlit(" ");
        assert(" "@ =~= seq![' ']);
    }
    let mut i: usize = 0;
    while i < line.len()
        invariant
            i <= line.len(),
            tokens == line.deep_view(),
            tokens.len() == line@.len(),
            " "@ == seq![' '],
            text@ == before + joined(tokens.take(i as int)),
        decreases line.len() - i,
    {
        proof {
            assert(tokens.take(i + 1).drop_last() =~= tokens.take(i as int));
            assert(tokens[i as int] == line@[i as int]@);
        }
        if i > 0 {
            text.append(" ");
        }
        text.append(line[i].text.as_str());
        proof {
            if i == 0 {
                assert(joined(tokens.take(0)) =~= Seq::<char>::empty());
                assert(text@ =~= before + joined(tokens.take(1)));
            } else {
                assert(text@ =~= before + joined(tokens.take(i + 1)));
            }
        }
        i = i + 1;
    }
    proof {
        assert(tokens.take(line@.len() as int) =~= tokens);
    }
}

impl ParseError {
    /// The refusal in words, quoting from `lines` what was refused.
    pub fn message(&self, lines: &Vec<Vec<Token>>) -> (r: String)
        ensures
            r@ == "error: parse obj: "@ + quoted(*self, lines.deep_view()),
    {
        let mut text: String = "error: parse obj: ".to_owned();
        let ghost all = lines.deep_view();
        proof {
            assert(all.len() == lines@.len());
        }
        match *self {
            ParseError::VertexFields { line } => {
                if line < lines.len() {
                    assert(all[line as int] == lines@[line as int].deep_view());
                    append_joined(&mut text, &lines[line]);
                } else {
                    assert(text@ + Seq::<char>::empty() =~= text@);
                }
            },
            ParseError::FaceFields { line } => {
                if line < lines.len() {
                    assert(all[line as int] == lines@[line as int].deep_view());
                    append_joined(&mut text, &lines[line]);
                } else {
                    assert(text@ + Seq::<char>::empty() =~= text@);
                }
            },
            ParseError::Number { line, field } => {
                if line < lines.len() && field < lines[line].len() {
                    assert(all[line as int] == lines@[line as int].deep_view());
                    assert(all[line as int][field as int] == lines@[line as int]@[field as int]@);
                    text.append(lines[line][field].text.as_str());
                } else {
                    proof {
                        if line < lines.len() {
                            assert(all[line as int] == lines@[line as int].deep_view());
                            assert(all[line as int].len() == lines@[line as int]@.len());
                        }
                        assert(text@ + Seq::<char>::empty() =~= text@);
                    }
                }
            },
            ParseError::Empty => {
                text.append("empty");
            },
        }
        text
    }
}

/// Whether `token` is not empty and holds no white space.
pub open spec fn is_clean(token: Seq<char>) -> bool {
    token.len() > 0 && forall|j: int| 0 <= j < token.len() ==> !is_space(#[trigger] token[j])
}

/// No token is empty, and none holds white space. A line that ends in
/// something other than white space has a token.
pub proof fn lemma_tokens_clean(line: Seq<char>)
    ensures
        forall|i: int| 0 <= i < tokens_of(line).len() ==> is_clean(#[trigger] tokens_of(line)[i]),
        line.len() > 0 && !is_space(line.last()) ==> tokens_of(line).len() > 0,
    decreases line.len(),
{
    if line.len() > 0 {
        let front = line.drop_last();
        lemma_tokens_clean(front);
        let before = tokens_of(front);
        let after = tokens_of(line);
        let c = line.last();
        if !is_space(c) {
            assert forall|i: int| 0 <= i < after.len() implies is_clean(#[trigger] after[i]) by {
                if i < after.len() - 1 {
                    assert(after[i] == before[i]);
                    assert(is_clean(before[i]));
                } else if line.len() >= 2 && !is_space(line[line.len() - 2]) {
                    assert(front.last() == line[line.len() - 2]);
                    let grown = before.last();
                    assert(is_clean(grown));
                    assert forall|j: int| 0 <= j < after[i].len() implies !is_space(
                        #[trigger] after[i][j],
                    ) by {
                        if j < grown.len() {
                            assert(after[i][j] == grown[j]);
                        }
                    }
                }
            }
        }
    }
}

/// The tokens of a line, one after the other, are the line without its
/// white space.
pub proof fn lemma_tokens_cover(line: Seq<char>)
    ensures
        tokens_of(line).flatten() == line.filter(|c: char| !is_space(c)),
    decreases line.len(),
{
    reveal(Seq::filter);
    let kept = |c: char| !is_space(c);
    if line.len() == 0 {
        assert(tokens_of(line).flatten() =~= line.filter(kept));
    } else {
        let front = line.drop_last();
        lemma_tokens_cover(front);
        lemma_tokens_clean(front);
        let before = tokens_of(front);
        let c = line.last();
        if !is_space(c) {
            if line.len() >= 2 && !is_space(line[line.len() - 2]) {
                assert(front.last() == line[line.len() - 2]);
                let rest = before.drop_last();
                assert(rest.push(before.last()) =~= before);
                rest.lemma_flatten_push(before.last());
                rest.lemma_flatten_push(before.last().push(c));
                assert(tokens_of(line).flatten() =~= before.flatten().push(c));
            } else {
                before.lemma_flatten_push(seq![c]);
                assert(tokens_of(line).flatten() =~= before.flatten().push(c));
            }
        }
    }
}

} // verus!
