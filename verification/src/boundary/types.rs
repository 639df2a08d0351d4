//! Validated values that cross the boundary: workspace-relative paths, file
//! contents, and test-suite names.

use vstd::prelude::*;
use vstd::std_specs::iter::IteratorSpec;
use vstd::string::StrSliceExecFns;
use vstd::utf8::encode_utf8;
use crate::boundary::errors::{BoundaryError, BoundaryErrorView};
use crate::boundary::identifiers::{bounded_id_valid, check_bounded_id, IdentifierAlphabet};
use crate::boundary::text::push_char;

verus! {

/// The byte length that Rust reports for a string holding `s` (its UTF-8 length).
pub open spec fn utf8_len(s: Seq<char>) -> usize {
    encode_utf8(s).len() as usize
}

/// The character views of a sequence of strings.
pub open spec fn string_views(v: Seq<String>) -> Seq<Seq<char>> {
    v.map_values(|s: String| s@)
}

// ---------------------------------------------------------------- POSIX path syntax

/// The `/`-separated segments of a path string, empty segments included:
/// `"a//b/"` has the segments `"a"`, `""`, `"b"` and `""`.
pub open spec fn path_segments(s: Seq<char>) -> Seq<Seq<char>>
    decreases s.len(),
{
    if s.len() == 0 {
        seq![Seq::<char>::empty()]
    } else {
        let prev = path_segments(s.drop_last());
        if s.last() == '/' {
            prev.push(Seq::<char>::empty())
        } else {
            prev.update(prev.len() - 1, prev.last().push(s.last()))
        }
    }
}

pub open spec fn dot() -> Seq<char> {
    seq!['.']
}

pub open spec fn dot_dot() -> Seq<char> {
    seq!['.', '.']
}

/// A segment that names something: neither empty nor the current directory.
pub open spec fn names_entry(seg: Seq<char>) -> bool {
    seg.len() > 0 && seg != dot()
}

/// The segments that name entries, in order; this is what remains of a path
/// once repeated separators and `.` components are dropped.
pub open spec fn named_segments(segs: Seq<Seq<char>>) -> Seq<Seq<char>>
    decreases segs.len(),
{
    if segs.len() == 0 {
        seq![]
    } else if names_entry(segs.last()) {
        named_segments(segs.drop_last()).push(segs.last())
    } else {
        named_segments(segs.drop_last())
    }
}

/// A component of a normalized workspace-relative path.
pub open spec fn valid_component(c: Seq<char>) -> bool {
    &&& c.len() > 0
    &&& c != dot()
    &&& c != dot_dot()
    &&& !c.contains('/')
    &&& !c.contains('\0')
}

pub open spec fn valid_components(cs: Seq<Seq<char>>) -> bool {
    &&& cs.len() > 0
    &&& forall|i: int| 0 <= i < cs.len() ==> valid_component(#[trigger] cs[i])
}

/// Components joined by `/`.
pub open spec fn join_components(cs: Seq<Seq<char>>) -> Seq<char>
    decreases cs.len(),
{
    if cs.len() == 0 {
        seq![]
    } else if cs.len() == 1 {
        cs[0]
    } else {
        join_components(cs.drop_last()) + seq!['/'] + cs.last()
    }
}

/// How the boundary reads a requested workspace-relative path: `Ok` with its
/// normalized components, or the error it is refused with.
pub open spec fn parse_isolated_path(raw: Seq<char>) -> Result<Seq<Seq<char>>, BoundaryErrorView> {
    if raw.len() == 0 || raw.contains('\0') {
        Err(BoundaryErrorView::InvalidPathSpecification)
    } else if utf8_len(raw) > 4096 {
        Err(BoundaryErrorView::PayloadLimitExceeded(utf8_len(raw) as nat, 4096))
    } else if raw[0] == '/' {
        Err(BoundaryErrorView::InvalidPathSpecification)
    } else if path_segments(raw).contains(dot_dot()) {
        Err(BoundaryErrorView::InvalidPathSpecification)
    } else if named_segments(path_segments(raw)).len() == 0 {
        Err(BoundaryErrorView::InvalidPathSpecification)
    } else {
        Ok(named_segments(path_segments(raw)))
    }
}

/// A relative path inside the workspace, normalized to its components: never
/// empty, never absolute, never holding `..`, `.`, empty components or NUL.
#[derive(Debug, PartialEq, Eq, PartialOrd, Ord, Hash)]
pub struct IsolatedPath {
    components: Vec<String>,
    text: String,
}

impl View for IsolatedPath {
    type V = Seq<Seq<char>>;

    closed spec fn view(&self) -> Seq<Seq<char>> {
        string_views(self.components@)
    }
}

/// Copies a sequence of strings.
pub fn clone_strings(v: &Vec<String>) -> (r: Vec<String>)
    ensures
        string_views(r@) == string_views(v@),
{
    let mut r: Vec<String> = Vec::new();
    let mut i: usize = 0;
    while i < v.len()
        invariant
            i <= v@.len(),
            r@.len() == i,
            forall|j: int| 0 <= j < i ==> (#[trigger] r@[j])@ == v@[j]@,
        decreases v@.len() - i,
    {
        r.push(v[i].clone());
        i = i + 1;
    }
    assert(string_views(r@) =~= string_views(v@));
    r
}

enum SegmentShape {
    Empty,
    Dot,
    DotDot,
    Other,
}

spec fn shape_of(seg: Seq<char>) -> SegmentShape {
    if seg.len() == 0 {
        SegmentShape::Empty
    } else if seg == dot() {
        SegmentShape::Dot
    } else if seg == dot_dot() {
        SegmentShape::DotDot
    } else {
        SegmentShape::Other
    }
}

fn next_shape(shape: &SegmentShape, c: char, Ghost(seg): Ghost<Seq<char>>) -> (r: SegmentShape)
    requires
        *shape == shape_of(seg),
    ensures
        r == shape_of(seg.push(c)),
{
    let r = match shape {
        SegmentShape::Empty => if c == '.' { SegmentShape::Dot } else { SegmentShape::Other },
        SegmentShape::Dot => if c == '.' { SegmentShape::DotDot } else { SegmentShape::Other },
        _ => SegmentShape::Other,
    };
    proof {
        let n = seg.push(c);
        if seg.len() == 0 {
            if c == '.' {
                assert(n =~= dot());
            } else {
                assert(n[0] != dot()[0]);
            }
        } else if seg == dot() {
            if c == '.' {
                assert(n =~= dot_dot());
            } else {
                assert(n[1] != dot_dot()[1]);
            }
        } else {
            if n == dot() || n == dot_dot() {
                if n == dot() {
                    assert(n.len() == 1);
                } else {
                    assert(seg =~= n.drop_last());
                    assert(seg =~= dot());
                }
            }
        }
    }
    r
}

proof fn lemma_named_push(segs: Seq<Seq<char>>, seg: Seq<char>)
    ensures
        named_segments(segs.push(seg)) == if names_entry(seg) {
            named_segments(segs).push(seg)
        } else {
            named_segments(segs)
        },
{
    assert(segs.push(seg).drop_last() =~= segs);
}

/// Whether `s` contains the character `c`.
pub fn str_contains_char(s: &str, c: char) -> (r: bool)
    ensures
        r == s@.contains(c),
{
    let mut it = s.chars();
    let ghost mut done: Seq<char> = Seq::empty();
    loop
        invariant
            it.obeys_prophetic_iter_laws(),
            it.decrease() is Some,
            s@ == done + it.remaining(),
            !done.contains(c),
        ensures
            !s@.contains(c),
        decreases it.decrease()->0,
    {
        match it.next() {
            Some(x) => {
                if x == c {
                    assert(s@[done.len() as int] == c);
                    return true;
                }
                proof {
                    let nd = done.push(x);
                    assert(s@ =~= nd + it.remaining());
                    assert forall|i: int| 0 <= i < nd.len() implies nd[i] != c by {
                        if i < done.len() {
                            assert(nd[i] == done[i]);
                        }
                    }
                    done = nd;
                }
            },
            None => {
                assert(done =~= s@);
                break;
            },
        }
    }
    false
}

proof fn lemma_contains_last(segs: Seq<Seq<char>>, x: Seq<char>)
    requires
        segs.len() >= 1,
    ensures
        segs.contains(x) <==> (segs.drop_last().contains(x) || segs.last() == x),
{
    if segs.contains(x) {
        let k = choose|k: int| 0 <= k < segs.len() && segs[k] == x;
        if k < segs.len() - 1 {
            assert(segs.drop_last()[k] == x);
        }
    }
    if segs.drop_last().contains(x) {
        let k = choose|k: int| 0 <= k < segs.drop_last().len() && segs.drop_last()[k] == x;
        assert(segs[k] == x);
    }
    if segs.last() == x {
        assert(segs[segs.len() - 1] == x);
    }
}

/// Ends the current segment: records it if it names an entry, and notes a `..`.
fn close_segment(
    finished: &mut Vec<String>,
    saw_dot_dot: &mut bool,
    current: String,
    shape: &SegmentShape,
)
    requires
        *shape == shape_of(current@),
    ensures
        string_views(final(finished)@) == if names_entry(current@) {
            string_views(old(finished)@).push(current@)
        } else {
            string_views(old(finished)@)
        },
        *final(saw_dot_dot) == (*old(saw_dot_dot) || current@ == dot_dot()),
{
    let ghost seg = current@;
    match shape {
        SegmentShape::DotDot => {
            *saw_dot_dot = true;
        },
        _ => {},
    }
    match shape {
        SegmentShape::Other | SegmentShape::DotDot => {
            finished.push(current);
            assert(string_views(finished@) =~= string_views(old(finished)@).push(seg));
        },
        _ => {},
    }
}

/// Splits `raw` into its named segments, noting whether a `..` segment occurs.
fn split_named_segments(raw: &str) -> (r: (Vec<String>, bool))
    ensures
        string_views(r.0@) == named_segments(path_segments(raw@)),
        r.1 == path_segments(raw@).contains(dot_dot()),
{
    let mut it = raw.chars();
    let ghost mut done: Seq<char> = Seq::empty();
    let mut finished: Vec<String> = Vec::new();
    let mut current = String::new();
    let mut shape = SegmentShape::Empty;
    let mut saw_dot_dot = false;
    assert(path_segments(done).drop_last() =~= Seq::<Seq<char>>::empty());
    loop
        invariant
            it.obeys_prophetic_iter_laws(),
            it.decrease() is Some,
            raw@ == done + it.remaining(),
            path_segments(done).len() >= 1,
            current@ == path_segments(done).last(),
            shape == shape_of(current@),
            string_views(finished@) == named_segments(path_segments(done).drop_last()),
            saw_dot_dot == path_segments(done).drop_last().contains(dot_dot()),
        ensures
            done == raw@,
            path_segments(done).len() >= 1,
            current@ == path_segments(done).last(),
            shape == shape_of(current@),
            string_views(finished@) == named_segments(path_segments(done).drop_last()),
            saw_dot_dot == path_segments(done).drop_last().contains(dot_dot()),
        decreases it.decrease()->0,
    {
        match it.next() {
            Some(c) => {
                let ghost nd = done.push(c);
                let ghost old_segs = path_segments(done);
                assert(nd.drop_last() =~= done);
                if c == '/' {
                    let ghost seg = current@;
                    proof {
                        lemma_named_push(old_segs.drop_last(), seg);
                        lemma_contains_last(old_segs, dot_dot());
                        assert(path_segments(nd).drop_last() =~= old_segs);
                        assert(old_segs =~= old_segs.drop_last().push(seg));
                    }
                    close_segment(&mut finished, &mut saw_dot_dot, current, &shape);
                    current = String::new();
                    shape = SegmentShape::Empty;
                } else {
                    let ghost seg = current@;
                    shape = next_shape(&shape, c, Ghost(seg));
                    push_char(&mut current, c);
                    proof {
                        assert(path_segments(nd).drop_last() =~= old_segs.drop_last());
                    }
                }
                proof {
                    done = nd;
                }
            },
            None => {
                assert(done =~= raw@);
                break;
            },
        }
    }
    let ghost segs = path_segments(raw@);
    let ghost last = current@;
    proof {
        lemma_named_push(segs.drop_last(), last);
        lemma_contains_last(segs, dot_dot());
        assert(segs =~= segs.drop_last().push(last));
    }
    close_segment(&mut finished, &mut saw_dot_dot, current, &shape);
    (finished, saw_dot_dot)
}

// ---------------------------------------------------------------- lemmas on path syntax

proof fn lemma_segments_chars(s: Seq<char>)
    ensures
        path_segments(s).len() >= 1,
        forall|i: int, j: int|
            0 <= i < path_segments(s).len() && 0 <= j < path_segments(s)[i].len() ==> {
                &&& #[trigger] path_segments(s)[i][j] != '/'
                &&& s.contains(path_segments(s)[i][j])
            },
    decreases s.len(),
{
    if s.len() > 0 {
        let prev = path_segments(s.drop_last());
        lemma_segments_chars(s.drop_last());
        let segs = path_segments(s);
        assert forall|i: int, j: int|
            0 <= i < segs.len() && 0 <= j < segs[i].len() implies {
                &&& #[trigger] segs[i][j] != '/'
                &&& s.contains(segs[i][j])
            } by {
            if s.last() == '/' {
                assert(segs[i] == prev[i]);
                assert(s.drop_last().contains(prev[i][j]));
                let k = choose|k: int| 0 <= k < s.drop_last().len() && s.drop_last()[k] == prev[i][j];
                assert(s[k] == prev[i][j]);
            } else if i < prev.len() - 1 {
                assert(segs[i] == prev[i]);
                let k = choose|k: int| 0 <= k < s.drop_last().len() && s.drop_last()[k] == prev[i][j];
                assert(s[k] == prev[i][j]);
            } else {
                let seg = prev.last().push(s.last());
                assert(segs[i] == seg);
                if j < prev.last().len() {
                    assert(seg[j] == prev[i][j]);
                    let k = choose|k: int| 0 <= k < s.drop_last().len() && s.drop_last()[k] == prev[i][j];
                    assert(s[k] == prev[i][j]);
                } else {
                    assert(seg[j] == s.last());
                    assert(s[s.len() - 1] == s.last());
                }
            }
        }
    }
}

proof fn lemma_named_are_segments(segs: Seq<Seq<char>>)
    ensures
        forall|i: int| 0 <= i < named_segments(segs).len() ==> {
            &&& names_entry(#[trigger] named_segments(segs)[i])
            &&& segs.contains(named_segments(segs)[i])
        },
    decreases segs.len(),
{
    if segs.len() > 0 {
        lemma_named_are_segments(segs.drop_last());
        let n = named_segments(segs);
        let p = named_segments(segs.drop_last());
        assert forall|i: int| 0 <= i < n.len() implies {
            &&& names_entry(#[trigger] n[i])
            &&& segs.contains(n[i])
        } by {
            if i < p.len() {
                assert(n[i] == p[i]);
                let k = choose|k: int| 0 <= k < segs.drop_last().len() && segs.drop_last()[k] == p[i];
                assert(segs[k] == p[i]);
            } else {
                assert(n[i] == segs.last());
                assert(segs[segs.len() - 1] == segs.last());
            }
        }
    }
}

/// What the parser accepts is a normalized path: non-empty, and every
/// component names an entry below its parent.
pub proof fn lemma_parse_yields_valid_components(raw: Seq<char>)
    requires
        parse_isolated_path(raw) is Ok,
    ensures
        valid_components(parse_isolated_path(raw)->Ok_0),
{
    let segs = path_segments(raw);
    let cs = named_segments(segs);
    lemma_segments_chars(raw);
    lemma_named_are_segments(segs);
    assert forall|i: int| 0 <= i < cs.len() implies valid_component(#[trigger] cs[i]) by {
        let c = cs[i];
        assert(names_entry(c));
        assert(segs.contains(c));
        let k = choose|k: int| 0 <= k < segs.len() && segs[k] == c;
        if c == dot_dot() {
            assert(segs.contains(dot_dot()));
        }
        if c.contains('/') {
            let j = choose|j: int| 0 <= j < c.len() && c[j] == '/';
            assert(segs[k][j] != '/');
        }
        if c.contains('\0') {
            let j = choose|j: int| 0 <= j < c.len() && c[j] == '\0';
            assert(raw.contains(segs[k][j]));
        }
    }
}

proof fn lemma_segments_append_plain(x: Seq<char>, y: Seq<char>)
    requires
        !y.contains('/'),
    ensures
        path_segments(x + y) == path_segments(x).update(
            path_segments(x).len() - 1,
            path_segments(x).last() + y,
        ),
        path_segments(x).len() >= 1,
    decreases y.len(),
{
    lemma_segments_chars(x);
    if y.len() == 0 {
        assert(x + y =~= x);
        assert(path_segments(x).last() + y =~= path_segments(x).last());
        assert(path_segments(x).update(path_segments(x).len() - 1, path_segments(x).last())
            =~= path_segments(x));
    } else {
        let y0 = y.drop_last();
        assert(!y0.contains('/')) by {
            if y0.contains('/') {
                let k = choose|k: int| 0 <= k < y0.len() && y0[k] == '/';
                assert(y[k] == '/');
            }
        }
        lemma_segments_append_plain(x, y0);
        assert((x + y).drop_last() =~= x + y0);
        assert((x + y).last() == y.last());
        assert(y[y.len() - 1] == y.last());
        let p = path_segments(x);
        let q = path_segments(x + y0);
        assert(q.last() == p.last() + y0);
        assert((p.last() + y0).push(y.last()) =~= p.last() + y);
        assert(q.update(q.len() - 1, q.last().push(y.last())) =~= p.update(p.len() - 1, p.last() + y));
    }
}

proof fn lemma_segments_of_join(cs: Seq<Seq<char>>)
    requires
        cs.len() > 0,
        forall|i: int| 0 <= i < cs.len() ==> !(#[trigger] cs[i]).contains('/'),
    ensures
        path_segments(join_components(cs)) == cs,
    decreases cs.len(),
{
    if cs.len() == 1 {
        lemma_segments_append_plain(Seq::<char>::empty(), cs[0]);
        assert(Seq::<char>::empty() + cs[0] =~= cs[0]);
        assert(path_segments(Seq::<char>::empty()) =~= seq![Seq::<char>::empty()]);
        assert(Seq::<char>::empty() + cs[0] =~= cs[0]);
        assert(seq![Seq::<char>::empty()].update(0, Seq::<char>::empty() + cs[0]) =~= cs);
    } else {
        let init = cs.drop_last();
        assert forall|i: int| 0 <= i < init.len() implies !(#[trigger] init[i]).contains('/') by {
            assert(init[i] == cs[i]);
        }
        lemma_segments_of_join(init);
        let x = join_components(init) + seq!['/'];
        assert(x.drop_last() =~= join_components(init));
        assert(x.last() == '/');
        assert(path_segments(x) == init.push(Seq::<char>::empty()));
        assert(cs[cs.len() - 1] == cs.last());
        lemma_segments_append_plain(x, cs.last());
        assert(Seq::<char>::empty() + cs.last() =~= cs.last());
        assert(init.push(Seq::<char>::empty()).update(init.len() as int, cs.last()) =~= cs);
    }
}

proof fn lemma_named_of_valid(cs: Seq<Seq<char>>)
    requires
        forall|i: int| 0 <= i < cs.len() ==> valid_component(#[trigger] cs[i]),
    ensures
        named_segments(cs) == cs,
    decreases cs.len(),
{
    if cs.len() > 0 {
        let init = cs.drop_last();
        assert forall|i: int| 0 <= i < init.len() implies valid_component(#[trigger] init[i]) by {
            assert(init[i] == cs[i]);
        }
        lemma_named_of_valid(init);
        assert(cs[cs.len() - 1] == cs.last());
        assert(init.push(cs.last()) =~= cs);
    }
}

proof fn lemma_join_chars(cs: Seq<Seq<char>>)
    requires
        cs.len() > 0,
        forall|i: int| 0 <= i < cs.len() ==> valid_component(#[trigger] cs[i]),
    ensures
        join_components(cs).len() > 0,
        join_components(cs)[0] != '/',
        !join_components(cs).contains('\0'),
    decreases cs.len(),
{
    assert(valid_component(cs[0]));
    if cs.len() > 1 {
        let init = cs.drop_last();
        assert forall|i: int| 0 <= i < init.len() implies valid_component(#[trigger] init[i]) by {
            assert(init[i] == cs[i]);
        }
        lemma_join_chars(init);
        let j = join_components(cs);
        assert(valid_component(cs[cs.len() - 1]));
        assert(j[0] == join_components(init)[0]);
        if j.contains('\0') {
            let k = choose|k: int| 0 <= k < j.len() && j[k] == '\0';
            let a = join_components(init);
            if k < a.len() {
                assert(a[k] == '\0');
            } else if k == a.len() {
            } else {
                assert(cs.last()[k - a.len() - 1] == '\0');
                assert(cs[cs.len() - 1] == cs.last());
            }
        }
    } else {
        assert(join_components(cs) == cs[0]);
        assert(cs[0][0] != '/') by {
            if cs[0][0] == '/' {
                assert(cs[0].contains('/'));
            }
        }
    }
}

/// Law: a normalized path, written out with `/` separators, reads back as
/// itself (as long as it stays within the path length limit).
pub proof fn lemma_join_then_parse(cs: Seq<Seq<char>>)
    requires
        valid_components(cs),
        utf8_len(join_components(cs)) <= 4096,
    ensures
        parse_isolated_path(join_components(cs)) == Ok::<Seq<Seq<char>>, BoundaryErrorView>(cs),
{
    assert forall|i: int| 0 <= i < cs.len() implies !(#[trigger] cs[i]).contains('/') by {
        assert(valid_component(cs[i]));
    }
    lemma_segments_of_join(cs);
    lemma_named_of_valid(cs);
    lemma_join_chars(cs);
    if cs.contains(dot_dot()) {
        let k = choose|k: int| 0 <= k < cs.len() && cs[k] == dot_dot();
        assert(valid_component(cs[k]));
    }
}

proof fn lemma_utf8_len_append(a: Seq<char>, b: Seq<char>)
    ensures
        encode_utf8(a + b).len() == encode_utf8(a).len() + encode_utf8(b).len(),
    decreases a.len(),
{
    if a.len() == 0 {
        assert(a + b =~= b);
    } else {
        assert((a + b).drop_first() =~= a.drop_first() + b);
        assert((a + b)[0] == a[0]);
        lemma_utf8_len_append(a.drop_first(), b);
    }
}

proof fn lemma_utf8_len_slash()
    ensures
        encode_utf8(seq!['/']).len() == 1,
{
    assert(seq!['/'].drop_first() =~= Seq::<char>::empty());
    assert(encode_utf8(seq!['/']) == vstd::utf8::encode_scalar('/' as u32) + encode_utf8(
        Seq::<char>::empty(),
    ));
}

/// The segments of a path, joined back with `/`, give the path.
proof fn lemma_join_segments(s: Seq<char>)
    ensures
        join_components(path_segments(s)) == s,
    decreases s.len(),
{
    if s.len() == 0 {
        assert(join_components(path_segments(s)) =~= s);
    } else {
        let prev = path_segments(s.drop_last());
        lemma_join_segments(s.drop_last());
        lemma_segments_chars(s.drop_last());
        let segs = path_segments(s);
        if s.last() == '/' {
            assert(segs.drop_last() =~= prev);
            assert(s =~= s.drop_last() + seq!['/'] + Seq::<char>::empty());
        } else {
            let c = s.last();
            if prev.len() == 1 {
                assert(s =~= s.drop_last().push(c));
                assert(join_components(segs) == segs[0]);
            } else {
                assert(segs.drop_last() =~= prev.drop_last());
                assert(join_components(prev) == join_components(prev.drop_last()) + seq!['/']
                    + prev.last());
                let x = join_components(prev.drop_last());
                assert(s =~= s.drop_last().push(c));
                assert(s.drop_last() == x + seq!['/'] + prev.last());
                assert((x + seq!['/'] + prev.last()).push(c) =~= x + seq!['/'] + prev.last().push(c));
                assert(segs.last() == prev.last().push(c));
                assert(segs.len() == prev.len());
            }
        }
    }
}

/// Dropping unnamed segments never lengthens the joined text.
proof fn lemma_named_join_no_longer(segs: Seq<Seq<char>>)
    requires
        segs.len() >= 1,
    ensures
        encode_utf8(join_components(named_segments(segs))).len() <= encode_utf8(
            join_components(segs),
        ).len(),
    decreases segs.len(),
{
    let named = named_segments(segs);
    if segs.len() == 1 {
        assert(segs.drop_last().len() == 0);
        assert(named_segments(segs.drop_last()).len() == 0);
        if names_entry(segs.last()) {
            assert(named =~= seq![segs[0]]);
        } else {
            assert(named.len() == 0);
            assert(join_components(named) =~= Seq::<char>::empty());
        }
    } else {
        let d = segs.drop_last();
        let l = segs.last();
        let nd = named_segments(d);
        lemma_named_join_no_longer(d);
        lemma_utf8_len_slash();
        lemma_utf8_len_append(join_components(d) + seq!['/'], l);
        lemma_utf8_len_append(join_components(d), seq!['/']);
        if names_entry(l) {
            if nd.len() == 0 {
                assert(named =~= seq![l]);
            } else {
                assert(named.drop_last() =~= nd);
                lemma_utf8_len_append(join_components(nd) + seq!['/'], l);
                lemma_utf8_len_append(join_components(nd), seq!['/']);
            }
        }
    }
}

/// Law: normalizing a path never makes it longer: the normalized text takes
/// at most as many UTF-8 bytes as the raw request.
pub proof fn lemma_normalized_path_is_no_longer(raw: Seq<char>)
    requires
        parse_isolated_path(raw) is Ok,
    ensures
        encode_utf8(join_components(parse_isolated_path(raw)->Ok_0)).len() <= encode_utf8(raw).len(),
{
    lemma_segments_chars(raw);
    lemma_named_join_no_longer(path_segments(raw));
    lemma_join_segments(raw);
}

/// Law: normalization is idempotent: a normalized path, written out, reads
/// back as itself (for any text that fits in memory).
pub proof fn lemma_parse_is_idempotent(raw: Seq<char>)
    requires
        parse_isolated_path(raw) is Ok,
        encode_utf8(raw).len() <= usize::MAX,
    ensures
        parse_isolated_path(join_components(parse_isolated_path(raw)->Ok_0)) == parse_isolated_path(
            raw,
        ),
{
    let cs = parse_isolated_path(raw)->Ok_0;
    lemma_parse_yields_valid_components(raw);
    lemma_normalized_path_is_no_longer(raw);
    lemma_join_then_parse(cs);
}

// ---------------------------------------------------------------- IsolatedPath

/// Joins the strings with `/` between them.
fn join_strings(cs: &Vec<String>) -> (r: String)
    requires
        cs@.len() > 0,
    ensures
        r@ == join_components(string_views(cs@)),
{
    let ghost views = string_views(cs@);
    let mut r = cs[0].clone();
    assert(views.take(1).len() == 1);
    let mut i: usize = 1;
    while i < cs.len()
        invariant
            1 <= i <= cs@.len(),
            views == string_views(cs@),
            r@ == join_components(views.take(i as int)),
        decreases cs@.len() - i,
    {
        push_char(&mut r, '/');
        r.append(cs[i].as_str());
        proof {
            let t = views.take(i + 1);
            assert(t.drop_last() =~= views.take(i as int));
            assert(t.last() == cs@[i as int]@);
            assert(r@ =~= join_components(views.take(i as int)) + seq!['/'] + cs@[i as int]@);
        }
        i = i + 1;
    }
    assert(views.take(cs@.len() as int) =~= views);
    r
}

impl IsolatedPath {
    #[verifier::type_invariant]
    pub closed spec fn well_formed(self) -> bool {
        &&& valid_components(self@)
        &&& self.text@ == join_components(self@)
    }

    /// Reads a workspace-relative path. It is refused when empty, holding NUL,
    /// longer than 4096 bytes, absolute, or climbing with `..`; otherwise
    /// repeated separators and `.` components are dropped.
    pub fn try_from(raw: String) -> (r: Result<IsolatedPath, BoundaryError>)
        ensures
            match parse_isolated_path(raw@) {
                Ok(cs) => r matches Ok(p) && p@ == cs,
                Err(e) => r matches Err(x) && x@ == e,
            },
    {
        let s = raw.as_str();
        if s.is_empty() || str_contains_char(s, '\0') {
            return Err(BoundaryError::InvalidPathSpecification);
        }
        let n = s.len();
        if n > 4096 {
            return Err(BoundaryError::PayloadLimitExceeded(n, 4096));
        }
        if s.get_char(0) == '/' {
            return Err(BoundaryError::InvalidPathSpecification);
        }
        let (components, saw_dot_dot) = split_named_segments(s);
        if saw_dot_dot || components.len() == 0 {
            return Err(BoundaryError::InvalidPathSpecification);
        }
        proof {
            lemma_parse_yields_valid_components(raw@);
        }
        let text = join_strings(&components);
        Ok(IsolatedPath { components, text })
    }

    /// The path as text, components separated by `/`.
    pub fn as_path(&self) -> (r: &str)
        ensures
            r@ == join_components(self@),
    {
        proof {
            use_type_invariant(self);
        }
        self.text.as_str()
    }

    /// The path's components, in order.
    pub fn to_canonical_components(&self) -> (r: Vec<String>)
        ensures
            string_views(r@) == self@,
    {
        clone_strings(&self.components)
    }

    /// Whether both paths have the same components.
    pub fn same_as(&self, other: &IsolatedPath) -> (r: bool)
        ensures
            r == (self@ == other@),
    {
        let n = self.components.len();
        if n != other.components.len() {
            assert(self@.len() != other@.len());
            return false;
        }
        let mut i: usize = 0;
        while i < n
            invariant
                n == self.components@.len() == other.components@.len(),
                i <= n,
                forall|j: int| 0 <= j < i ==> self@[j] == other@[j],
            decreases n - i,
        {
            if self.components[i] != other.components[i] {
                assert(self@[i as int] != other@[i as int]);
                return false;
            }
            i = i + 1;
        }
        assert(self@ =~= other@);
        true
    }

    /// Whether this path's components are a prefix of `other`'s (`other` lies
    /// at or below this path).
    pub fn is_prefix_of(&self, other: &IsolatedPath) -> (r: bool)
        ensures
            r == self@.is_prefix_of(other@),
    {
        let n = self.components.len();
        if n > other.components.len() {
            return false;
        }
        let mut i: usize = 0;
        while i < n
            invariant
                n == self.components@.len() <= other.components@.len(),
                i <= n,
                forall|j: int| 0 <= j < i ==> self@[j] == other@[j],
            decreases n - i,
        {
            if self.components[i] != other.components[i] {
                assert(self@[i as int] != other@[i as int]);
                return false;
            }
            i = i + 1;
        }
        true
    }

    /// Every `IsolatedPath` is a normalized, non-empty relative path.
    pub fn component_count(&self) -> (r: usize)
        ensures
            r == self@.len(),
            valid_components(self@),
    {
        proof {
            use_type_invariant(self);
        }
        self.components.len()
    }
}

impl Clone for IsolatedPath {
    fn clone(&self) -> (r: Self)
        ensures
            r@ == self@,
    {
        proof {
            use_type_invariant(self);
        }
        IsolatedPath { components: clone_strings(&self.components), text: self.text.clone() }
    }
}

// ---------------------------------------------------------------- FileContent

/// The longest file content the boundary writes, in bytes.
pub const MAX_FILE_CONTENT_BYTES: usize = 2097152;

/// How the boundary screens content to be written: `Ok` when it holds no NUL
/// and is at most 2 MiB long.
pub open spec fn check_file_content(raw: Seq<char>) -> Result<(), BoundaryErrorView> {
    if raw.contains('\0') {
        Err(BoundaryErrorView::NullByteDetected)
    } else if utf8_len(raw) > 2097152 {
        Err(BoundaryErrorView::PayloadLimitExceeded(utf8_len(raw) as nat, 2097152))
    } else {
        Ok(())
    }
}

/// Text to be written to a workspace file: free of NUL and at most 2 MiB.
#[derive(Debug, PartialEq, Eq)]
pub struct FileContent(String);

impl View for FileContent {
    type V = Seq<char>;

    closed spec fn view(&self) -> Seq<char> {
        self.0@
    }
}

impl FileContent {
    #[verifier::type_invariant]
    pub closed spec fn well_formed(self) -> bool {
        check_file_content(self.0@) is Ok
    }

    pub fn try_from(raw: String) -> (r: Result<FileContent, BoundaryError>)
        ensures
            match check_file_content(raw@) {
                Ok(_) => r matches Ok(c) && c@ == raw@,
                Err(e) => r matches Err(x) && x@ == e,
            },
    {
        if str_contains_char(raw.as_str(), '\0') {
            return Err(BoundaryError::NullByteDetected);
        }
        let n = raw.as_str().len();
        if n > MAX_FILE_CONTENT_BYTES {
            return Err(BoundaryError::PayloadLimitExceeded(n, MAX_FILE_CONTENT_BYTES));
        }
        Ok(FileContent(raw))
    }

    pub fn into_inner(self) -> (r: String)
        ensures
            r@ == self@,
            check_file_content(r@) is Ok,
    {
        proof {
            use_type_invariant(&self);
        }
        self.0
    }

    pub fn as_str(&self) -> (r: &str)
        ensures
            r@ == self@,
            check_file_content(r@) is Ok,
    {
        proof {
            use_type_invariant(self);
        }
        self.0.as_str()
    }
}

impl Clone for FileContent {
    fn clone(&self) -> (r: Self)
        ensures
            r@ == self@,
    {
        proof {
            use_type_invariant(self);
        }
        FileContent(self.0.clone())
    }
}

// ---------------------------------------------------------------- TestSuiteName

/// A test-suite name: 1 to 128 letters, digits, `_` or `-`, not starting with `-`
/// (so it can never be read as a command-line flag).
pub open spec fn valid_test_suite_name(s: Seq<char>) -> bool {
    &&& bounded_id_valid(s, 128, IdentifierAlphabet::Plain)
    &&& s[0] != '-'
}

#[derive(Debug, PartialEq, Eq)]
pub struct TestSuiteName(String);

impl View for TestSuiteName {
    type V = Seq<char>;

    closed spec fn view(&self) -> Seq<char> {
        self.0@
    }
}

impl TestSuiteName {
    #[verifier::type_invariant]
    pub closed spec fn well_formed(self) -> bool {
        valid_test_suite_name(self.0@)
    }

    pub fn try_from(raw: String) -> (r: Result<TestSuiteName, BoundaryError>)
        ensures
            r is Ok <==> valid_test_suite_name(raw@),
            r matches Ok(n) ==> n@ == raw@,
            r matches Err(e) ==> e@ == BoundaryErrorView::InvalidTestSuiteName,
    {
        if !check_bounded_id(raw.as_str(), 128, IdentifierAlphabet::Plain) {
            return Err(BoundaryError::InvalidTestSuiteName);
        }
        if raw.as_str().get_char(0) == '-' {
            return Err(BoundaryError::InvalidTestSuiteName);
        }
        Ok(TestSuiteName(raw))
    }

    pub fn as_str(&self) -> (r: &str)
        ensures
            r@ == self@,
            valid_test_suite_name(r@),
    {
        proof {
            use_type_invariant(self);
        }
        self.0.as_str()
    }
}

impl Clone for TestSuiteName {
    fn clone(&self) -> (r: Self)
        ensures
            r@ == self@,
    {
        proof {
            use_type_invariant(self);
        }
        TestSuiteName(self.0.clone())
    }
}

} // verus!
