//! File system paths as bytes, compared component by component.

use vstd::prelude::*;
use vstd::slice::slice_subrange;

use crate::text::ascii::{DOT, SLASH};
use crate::text::seqs::{extend, join, lemma_split_not_empty, same_slice, split, split_at, views};
use crate::text::strings::{bytes_of, utf8};

verus! {

/// Whether a piece of a path counts as a component of its own: it is not empty, and not `.`.
pub open spec fn is_proper(piece: Seq<u8>) -> bool {
    piece.len() > 0 && piece != seq![DOT]
}

/// The pieces that count as components of their own.
pub open spec fn proper_pieces(pieces: Seq<Seq<u8>>) -> Seq<Seq<u8>>
    decreases pieces.len(),
{
    if pieces.len() == 0 {
        Seq::empty()
    } else {
        let before = proper_pieces(pieces.drop_last());
        if is_proper(pieces.last()) {
            before.push(pieces.last())
        } else {
            before
        }
    }
}

/// The components of a path: `/` for an absolute one, then its names. Repeated and trailing
/// slashes don't count, nor does a `.` but for one that starts the path.
pub open spec fn components(path: Seq<u8>) -> Seq<Seq<u8>> {
    let pieces = split(path, SLASH);
    let start: Seq<Seq<u8>> = if path.len() > 0 && path[0] == SLASH {
        seq![seq![SLASH]]
    } else if pieces[0] == seq![DOT] {
        seq![seq![DOT]]
    } else {
        Seq::empty()
    };
    start + proper_pieces(pieces)
}

/// Whether two paths are the same, component by component.
pub open spec fn same_path(a: Seq<u8>, b: Seq<u8>) -> bool {
    components(a) == components(b)
}

/// Whether `base` is an ancestor of `path`, or the same.
pub open spec fn within(path: Seq<u8>, base: Seq<u8>) -> bool {
    components(base).is_prefix_of(components(path))
}

/// The components of `path` below `base`.
pub open spec fn below(path: Seq<u8>, base: Seq<u8>) -> Seq<Seq<u8>> {
    components(path).skip(components(base).len() as int)
}

/// The index after the first `n` pieces from `i` on that count.
pub open spec fn after_proper(pieces: Seq<Seq<u8>>, i: int, n: nat) -> int
    decreases pieces.len() - i,
{
    if n == 0 || i < 0 || i >= pieces.len() {
        i
    } else if is_proper(pieces[i]) {
        after_proper(pieces, i + 1, (n - 1) as nat)
    } else {
        after_proper(pieces, i + 1, n)
    }
}

/// The index of the first piece from `i` on that counts.
pub open spec fn proper_start(pieces: Seq<Seq<u8>>, i: int) -> int
    decreases pieces.len() - i,
{
    if 0 <= i < pieces.len() && !is_proper(pieces[i]) {
        proper_start(pieces, i + 1)
    } else {
        i
    }
}

/// The index after the last of the pieces `from..to` that counts.
pub open spec fn proper_end(pieces: Seq<Seq<u8>>, from: int, to: int) -> int
    decreases to - from,
{
    if from < to && !is_proper(pieces[to - 1]) {
        proper_end(pieces, from, to - 1)
    } else {
        to
    }
}

/// The length of what starts a path before its names: a `/` or a `.`.
pub open spec fn lead(path: Seq<u8>) -> int {
    if path.len() > 0 && (path[0] == SLASH || split(path, SLASH)[0] == seq![DOT]) {
        1
    } else {
        0
    }
}

/// What `path` holds below `base`, byte for byte: without the slashes and dots that part it
/// from `base` or follow its last name. Nothing parts it from an empty `base`.
pub open spec fn rest_of(path: Seq<u8>, base: Seq<u8>) -> Seq<u8> {
    if base.len() == 0 {
        let body = split(path.skip(lead(path)), SLASH);
        path.take(lead(path)) + join(body.take(proper_end(body, 0, body.len() as int)), seq![SLASH])
    } else {
        let pieces = split(path, SLASH);
        let start = proper_start(
            pieces,
            after_proper(pieces, 0, proper_pieces(split(base, SLASH)).len()),
        );
        join(pieces.subrange(start, proper_end(pieces, start, pieces.len() as int)), seq![SLASH])
    }
}

/// A path's last name; a path that ends in `..`, or has no names, has none.
pub open spec fn last_name(path: Seq<u8>) -> Option<Seq<u8>> {
    let parts = components(path);
    if parts.len() == 0 || parts.last() == seq![SLASH] || parts.last() == seq![DOT] || parts.last()
        == seq![DOT, DOT] {
        None
    } else {
        Some(parts.last())
    }
}

/// The components without the last; there are none above `/` or an empty path.
pub open spec fn parent_of(path: Seq<u8>) -> Option<Seq<Seq<u8>>> {
    let parts = components(path);
    if parts.len() == 0 || parts.last() == seq![SLASH] {
        None
    } else {
        Some(parts.drop_last())
    }
}

/// `path` with `more` below it; an absolute `more` replaces it.
pub open spec fn join_path(path: Seq<u8>, more: Seq<u8>) -> Seq<u8> {
    if more.len() > 0 && more[0] == SLASH {
        more
    } else if path.len() == 0 || path.last() == SLASH {
        path + more
    } else {
        path.push(SLASH) + more
    }
}

/// Whether some paths are pairwise different.
pub open spec fn paths_differ(paths: Seq<Seq<u8>>) -> bool {
    forall|i: int, j: int|
        0 <= i < j < paths.len() ==> !same_path(#[trigger] paths[i], #[trigger] paths[j])
}

/// A path.
#[derive(Debug)]
pub struct FsPath {
    pub bytes: Vec<u8>,
}

impl View for FsPath {
    type V = Seq<u8>;

    open spec fn view(&self) -> Seq<u8> {
        self.bytes@
    }
}

/// The views of some paths.
pub open spec fn path_views(paths: Seq<FsPath>) -> Seq<Seq<u8>> {
    paths.map_values(|p: FsPath| p@)
}

/// The view of an optional path.
pub open spec fn path_opt(path: Option<FsPath>) -> Option<Seq<u8>> {
    match path {
        Some(p) => Some(p@),
        None => None,
    }
}

/// A copy of some bytes.
pub fn copy_bytes(s: &[u8]) -> (r: Vec<u8>)
    ensures
        r@ == s@,
{
    let mut out: Vec<u8> = Vec::new();
    extend(&mut out, s);
    assert(out@ =~= s@);
    out
}

impl Clone for FsPath {
    fn clone(&self) -> (r: Self)
        ensures
            r@ == self@,
    {
        FsPath { bytes: copy_bytes(self.bytes.as_slice()) }
    }
}

impl PartialEq for FsPath {
    fn eq(&self, other: &Self) -> (r: bool) {
        self.same(other)
    }
}

impl vstd::std_specs::cmp::PartialEqSpecImpl for FsPath {
    open spec fn obeys_eq_spec() -> bool {
        true
    }

    open spec fn eq_spec(&self, other: &Self) -> bool {
        same_path(self@, other@)
    }
}

impl Eq for FsPath {

}

/// Whether two lists of slices hold the same slices, up to `n`.
fn same_pieces(a: &Vec<&[u8]>, b: &Vec<&[u8]>, n: usize) -> (r: bool)
    requires
        n <= a@.len(),
        n <= b@.len(),
    ensures
        r == (views(a@).take(n as int) == views(b@).take(n as int)),
{
    let mut i: usize = 0;
    while i < n
        invariant
            i <= n,
            n <= a@.len(),
            n <= b@.len(),
            forall|j: int| 0 <= j < i ==> views(a@)[j] == views(b@)[j],
        decreases n - i,
    {
        if !same_slice(a[i], b[i]) {
            assert(views(a@).take(n as int)[i as int] != views(b@).take(n as int)[i as int]);
            return false;
        }
        i = i + 1;
    }
    assert(views(a@).take(n as int) =~= views(b@).take(n as int));
    true
}

/// Whether a piece of a path counts as a component of its own.
fn counts(piece: &[u8]) -> (r: bool)
    ensures
        r == is_proper(piece@),
{
    if piece.len() == 1 && piece[0] == DOT {
        assert(piece@ =~= seq![DOT]);
        false
    } else {
        assert(piece@ != seq![DOT]);
        piece.len() > 0
    }
}

/// How many pieces count.
fn count_proper(pieces: &Vec<&[u8]>) -> (r: usize)
    ensures
        r == proper_pieces(views(pieces@)).len(),
        r <= pieces@.len(),
{
    let ghost all = views(pieces@);
    let mut n: usize = 0;
    let mut i: usize = 0;
    assert(all.take(0) =~= Seq::<Seq<u8>>::empty());
    while i < pieces.len()
        invariant
            n <= i <= pieces@.len(),
            all == views(pieces@),
            n == proper_pieces(all.take(i as int)).len(),
        decreases pieces@.len() - i,
    {
        let ghost next = all.take(i + 1);
        assert(next.drop_last() =~= all.take(i as int));
        assert(next.last() == pieces@[i as int]@);
        if counts(pieces[i]) {
            n = n + 1;
        }
        i = i + 1;
    }
    assert(all.take(all.len() as int) =~= all);
    n
}

/// The index after the last of the pieces from `from` on that counts.
fn end_of_proper(pieces: &Vec<&[u8]>, from: usize) -> (r: usize)
    requires
        from <= pieces@.len(),
    ensures
        r == proper_end(views(pieces@), from as int, pieces@.len() as int),
        from <= r <= pieces@.len(),
{
    let mut to: usize = pieces.len();
    while from < to && !counts(pieces[to - 1])
        invariant
            from <= to <= pieces@.len(),
            proper_end(views(pieces@), from as int, pieces@.len() as int) == proper_end(
                views(pieces@),
                from as int,
                to as int,
            ),
        decreases to,
    {
        assert(views(pieces@)[to - 1] == pieces@[to - 1]@);
        to = to - 1;
    }
    assert(from < to ==> views(pieces@)[to - 1] == pieces@[to - 1]@);
    to
}

/// The index of the first piece that counts after `n` that do.
fn start_of_rest(pieces: &Vec<&[u8]>, n: usize) -> (r: usize)
    ensures
        r == proper_start(views(pieces@), after_proper(views(pieces@), 0, n as nat)),
        r <= pieces@.len(),
{
    let ghost all = views(pieces@);
    let mut left: usize = n;
    let mut i: usize = 0;
    while left > 0 && i < pieces.len()
        invariant
            i <= pieces@.len(),
            all == views(pieces@),
            after_proper(all, 0, n as nat) == after_proper(all, i as int, left as nat),
        decreases pieces@.len() - i,
    {
        assert(all[i as int] == pieces@[i as int]@);
        if counts(pieces[i]) {
            left = left - 1;
        }
        i = i + 1;
    }
    assert(after_proper(all, 0, n as nat) == i);
    while i < pieces.len() && !counts(pieces[i])
        invariant
            i <= pieces@.len(),
            all == views(pieces@),
            proper_start(all, after_proper(all, 0, n as nat)) == proper_start(all, i as int),
        decreases pieces@.len() - i,
    {
        assert(all[i as int] == pieces@[i as int]@);
        i = i + 1;
    }
    assert(i < pieces@.len() ==> all[i as int] == pieces@[i as int]@);
    i
}

impl FsPath {
    /// The path that a text is.
    pub fn new(text: &str) -> (r: FsPath)
        ensures
            r@ == utf8(text),
    {
        FsPath { bytes: copy_bytes(bytes_of(text)) }
    }

    pub fn is_empty(&self) -> (r: bool)
        ensures
            r == (self@.len() == 0),
    {
        self.bytes.len() == 0
    }

    /// The path's components.
    pub fn parts<'a>(&'a self) -> (r: Vec<&'a [u8]>)
        ensures
            views(r@) == components(self@),
    {
        let bytes: &'a [u8] = self.bytes.as_slice();
        let pieces = split_at(bytes, SLASH);
        let ghost all = split(self@, SLASH);
        proof {
            lemma_split_not_empty(self@, SLASH);
        }
        let mut out: Vec<&'a [u8]> = Vec::new();
        if bytes.len() > 0 && bytes[0] == SLASH {
            let root = slice_subrange(bytes, 0, 1);
            assert(root@ =~= seq![SLASH]);
            out.push(root);
            assert(views(out@) =~= seq![seq![SLASH]]);
        } else {
            let first = pieces[0];
            assert(all[0] == first@);
            if first.len() == 1 && first[0] == DOT {
                assert(first@ =~= seq![DOT]);
                out.push(first);
                assert(views(out@) =~= seq![seq![DOT]]);
            } else {
                assert(views(out@) =~= Seq::<Seq<u8>>::empty());
            }
        }
        let ghost start = views(out@);
        let mut i: usize = 0;
        assert(all.take(0) =~= Seq::<Seq<u8>>::empty());
        while i < pieces.len()
            invariant
                i <= pieces@.len(),
                all == views(pieces@),
                views(out@) == start + proper_pieces(all.take(i as int)),
            decreases pieces@.len() - i,
        {
            let piece = pieces[i];
            let ghost before = views(out@);
            let ghost next = all.take(i + 1);
            assert(next.drop_last() =~= all.take(i as int));
            assert(next.last() == piece@);
            if counts(piece) {
                out.push(piece);
                assert(views(out@) =~= before.push(piece@));
                assert(views(out@) =~= start + proper_pieces(next));
            }
            i = i + 1;
        }
        assert(all.take(all.len() as int) =~= all);
        out
    }

    /// Whether this is the same path.
    pub fn same(&self, other: &FsPath) -> (r: bool)
        ensures
            r == same_path(self@, other@),
    {
        let a = self.parts();
        let b = other.parts();
        let n: usize = a.len();
        if n != b.len() {
            return false;
        }
        assert(views(a@).take(n as int) =~= views(a@));
        assert(views(b@).take(n as int) =~= views(b@));
        same_pieces(&a, &b, n)
    }

    /// Whether this path is `base` or lies below it.
    pub fn starts_with(&self, base: &FsPath) -> (r: bool)
        ensures
            r == within(self@, base@),
    {
        let a = self.parts();
        let b = base.parts();
        let n: usize = b.len();
        if n > a.len() {
            return false;
        }
        assert(views(b@).take(n as int) =~= views(b@));
        same_pieces(&a, &b, n)
    }

    /// What this path holds below `base`.
    pub fn strip_prefix(&self, base: &FsPath) -> (r: Option<FsPath>)
        ensures
            match r {
                Some(rest) => within(self@, base@) && rest@ == rest_of(self@, base@),
                None => !within(self@, base@),
            },
    {
        if !self.starts_with(base) {
            return None;
        }
        let bytes = self.bytes.as_slice();
        if base.bytes.len() == 0 {
            let n: usize = self.lead_len();
            let body = split_at(slice_subrange(bytes, n, bytes.len()), SLASH);
            let ghost pieces = split(self@.skip(lead(self@)), SLASH);
            assert(self@.subrange(n as int, self@.len() as int) =~= self@.skip(n as int));
            let end = end_of_proper(&body, 0);
            let mut out = copy_bytes(slice_subrange(bytes, 0, n));
            let more = join_pieces(&body, 0, end);
            extend(&mut out, more.as_slice());
            assert(pieces.subrange(0, end as int) =~= pieces.take(end as int));
            assert(self@.subrange(0, n as int) =~= self@.take(n as int));
            return Some(FsPath { bytes: out });
        }
        let pieces = split_at(bytes, SLASH);
        let names = split_at(base.bytes.as_slice(), SLASH);
        let start = start_of_rest(&pieces, count_proper(&names));
        let end = end_of_proper(&pieces, start);
        Some(FsPath { bytes: join_pieces(&pieces, start, end) })
    }

    /// The length of what starts the path before its names.
    fn lead_len(&self) -> (r: usize)
        ensures
            r == lead(self@),
            r <= self@.len(),
    {
        let bytes = self.bytes.as_slice();
        if bytes.len() == 0 {
            return 0;
        }
        if bytes[0] == SLASH {
            return 1;
        }
        let pieces = split_at(bytes, SLASH);
        proof {
            lemma_split_not_empty(self@, SLASH);
            assert(split(self@, SLASH)[0] == pieces@[0]@);
        }
        let first = pieces[0];
        if first.len() == 1 && first[0] == DOT {
            assert(first@ =~= seq![DOT]);
            1
        } else {
            assert(first@ != seq![DOT]);
            0
        }
    }

    /// Whether the path above this one is `dir`.
    pub fn is_directly_in(&self, dir: &FsPath) -> (r: bool)
        ensures
            r == (parent_of(self@) == Some(components(dir@))),
    {
        let a = self.parts();
        let b = dir.parts();
        let n: usize = a.len();
        if n == 0 {
            return false;
        }
        let last = a[n - 1];
        assert(views(a@).last() == last@);
        if last.len() == 1 && last[0] == SLASH {
            assert(last@ =~= seq![SLASH]);
            return false;
        }
        assert(last@ != seq![SLASH]);
        assert(components(self@).drop_last().len() == n - 1);
        assert(components(dir@).len() == b@.len());
        if n - 1 != b.len() {
            return false;
        }
        assert(views(a@).take(n - 1) =~= views(a@).drop_last());
        assert(views(b@).take(n - 1) =~= views(b@));
        same_pieces(&a, &b, n - 1)
    }

    /// The path's last name.
    pub fn file_name(&self) -> (r: Option<Vec<u8>>)
        ensures
            match r {
                Some(name) => last_name(self@) == Some(name@),
                None => last_name(self@) is None,
            },
    {
        let parts = self.parts();
        let n: usize = parts.len();
        if n == 0 {
            return None;
        }
        let last = parts[n - 1];
        assert(views(parts@).last() == last@);
        if last.len() == 1 && (last[0] == SLASH || last[0] == DOT) {
            assert(last@ =~= seq![SLASH] || last@ =~= seq![DOT]);
            return None;
        }
        if last.len() == 2 && last[0] == DOT && last[1] == DOT {
            assert(last@ =~= seq![DOT, DOT]);
            return None;
        }
        assert(last@ != seq![SLASH] && last@ != seq![DOT] && last@ != seq![DOT, DOT]);
        Some(copy_bytes(last))
    }

    /// The path `more` below this one.
    pub fn join(&self, more: &FsPath) -> (r: FsPath)
        ensures
            r@ == join_path(self@, more@),
    {
        if more.bytes.len() > 0 && more.bytes[0] == SLASH {
            return more.clone();
        }
        let mut out = copy_bytes(self.bytes.as_slice());
        let n: usize = out.len();
        if n > 0 && out[n - 1] != SLASH {
            out.push(SLASH);
        }
        extend(&mut out, more.bytes.as_slice());
        FsPath { bytes: out }
    }

    /// The path of the file `name` below this one.
    pub fn child(&self, name: &str) -> (r: FsPath)
        ensures
            r@ == join_path(self@, utf8(name)),
    {
        self.join(&FsPath::new(name))
    }
}

/// The pieces `from..to` with slashes between them.
fn join_pieces(parts: &Vec<&[u8]>, from: usize, to: usize) -> (r: Vec<u8>)
    requires
        from <= to <= parts@.len(),
    ensures
        r@ == join(views(parts@).subrange(from as int, to as int), seq![SLASH]),
{
    let mut out: Vec<u8> = Vec::new();
    let mut i: usize = from;
    let ghost all = views(parts@);
    assert(all.subrange(from as int, from as int) =~= Seq::<Seq<u8>>::empty());
    while i < to
        invariant
            from <= i <= to <= parts@.len(),
            all == views(parts@),
            out@ == join(all.subrange(from as int, i as int), seq![SLASH]),
        decreases to - i,
    {
        let ghost next = all.subrange(from as int, i + 1);
        assert(next.drop_last() =~= all.subrange(from as int, i as int));
        assert(next.last() == parts@[i as int]@);
        if i > from {
            out.push(SLASH);
        }
        extend(&mut out, parts[i]);
        assert(out@ =~= join(next, seq![SLASH]));
        i = i + 1;
    }
    out
}

/// Being the same path is symmetric and transitive, and a path is within itself.
pub proof fn law_same_path_is_an_equivalence(a: Seq<u8>, b: Seq<u8>, c: Seq<u8>)
    ensures
        same_path(a, a),
        within(a, a),
        same_path(a, b) == same_path(b, a),
        same_path(a, b) && same_path(b, c) ==> same_path(a, c),
        within(a, b) && within(b, c) ==> within(a, c),
        within(a, b) && within(b, a) ==> same_path(a, b),
{
    if within(a, b) && within(b, a) {
        assert(components(a) =~= components(b));
    }
}

} // verus!
