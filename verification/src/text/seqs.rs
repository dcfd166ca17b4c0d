//! Searching and splitting sequences.

use vstd::prelude::*;
use vstd::slice::slice_subrange;

use crate::text::symbol::Symbol;

verus! {

/// The index of the first `x` in `s`, or the length when there is none.
pub open spec fn index_of<T>(s: Seq<T>, x: T) -> int
    decreases s.len(),
{
    if s.len() == 0 {
        0
    } else if s[0] == x {
        0
    } else {
        1 + index_of(s.drop_first(), x)
    }
}

/// What `index_of` finds: nothing before it is `x`, and it is `x` unless it is the end.
pub proof fn lemma_index_of<T>(s: Seq<T>, x: T)
    ensures
        0 <= index_of(s, x) <= s.len(),
        forall|i: int| 0 <= i < index_of(s, x) ==> s[i] != x,
        index_of(s, x) < s.len() ==> s[index_of(s, x)] == x,
    decreases s.len(),
{
    if s.len() > 0 && s[0] != x {
        let rest = s.drop_first();
        lemma_index_of(rest, x);
        assert forall|i: int| 0 <= i < index_of(s, x) implies s[i] != x by {
            if i > 0 {
                assert(rest[i - 1] == s[i]);
            }
        }
    }
}

/// Where the first `x` is found when a scan has seen none before `k`.
pub proof fn lemma_index_of_is<T>(s: Seq<T>, x: T, k: int)
    requires
        0 <= k <= s.len(),
        forall|i: int| 0 <= i < k ==> s[i] != x,
        k < s.len() ==> s[k] == x,
    ensures
        index_of(s, x) == k,
{
    lemma_index_of(s, x);
    let found = index_of(s, x);
    if found < k {
        assert(s[found] != x);
    }
}

/// The pieces of `s` between the `sep`s: one more than there are separators.
pub open spec fn split<T>(s: Seq<T>, sep: T) -> Seq<Seq<T>>
    decreases s.len(),
{
    if index_of(s, sep) >= s.len() {
        seq![s]
    } else {
        proof {
            lemma_index_of(s, sep);
        }
        seq![s.take(index_of(s, sep))] + split(s.skip(index_of(s, sep) + 1), sep)
    }
}

/// The views of a list of slices.
pub open spec fn views<T>(pieces: Seq<&[T]>) -> Seq<Seq<T>> {
    pieces.map_values(|p: &[T]| p@)
}

/// The index of the first `x`, if any.
pub fn find<T: Symbol>(s: &[T], x: T) -> (r: Option<usize>)
    ensures
        match r {
            Some(i) => i == index_of(s@, x) && i < s@.len(),
            None => index_of(s@, x) == s@.len(),
        },
{
    let mut i: usize = 0;
    while i < s.len()
        invariant
            i <= s@.len(),
            forall|j: int| 0 <= j < i ==> s@[j] != x,
        decreases s@.len() - i,
    {
        if s[i].same(x) {
            proof {
                lemma_index_of_is(s@, x, i as int);
            }
            return Some(i);
        }
        i = i + 1;
    }
    proof {
        lemma_index_of_is(s@, x, i as int);
    }
    None
}

/// Splits at every `sep`.
pub fn split_at<'a, T: Symbol>(s: &'a [T], sep: T) -> (r: Vec<&'a [T]>)
    ensures
        views(r@) == split(s@, sep),
{
    let mut out: Vec<&'a [T]> = Vec::new();
    let mut rest: &'a [T] = s;
    loop
        invariant
            views(out@) + split(rest@, sep) == split(s@, sep),
        decreases rest@.len(),
    {
        let ghost before = views(out@);
        match find(rest, sep) {
            None => {
                out.push(rest);
                assert(views(out@) =~= before.push(rest@));
                return out;
            },
            Some(i) => {
                let end: usize = rest.len();
                let piece = slice_subrange(rest, 0, i);
                let ghost old_rest = rest@;
                out.push(piece);
                rest = slice_subrange(rest, i + 1, end);
                assert(piece@ =~= old_rest.take(i as int));
                assert(rest@ =~= old_rest.skip(i + 1));
                assert(views(out@) =~= before.push(piece@));
                assert(before.push(piece@) + split(rest@, sep) =~= before + (seq![piece@] + split(
                    rest@,
                    sep,
                )));
            },
        }
    }
}


/// What comes before and after the first `sep`, if there is one.
pub open spec fn split_once<T>(s: Seq<T>, sep: T) -> Option<(Seq<T>, Seq<T>)> {
    if index_of(s, sep) >= s.len() {
        None
    } else {
        Some((s.take(index_of(s, sep)), s.skip(index_of(s, sep) + 1)))
    }
}

/// The slices before and after the first `sep`.
pub fn split_first<'a, T: Symbol>(s: &'a [T], sep: T) -> (r: Option<(&'a [T], &'a [T])>)
    ensures
        match r {
            Some((a, b)) => split_once(s@, sep) == Some((a@, b@)),
            None => split_once(s@, sep) is None,
        },
{
    match find(s, sep) {
        None => None,
        Some(i) => {
            let end: usize = s.len();
            let a = slice_subrange(s, 0, i);
            let b = slice_subrange(s, i + 1, end);
            assert(a@ =~= s@.take(i as int));
            assert(b@ =~= s@.skip(i + 1));
            Some((a, b))
        },
    }
}

/// At most `n` pieces of `s`: the last one keeps any further separators.
pub open spec fn splitn<T>(s: Seq<T>, n: nat, sep: T) -> Seq<Seq<T>>
    decreases n,
{
    if n == 0 {
        Seq::empty()
    } else if n == 1 {
        seq![s]
    } else {
        match split_once(s, sep) {
            None => seq![s],
            Some((first, rest)) => seq![first] + splitn(rest, (n - 1) as nat, sep),
        }
    }
}

/// Splits into at most `n` pieces.
pub fn split_upto<'a, T: Symbol>(s: &'a [T], n: usize, sep: T) -> (r: Vec<&'a [T]>)
    ensures
        views(r@) == splitn(s@, n as nat, sep),
{
    let mut out: Vec<&'a [T]> = Vec::new();
    let mut rest: &'a [T] = s;
    let mut left: usize = n;
    loop
        invariant
            views(out@) + splitn(rest@, left as nat, sep) == splitn(s@, n as nat, sep),
        decreases left,
    {
        let ghost before = views(out@);
        if left == 0 {
            assert(views(out@) + splitn(rest@, 0, sep) =~= views(out@));
            return out;
        }
        if left == 1 {
            out.push(rest);
            assert(views(out@) =~= before.push(rest@));
            assert(before.push(rest@) =~= before + seq![rest@]);
            return out;
        }
        match split_first(rest, sep) {
            None => {
                out.push(rest);
                assert(views(out@) =~= before.push(rest@));
                assert(before.push(rest@) =~= before + seq![rest@]);
                return out;
            },
            Some((piece, after)) => {
                out.push(piece);
                assert(views(out@) =~= before.push(piece@));
                assert(before.push(piece@) + splitn(after@, (left - 1) as nat, sep) =~= before + (
                seq![piece@] + splitn(after@, (left - 1) as nat, sep)));
                rest = after;
                left = left - 1;
            },
        }
    }
}

/// `s` without a leading `prefix`, if it has one.
pub open spec fn strip_prefix<T>(s: Seq<T>, prefix: Seq<T>) -> Option<Seq<T>> {
    if prefix.is_prefix_of(s) {
        Some(s.skip(prefix.len() as int))
    } else {
        None
    }
}

/// `s` without a trailing `suffix`, if it has one.
pub open spec fn strip_suffix<T>(s: Seq<T>, suffix: Seq<T>) -> Option<Seq<T>> {
    if suffix.is_suffix_of(s) {
        Some(s.take(s.len() - suffix.len()))
    } else {
        None
    }
}

/// Whether two slices hold the same symbols.
pub fn same_slice<T: Symbol>(a: &[T], b: &[T]) -> (r: bool)
    ensures
        r == (a@ == b@),
{
    let n: usize = a.len();
    if n != b.len() {
        return false;
    }
    let mut i: usize = 0;
    while i < n
        invariant
            i <= n,
            n == a@.len(),
            n == b@.len(),
            forall|j: int| 0 <= j < i ==> a@[j] == b@[j],
        decreases n - i,
    {
        if !a[i].same(b[i]) {
            return false;
        }
        i = i + 1;
    }
    assert(a@ =~= b@);
    true
}

/// Whether `s` starts with `prefix`.
pub fn starts_with<T: Symbol>(s: &[T], prefix: &[T]) -> (r: bool)
    ensures
        r == prefix@.is_prefix_of(s@),
{
    let n: usize = prefix.len();
    if n > s.len() {
        return false;
    }
    let head = slice_subrange(s, 0, n);
    assert(head@ =~= s@.take(n as int));
    same_slice(head, prefix)
}

/// Whether `s` ends with `suffix`.
pub fn ends_with<T: Symbol>(s: &[T], suffix: &[T]) -> (r: bool)
    ensures
        r == suffix@.is_suffix_of(s@),
{
    let n: usize = suffix.len();
    let end: usize = s.len();
    if n > end {
        return false;
    }
    let tail = slice_subrange(s, end - n, end);
    assert(tail@ =~= s@.subrange(s@.len() - n, s@.len() as int));
    same_slice(tail, suffix)
}

/// What follows `prefix`, if `s` starts with it.
pub fn after_prefix<'a, T: Symbol>(s: &'a [T], prefix: &[T]) -> (r: Option<&'a [T]>)
    ensures
        match r {
            Some(rest) => strip_prefix(s@, prefix@) == Some(rest@),
            None => strip_prefix(s@, prefix@) is None,
        },
{
    if starts_with(s, prefix) {
        let end: usize = s.len();
        let rest = slice_subrange(s, prefix.len(), end);
        assert(rest@ =~= s@.skip(prefix@.len() as int));
        Some(rest)
    } else {
        None
    }
}

/// What precedes `suffix`, if `s` ends with it.
pub fn before_suffix<'a, T: Symbol>(s: &'a [T], suffix: &[T]) -> (r: Option<&'a [T]>)
    ensures
        match r {
            Some(rest) => strip_suffix(s@, suffix@) == Some(rest@),
            None => strip_suffix(s@, suffix@) is None,
        },
{
    if ends_with(s, suffix) {
        let end: usize = s.len();
        let rest = slice_subrange(s, 0, end - suffix.len());
        assert(rest@ =~= s@.take(s@.len() - suffix@.len()));
        Some(rest)
    } else {
        None
    }
}

/// Whether `sub` stands in `s` at index `i`.
pub open spec fn occurs_at<T>(s: Seq<T>, sub: Seq<T>, i: int) -> bool {
    0 <= i && i + sub.len() <= s.len() && s.subrange(i, i + sub.len()) == sub
}

/// Whether `sub` stands anywhere in `s`.
pub open spec fn has_sub<T>(s: Seq<T>, sub: Seq<T>) -> bool {
    exists|i: int| occurs_at(s, sub, i)
}

/// The first index at which `sub` stands in `s`.
pub open spec fn sub_index<T>(s: Seq<T>, sub: Seq<T>) -> Option<int>
    decreases s.len(),
{
    if sub.is_prefix_of(s) {
        Some(0)
    } else if s.len() == 0 {
        None
    } else {
        match sub_index(s.drop_first(), sub) {
            Some(i) => Some(i + 1),
            None => None,
        }
    }
}

/// What `sub_index` finds.
pub proof fn lemma_sub_index<T>(s: Seq<T>, sub: Seq<T>)
    ensures
        match sub_index(s, sub) {
            Some(i) => occurs_at(s, sub, i) && forall|j: int| 0 <= j < i ==> !occurs_at(s, sub, j),
            None => forall|j: int| !occurs_at(s, sub, j),
        },
    decreases s.len(),
{
    if sub.is_prefix_of(s) {
        assert(s.subrange(0, sub.len() as int) =~= sub);
    } else {
        assert(!occurs_at(s, sub, 0)) by {
            if occurs_at(s, sub, 0) {
                assert(s.subrange(0, sub.len() as int) == sub);
                assert(sub.is_prefix_of(s));
            }
        }
        if s.len() > 0 {
            let rest = s.drop_first();
            lemma_sub_index(rest, sub);
            assert forall|j: int| j >= 1 implies occurs_at(s, sub, j) == occurs_at(rest, sub, j - 1) by {
                if j + sub.len() <= s.len() {
                    assert(s.subrange(j, j + sub.len()) =~= rest.subrange(j - 1, j - 1 + sub.len()));
                }
            }
            match sub_index(rest, sub) {
                Some(i) => {
                    assert(occurs_at(rest, sub, i));
                    assert(occurs_at(s, sub, i + 1));
                    assert forall|j: int| 0 <= j < i + 1 implies !occurs_at(s, sub, j) by {
                        if j >= 1 {
                            assert(!occurs_at(rest, sub, j - 1));
                        }
                    }
                },
                None => {
                    assert forall|j: int| !occurs_at(s, sub, j) by {
                        if j >= 1 {
                            assert(!occurs_at(rest, sub, j - 1));
                        }
                    }
                },
            }
        }
    }
}

/// What the first index of `sub` is.
pub proof fn lemma_sub_index_is<T>(s: Seq<T>, sub: Seq<T>, at: int)
    requires
        occurs_at(s, sub, at),
        forall|j: int| 0 <= j < at ==> !occurs_at(s, sub, j),
    ensures
        sub_index(s, sub) == Some(at),
{
    lemma_sub_index(s, sub);
}

/// `sub` stands in `s` exactly when it has a first index there.
pub proof fn lemma_has_sub<T>(s: Seq<T>, sub: Seq<T>)
    ensures
        has_sub(s, sub) == (sub_index(s, sub) is Some),
{
    lemma_sub_index(s, sub);
}

/// The first index of `sub` in `s`.
pub fn find_sub<T: Symbol>(s: &[T], sub: &[T]) -> (r: Option<usize>)
    ensures
        match r {
            Some(i) => sub_index(s@, sub@) == Some(i as int) && i + sub@.len() <= s@.len(),
            None => sub_index(s@, sub@) is None,
        },
{
    let n: usize = s.len();
    let mut i: usize = 0;
    assert(s@.skip(0) =~= s@);
    loop
        invariant
            i <= n,
            n == s@.len(),
            match sub_index(s@.skip(i as int), sub@) {
                Some(k) => sub_index(s@, sub@) == Some(k + i),
                None => sub_index(s@, sub@) is None,
            },
        decreases n - i,
    {
        let rest = slice_subrange(s, i, n);
        assert(rest@ =~= s@.skip(i as int));
        if starts_with(rest, sub) {
            return Some(i);
        }
        if i == n {
            return None;
        }
        assert(s@.skip(i as int).drop_first() =~= s@.skip(i + 1));
        i = i + 1;
    }
}

/// Whether `sub` stands in `s`.
pub fn contains_sub<T: Symbol>(s: &[T], sub: &[T]) -> (r: bool)
    ensures
        r == has_sub(s@, sub@),
{
    proof {
        lemma_has_sub(s@, sub@);
    }
    find_sub(s, sub).is_some()
}

/// What comes before and after the first `sub`, if there is one.
pub open spec fn split_once_sub<T>(s: Seq<T>, sub: Seq<T>) -> Option<(Seq<T>, Seq<T>)> {
    match sub_index(s, sub) {
        None => None,
        Some(i) => Some((s.take(i), s.skip(i + sub.len()))),
    }
}

/// The slices before and after the first `sub`.
pub fn split_first_sub<'a, T: Symbol>(s: &'a [T], sub: &[T]) -> (r: Option<(&'a [T], &'a [T])>)
    ensures
        match r {
            Some((a, b)) => split_once_sub(s@, sub@) == Some((a@, b@)),
            None => split_once_sub(s@, sub@) is None,
        },
{
    match find_sub(s, sub) {
        None => None,
        Some(i) => {
            let end: usize = s.len();
            let a = slice_subrange(s, 0, i);
            let b = slice_subrange(s, i + sub.len(), end);
            assert(a@ =~= s@.take(i as int));
            assert(b@ =~= s@.skip(i + sub@.len()));
            Some((a, b))
        },
    }
}

/// The pieces of `s` between the `sub`s (`sub` is not empty).
pub open spec fn split_sub<T>(s: Seq<T>, sub: Seq<T>) -> Seq<Seq<T>>
    recommends
        sub.len() > 0,
    decreases s.len(),
{
    match sub_index(s, sub) {
        None => seq![s],
        Some(i) => {
            if sub.len() == 0 {
                seq![s]
            } else {
                proof {
                    lemma_sub_index(s, sub);
                }
                seq![s.take(i)] + split_sub(s.skip(i + sub.len()), sub)
            }
        },
    }
}

/// Splits at every `sub`.
pub fn split_at_sub<'a, T: Symbol>(s: &'a [T], sub: &[T]) -> (r: Vec<&'a [T]>)
    requires
        sub@.len() > 0,
    ensures
        views(r@) == split_sub(s@, sub@),
{
    let mut out: Vec<&'a [T]> = Vec::new();
    let mut rest: &'a [T] = s;
    loop
        invariant
            sub@.len() > 0,
            views(out@) + split_sub(rest@, sub@) == split_sub(s@, sub@),
        decreases rest@.len(),
    {
        let ghost before = views(out@);
        proof {
            lemma_sub_index(rest@, sub@);
        }
        match split_first_sub(rest, sub) {
            None => {
                out.push(rest);
                assert(views(out@) =~= before.push(rest@));
                return out;
            },
            Some((piece, after)) => {
                out.push(piece);
                assert(views(out@) =~= before.push(piece@));
                assert(before.push(piece@) + split_sub(after@, sub@) =~= before + (seq![piece@]
                    + split_sub(after@, sub@)));
                rest = after;
            },
        }
    }
}

/// The parts one after another with `sep` between them.
pub open spec fn join<T>(parts: Seq<Seq<T>>, sep: Seq<T>) -> Seq<T>
    decreases parts.len(),
{
    if parts.len() == 0 {
        Seq::empty()
    } else if parts.len() == 1 {
        parts[0]
    } else {
        join(parts.drop_last(), sep) + sep + parts.last()
    }
}

/// `s` with every `from` replaced by `to` (`from` is not empty).
pub open spec fn replace_sub<T>(s: Seq<T>, from: Seq<T>, to: Seq<T>) -> Seq<T> {
    join(split_sub(s, from), to)
}

/// `s` with every symbol `from` replaced by the symbols `to`.
pub open spec fn replace<T>(s: Seq<T>, from: T, to: Seq<T>) -> Seq<T>
    decreases s.len(),
{
    if s.len() == 0 {
        Seq::empty()
    } else {
        replace(s.drop_last(), from, to) + (if s.last() == from {
            to
        } else {
            seq![s.last()]
        })
    }
}

/// Appends a slice to a vector.
pub fn extend<T: Symbol>(out: &mut Vec<T>, more: &[T])
    ensures
        final(out)@ == old(out)@ + more@,
{
    let mut i: usize = 0;
    let n: usize = more.len();
    while i < n
        invariant
            i <= n,
            n == more@.len(),
            out@ == old(out)@ + more@.take(i as int),
        decreases n - i,
    {
        out.push(more[i]);
        assert(more@.take(i + 1) =~= more@.take(i as int).push(more@[i as int]));
        i = i + 1;
    }
    assert(more@.take(n as int) =~= more@);
}

/// Replaces every symbol `from` by `to`.
pub fn replaced<T: Symbol>(s: &[T], from: T, to: &[T]) -> (r: Vec<T>)
    ensures
        r@ == replace(s@, from, to@),
{
    let mut out: Vec<T> = Vec::new();
    let mut i: usize = 0;
    let n: usize = s.len();
    assert(s@.take(0) =~= Seq::<T>::empty());
    while i < n
        invariant
            i <= n,
            n == s@.len(),
            out@ == replace(s@.take(i as int), from, to@),
        decreases n - i,
    {
        let ghost next = s@.take(i + 1);
        assert(next.drop_last() =~= s@.take(i as int));
        assert(next.last() == s@[i as int]);
        if s[i].same(from) {
            extend(&mut out, to);
        } else {
            out.push(s[i]);
            assert(out@ =~= replace(next, from, to@));
        }
        i = i + 1;
    }
    assert(s@.take(n as int) =~= s@);
    out
}

/// `s` without the `x`s it starts with.
pub open spec fn skip_leading<T>(s: Seq<T>, x: T) -> Seq<T>
    decreases s.len(),
{
    if s.len() > 0 && s[0] == x {
        skip_leading(s.drop_first(), x)
    } else {
        s
    }
}

/// Drops the `x`s at the start.
pub fn skipped_leading<'a, T: Symbol>(s: &'a [T], x: T) -> (r: &'a [T])
    ensures
        r@ == skip_leading(s@, x),
{
    let n: usize = s.len();
    let mut i: usize = 0;
    assert(s@.skip(0) =~= s@);
    while i < n && s[i].same(x)
        invariant
            i <= n,
            n == s@.len(),
            skip_leading(s@.skip(i as int), x) == skip_leading(s@, x),
        decreases n - i,
    {
        assert(s@.skip(i as int).drop_first() =~= s@.skip(i + 1));
        i = i + 1;
    }
    let r = slice_subrange(s, i, n);
    assert(r@ =~= s@.skip(i as int));
    r
}

/// `s` without any number of `prefix`es it starts with (`prefix` is not empty).
pub open spec fn strip_all<T>(s: Seq<T>, prefix: Seq<T>) -> Seq<T>
    decreases s.len(),
{
    if prefix.len() > 0 && prefix.is_prefix_of(s) {
        strip_all(s.skip(prefix.len() as int), prefix)
    } else {
        s
    }
}

/// Drops every `prefix` at the start.
pub fn stripped_all<'a, T: Symbol>(s: &'a [T], prefix: &[T]) -> (r: &'a [T])
    ensures
        r@ == strip_all(s@, prefix@),
{
    let mut rest: &'a [T] = s;
    if prefix.len() == 0 {
        return s;
    }
    loop
        invariant
            prefix@.len() > 0,
            strip_all(rest@, prefix@) == strip_all(s@, prefix@),
        decreases rest@.len(),
    {
        match after_prefix(rest, prefix) {
            None => {
                return rest;
            },
            Some(after) => {
                rest = after;
            },
        }
    }
}

/// What `f` makes of each element, without those it gives nothing for.
pub open spec fn filter_map<A, B>(s: Seq<A>, f: spec_fn(A) -> Option<B>) -> Seq<B>
    decreases s.len(),
{
    if s.len() == 0 {
        Seq::empty()
    } else {
        let before = filter_map(s.drop_last(), f);
        match f(s.last()) {
            Some(b) => before.push(b),
            None => before,
        }
    }
}

/// What one more element adds.
pub proof fn lemma_filter_map_step<A, B>(s: Seq<A>, f: spec_fn(A) -> Option<B>, i: int)
    requires
        0 <= i < s.len(),
    ensures
        filter_map(s.take(i + 1), f) == (match f(s[i]) {
            Some(b) => filter_map(s.take(i), f).push(b),
            None => filter_map(s.take(i), f),
        }),
        s.take(s.len() as int) == s,
{
    assert(s.take(i + 1).drop_last() =~= s.take(i));
    assert(s.take(s.len() as int) =~= s);
}

/// Replacing in one more symbol in front.
pub proof fn lemma_replace_cons<T>(first: T, rest: Seq<T>, from: T, to: Seq<T>)
    ensures
        replace(seq![first] + rest, from, to) == (if first == from {
            to
        } else {
            seq![first]
        }) + replace(rest, from, to),
    decreases rest.len(),
{
    let all = seq![first] + rest;
    if rest.len() == 0 {
        assert(all.drop_last() =~= Seq::<T>::empty());
        assert(replace(all.drop_last(), from, to) =~= Seq::<T>::empty());
        assert(replace(all, from, to) =~= if first == from {
            to
        } else {
            seq![first]
        });
        assert(replace(rest, from, to) =~= Seq::<T>::empty());
    } else {
        assert(all.drop_last() =~= seq![first] + rest.drop_last());
        assert(all.last() == rest.last());
        lemma_replace_cons(first, rest.drop_last(), from, to);
        assert(replace(all, from, to) =~= (if first == from {
            to
        } else {
            seq![first]
        }) + replace(rest, from, to));
    }
}

/// Splitting and joining with the same separator gives the text back.
pub proof fn law_join_of_split<T>(s: Seq<T>, sep: T)
    ensures
        join(split(s, sep), seq![sep]) == s,
    decreases s.len(),
{
    lemma_index_of(s, sep);
    let i = index_of(s, sep);
    if i < s.len() {
        let rest = s.skip(i + 1);
        law_join_of_split(rest, sep);
        lemma_split_not_empty(rest, sep);
        lemma_join_cons(s.take(i), split(rest, sep), seq![sep]);
        assert(s =~= s.take(i) + seq![sep] + rest);
    }
}

/// There is always at least one piece.
pub proof fn lemma_split_not_empty<T>(s: Seq<T>, sep: T)
    ensures
        split(s, sep).len() >= 1,
    decreases s.len(),
{
    lemma_index_of(s, sep);
    if index_of(s, sep) < s.len() {
        lemma_split_not_empty(s.skip(index_of(s, sep) + 1), sep);
    }
}

/// Splitting what was joined at a separator gives the pieces of either side.
pub proof fn law_split_of_joined<T>(a: Seq<T>, sep: T, b: Seq<T>)
    ensures
        split(a + seq![sep] + b, sep) == split(a, sep) + split(b, sep),
    decreases a.len(),
{
    let all = a + seq![sep] + b;
    let at = index_of(a, sep);
    lemma_index_of(a, sep);
    assert forall|i: int| 0 <= i < at implies all[i] != sep by {
        assert(all[i] == a[i]);
    }
    if at < a.len() {
        assert(all[at] == a[at]);
        lemma_index_of_is(all, sep, at);
        law_split_of_joined(a.skip(at + 1), sep, b);
        assert(all.skip(at + 1) =~= a.skip(at + 1) + seq![sep] + b);
        assert(all.take(at) =~= a.take(at));
        assert(split(all, sep) =~= split(a, sep) + split(b, sep));
    } else {
        lemma_index_of_is(all, sep, at);
        assert(all.skip(at + 1) =~= b);
        assert(all.take(at) =~= a);
        assert(split(all, sep) =~= split(a, sep) + split(b, sep));
    }
}

/// Joining with one more part in front.
pub proof fn lemma_join_cons<T>(first: Seq<T>, rest: Seq<Seq<T>>, sep: Seq<T>)
    requires
        rest.len() >= 1,
    ensures
        join(seq![first] + rest, sep) == first + sep + join(rest, sep),
    decreases rest.len(),
{
    let all = seq![first] + rest;
    if rest.len() == 1 {
        assert(all.drop_last() =~= seq![first]);
        assert(join(seq![first], sep) == first);
    } else {
        assert(all.drop_last() =~= seq![first] + rest.drop_last());
        assert(all.last() == rest.last());
        lemma_join_cons(first, rest.drop_last(), sep);
        assert(join(all, sep) =~= first + sep + join(rest, sep));
    }
}

/// No piece holds the separator.
pub proof fn law_split_pieces_have_no_separator<T>(s: Seq<T>, sep: T)
    ensures
        forall|i: int| 0 <= i < split(s, sep).len() ==> !(#[trigger] split(s, sep)[i]).contains(sep),
    decreases s.len(),
{
    lemma_index_of(s, sep);
    let at = index_of(s, sep);
    if at < s.len() {
        let rest = s.skip(at + 1);
        law_split_pieces_have_no_separator(rest, sep);
        assert forall|i: int| 0 <= i < split(s, sep).len() implies !(#[trigger] split(s, sep)[i]).contains(sep) by {
            if i > 0 {
                assert(split(s, sep)[i] == split(rest, sep)[i - 1]);
            }
        }
    }
}

} // verus!
