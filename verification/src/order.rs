//! The order of paths: component by component.
use std::path::PathBuf;
use vstd::prelude::*;

verus! {

/// The components of a path, from the first to the last, each as bytes that
/// compare as the component does in the standard library's order.
pub uninterp spec fn path_parts(path: PathBuf) -> Seq<Seq<u8>>;

/// Whether `a` comes before `b` in the order of words: where they first differ,
/// or where `b` goes on after the end of `a`.
pub open spec fn bytes_lt(a: Seq<u8>, b: Seq<u8>) -> bool
    decreases a.len(),
{
    if a.len() == 0 || b.len() == 0 {
        a.len() < b.len()
    } else if a[0] == b[0] {
        bytes_lt(a.drop_first(), b.drop_first())
    } else {
        a[0] < b[0]
    }
}

/// Whether `a` comes before `b` component by component: by the first component
/// in which they differ, or because `b` goes on after the end of `a`.
pub open spec fn parts_lt(a: Seq<Seq<u8>>, b: Seq<Seq<u8>>) -> bool
    decreases a.len(),
{
    if a.len() == 0 || b.len() == 0 {
        a.len() < b.len()
    } else if a[0] == b[0] {
        parts_lt(a.drop_first(), b.drop_first())
    } else {
        bytes_lt(a[0], b[0])
    }
}

/// Whether `a` comes before `b` component by component, or is the same.
pub open spec fn parts_le(a: Seq<Seq<u8>>, b: Seq<Seq<u8>>) -> bool {
    parts_lt(a, b) || a == b
}

/// Whether `a` comes before `b` in the order of paths.
pub open spec fn path_lt(a: PathBuf, b: PathBuf) -> bool {
    parts_lt(path_parts(a), path_parts(b))
}

/// Whether `a` does not come after `b` in the order of paths.
pub open spec fn path_le(a: PathBuf, b: PathBuf) -> bool {
    parts_le(path_parts(a), path_parts(b))
}

/// Of two words, one comes first or they are the same, and never both.
proof fn lemma_bytes_trichotomy(a: Seq<u8>, b: Seq<u8>)
    ensures
        a == b ==> !bytes_lt(a, b),
        a != b ==> bytes_lt(a, b) != bytes_lt(b, a),
    decreases a.len(),
{
    if a.len() > 0 && b.len() > 0 {
        lemma_bytes_trichotomy(a.drop_first(), b.drop_first());
        if a[0] == b[0] && a.drop_first() == b.drop_first() {
            assert(seq![a[0]] + a.drop_first() =~= a);
            assert(seq![b[0]] + b.drop_first() =~= b);
        }
    } else if a.len() == b.len() {
        assert(a =~= b);
    }
}

/// The order of words is transitive.
proof fn lemma_bytes_transitive(a: Seq<u8>, b: Seq<u8>, c: Seq<u8>)
    requires
        bytes_lt(a, b),
        bytes_lt(b, c),
    ensures
        bytes_lt(a, c),
    decreases a.len(),
{
    if a.len() > 0 && b.len() > 0 && c.len() > 0 && a[0] == b[0] && b[0] == c[0] {
        lemma_bytes_transitive(a.drop_first(), b.drop_first(), c.drop_first());
    }
}

/// Of two component sequences, one comes first or they are the same, and never
/// both.
proof fn lemma_parts_trichotomy(a: Seq<Seq<u8>>, b: Seq<Seq<u8>>)
    ensures
        a == b ==> !parts_lt(a, b),
        a != b ==> parts_lt(a, b) != parts_lt(b, a),
    decreases a.len(),
{
    if a.len() > 0 && b.len() > 0 {
        lemma_bytes_trichotomy(a[0], b[0]);
        lemma_parts_trichotomy(a.drop_first(), b.drop_first());
        if a[0] == b[0] && a.drop_first() == b.drop_first() {
            assert(seq![a[0]] + a.drop_first() =~= a);
            assert(seq![b[0]] + b.drop_first() =~= b);
        }
    } else if a.len() == b.len() {
        assert(a =~= b);
    }
}

/// The order of component sequences is transitive.
proof fn lemma_parts_transitive(a: Seq<Seq<u8>>, b: Seq<Seq<u8>>, c: Seq<Seq<u8>>)
    requires
        parts_lt(a, b),
        parts_lt(b, c),
    ensures
        parts_lt(a, c),
    decreases a.len(),
{
    if a.len() > 0 && b.len() > 0 && c.len() > 0 {
        if a[0] == b[0] && b[0] == c[0] {
            lemma_parts_transitive(a.drop_first(), b.drop_first(), c.drop_first());
        } else if a[0] != b[0] && b[0] != c[0] {
            lemma_bytes_transitive(a[0], b[0], c[0]);
            lemma_bytes_trichotomy(a[0], c[0]);
        }
    }
}

/// The order of paths is total and transitive, and paths that come neither
/// before nor after one another have the same components.
pub proof fn lemma_path_order(a: PathBuf, b: PathBuf, c: PathBuf)
    ensures
        path_le(a, b) || path_le(b, a),
        path_le(a, b) && path_le(b, a) ==> path_parts(a) == path_parts(b),
        path_le(a, b) && path_le(b, c) ==> path_le(a, c),
        path_lt(a, b) ==> a != b && !path_le(b, a),
{
    lemma_parts_trichotomy(path_parts(a), path_parts(b));
    lemma_parts_trichotomy(path_parts(b), path_parts(a));
    if path_lt(a, b) && path_lt(b, c) {
        lemma_parts_transitive(path_parts(a), path_parts(b), path_parts(c));
    }
}

/// Components that both begin with do not matter to the order of two sequences.
proof fn lemma_common_prefix(prefix: Seq<Seq<u8>>, a: Seq<Seq<u8>>, b: Seq<Seq<u8>>)
    ensures
        parts_lt(prefix + a, prefix + b) == parts_lt(a, b),
    decreases prefix.len(),
{
    if prefix.len() == 0 {
        assert(prefix + a =~= a && prefix + b =~= b);
    } else {
        let rest = prefix.drop_first();
        assert((prefix + a).drop_first() =~= rest + a);
        assert((prefix + b).drop_first() =~= rest + b);
        lemma_common_prefix(rest, a, b);
    }
}

/// What stands below two different paths of one directory is ordered as those
/// paths are.
pub proof fn lemma_below_ordered(dir: Seq<Seq<u8>>, x: Seq<u8>, y: Seq<u8>, a: Seq<Seq<u8>>, b: Seq<
    Seq<u8>,
>)
    requires
        x != y,
        dir.push(x).is_prefix_of(a),
        dir.push(y).is_prefix_of(b),
        parts_lt(dir.push(x), dir.push(y)),
    ensures
        parts_lt(a, b),
{
    let n = dir.len() as int;
    assert(dir + seq![x] =~= dir.push(x));
    assert(dir + seq![y] =~= dir.push(y));
    lemma_common_prefix(dir, seq![x], seq![y]);
    assert(dir.push(x)[n] == x && dir.push(y)[n] == y);
    assert(a.len() > n && b.len() > n);
    assert(a[n] == x) by {
        assert(a.subrange(0, n + 1)[n] == a[n]);
    }
    assert(b[n] == y) by {
        assert(b.subrange(0, n + 1)[n] == b[n]);
    }
    assert(a.take(n) =~= dir) by {
        assert forall|i: int| 0 <= i < n implies a[i] == dir[i] by {
            assert(dir.push(x)[i] == a.subrange(0, n + 1)[i]);
        }
    }
    assert(b.take(n) =~= dir) by {
        assert forall|i: int| 0 <= i < n implies b[i] == dir[i] by {
            assert(dir.push(y)[i] == b.subrange(0, n + 1)[i]);
        }
    }
    assert(dir + a.skip(n) =~= a);
    assert(dir + b.skip(n) =~= b);
    lemma_common_prefix(dir, a.skip(n), b.skip(n));
    assert(a.skip(n)[0] == x && b.skip(n)[0] == y);
}

} // verus!
