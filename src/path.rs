//! Paths as the kernel sees them: byte strings, `/` as the separator.
use vstd::prelude::*;

verus! {

/// The path separator.
pub const SLASH: u8 = 47;

/// `s` without the separators it starts with.
pub open spec fn strip_leading_slashes(s: Seq<u8>) -> Seq<u8>
    decreases s.len(),
{
    if s.len() > 0 && s[0] == SLASH {
        strip_leading_slashes(s.drop_first())
    } else {
        s
    }
}

/// Joins `seg` under `acc`, reading a leading `/` of `seg` as relative: the
/// segment never replaces what came before it.
pub open spec fn join_segment(acc: Seq<u8>, seg: Seq<u8>) -> Seq<u8> {
    let rel = strip_leading_slashes(seg);
    if rel.len() == 0 {
        acc
    } else if acc.len() == 0 || acc.last() == SLASH {
        acc + rel
    } else {
        acc.push(SLASH) + rel
    }
}

/// Every segment of `segs` joined under `base`, in order.
pub open spec fn join_all(base: Seq<u8>, segs: Seq<Seq<u8>>) -> Seq<u8>
    decreases segs.len(),
{
    if segs.len() == 0 {
        base
    } else {
        join_segment(join_all(base, segs.drop_last()), segs.last())
    }
}

/// The directory that holds every enclosure root.
pub open spec fn enclosures_dir_name() -> Seq<u8> {
    seq![98u8, 111u8, 120u8, 120u8, 121u8]
}

/// `<runtime_dir>/boxxy/<name>`.
pub open spec fn container_root_of(runtime_dir: Seq<u8>, name: Seq<u8>) -> Seq<u8> {
    join_segment(join_segment(runtime_dir, enclosures_dir_name()), name)
}

/// The runtime directory used when none is configured.
pub open spec fn default_runtime_dir() -> Seq<u8> {
    seq![SLASH, 116u8, 109u8, 112u8]
}

/// `p` is `root` or lies below it, comparing whole components.
pub open spec fn is_under(p: Seq<u8>, root: Seq<u8>) -> bool {
    &&& root.len() <= p.len()
    &&& p.subrange(0, root.len() as int) == root
    &&& (p.len() == root.len() || p[root.len() as int] == SLASH || (root.len() > 0
        && root.last() == SLASH))
}

/// `p`, seen from inside an enclosure rooted at `root`: the part below the
/// root, with one leading `/`.
pub open spec fn relative_to_root(p: Seq<u8>, root: Seq<u8>) -> Seq<u8> {
    seq![SLASH].add(strip_leading_slashes(p.subrange(root.len() as int, p.len() as int)))
}

/// Appends `s` to `out`.
pub fn push_all(out: &mut Vec<u8>, s: &[u8])
    ensures
        final(out)@ == old(out)@ + s@,
{
    let n = s.len();
    let mut i: usize = 0;
    while i < n
        invariant
            n == s@.len(),
            i <= n,
            out@ == old(out)@ + s@.subrange(0, i as int),
        decreases n - i,
    {
        out.push(s[i]);
        i = i + 1;
        assert(out@ =~= old(out)@ + s@.subrange(0, i as int));
    }
    assert(s@.subrange(0, n as int) =~= s@);
}

/// A copy of `p`.
pub fn copy_bytes(p: &[u8]) -> (r: Vec<u8>)
    ensures
        r@ == p@,
{
    let mut r: Vec<u8> = Vec::new();
    push_all(&mut r, p);
    assert(r@ =~= p@);
    r
}

/// The index of the first byte of `s` after its leading separators.
fn leading_slashes(s: &[u8]) -> (k: usize)
    ensures
        k <= s@.len(),
        s@.subrange(k as int, s@.len() as int) == strip_leading_slashes(s@),
{
    let n = s.len();
    let mut i: usize = 0;
    assert(s@.subrange(0, n as int) =~= s@);
    while i < n && s[i] == SLASH
        invariant
            n == s@.len(),
            i <= n,
            strip_leading_slashes(s@.subrange(i as int, n as int)) == strip_leading_slashes(s@),
        decreases n - i,
    {
        assert(s@.subrange(i as int, n as int).drop_first() =~= s@.subrange(i + 1, n as int));
        i = i + 1;
    }
    i
}

/// `s` without the separators it starts with.
pub fn strip_slashes(s: &[u8]) -> (r: Vec<u8>)
    ensures
        r@ == strip_leading_slashes(s@),
{
    let k = leading_slashes(s);
    let n = s.len();
    let mut r: Vec<u8> = Vec::new();
    let mut i: usize = k;
    while i < n
        invariant
            n == s@.len(),
            k <= i <= n,
            r@ == s@.subrange(k as int, i as int),
        decreases n - i,
    {
        r.push(s[i]);
        i = i + 1;
        assert(r@ =~= s@.subrange(k as int, i as int));
    }
    r
}

/// Joins `seg` under `acc` in place (see `join_segment`).
pub fn join_onto(acc: &mut Vec<u8>, seg: &[u8])
    ensures
        final(acc)@ == join_segment(old(acc)@, seg@),
{
    let rel = strip_slashes(seg);
    if rel.len() == 0 {
        return;
    }
    let len = acc.len();
    if len > 0 && acc[len - 1] != SLASH {
        acc.push(SLASH);
    }
    push_all(acc, rel.as_slice());
}

/// Every segment of `segs` joined under `base`, a leading `/` of a segment
/// read as relative.
pub fn append_all(base: &[u8], segs: &Vec<Vec<u8>>) -> (r: Vec<u8>)
    ensures
        r@ == join_all(base@, segs.deep_view()),
{
    let mut r: Vec<u8> = Vec::new();
    push_all(&mut r, base);
    assert(r@ =~= base@);
    let mut i: usize = 0;
    while i < segs.len()
        invariant
            i <= segs@.len(),
            r@ == join_all(base@, segs.deep_view().subrange(0, i as int)),
        decreases segs@.len() - i,
    {
        join_onto(&mut r, segs[i].as_slice());
        proof {
            let d = segs.deep_view();
            assert(d.subrange(0, i + 1).drop_last() =~= d.subrange(0, i as int));
            assert(d[i as int] == segs@[i as int]@);
            assert(d.subrange(0, i + 1).last() == d[i as int]);
        }
        i = i + 1;
    }
    assert(segs.deep_view().subrange(0, i as int) =~= segs.deep_view());
    r
}

/// The name of the directory that holds every enclosure root.
fn enclosures_dir() -> (r: Vec<u8>)
    ensures
        r@ == enclosures_dir_name(),
{
    let r: Vec<u8> = vec![98u8, 111u8, 120u8, 120u8, 121u8];
    assert(r@ =~= enclosures_dir_name());
    r
}

/// The runtime directory: the configured one, else `/tmp`.
pub fn runtime_dir_or_default(configured: Option<Vec<u8>>) -> (r: Vec<u8>)
    ensures
        r@ == match configured {
            Some(d) => d@,
            None => default_runtime_dir(),
        },
{
    match configured {
        Some(d) => d,
        None => {
            let r: Vec<u8> = vec![SLASH, 116u8, 109u8, 112u8];
            assert(r@ =~= default_runtime_dir());
            r
        },
    }
}

/// The root of the enclosure called `name`: `<runtime_dir>/boxxy/<name>`.
pub fn container_root(runtime_dir: &[u8], name: &[u8]) -> (r: Vec<u8>)
    ensures
        r@ == container_root_of(runtime_dir@, name@),
{
    let mut r: Vec<u8> = Vec::new();
    push_all(&mut r, runtime_dir);
    assert(r@ =~= runtime_dir@);
    let dir = enclosures_dir();
    join_onto(&mut r, dir.as_slice());
    join_onto(&mut r, name);
    r
}

/// Whether `p` is `root` or lies below it, comparing whole components.
pub fn path_is_under(p: &[u8], root: &[u8]) -> (b: bool)
    ensures
        b == is_under(p@, root@),
{
    let n = root.len();
    if n > p.len() {
        return false;
    }
    let mut i: usize = 0;
    while i < n
        invariant
            n == root@.len(),
            n <= p@.len(),
            i <= n,
            p@.subrange(0, i as int) == root@.subrange(0, i as int),
        decreases n - i,
    {
        if p[i] != root[i] {
            assert(p@.subrange(0, n as int)[i as int] != root@[i as int]);
            return false;
        }
        i = i + 1;
        assert(p@.subrange(0, i as int) =~= root@.subrange(0, i as int));
    }
    assert(root@.subrange(0, n as int) =~= root@);
    p.len() == n || p[n] == SLASH || (n > 0 && root[n - 1] == SLASH)
}

/// `p` seen from inside the enclosure rooted at `root`.
pub fn path_relative_to_root(p: &[u8], root: &[u8]) -> (r: Vec<u8>)
    requires
        root@.len() <= p@.len(),
    ensures
        r@ == relative_to_root(p@, root@),
{
    let mut tail: Vec<u8> = Vec::new();
    let mut i: usize = root.len();
    while i < p.len()
        invariant
            root@.len() <= i <= p@.len(),
            tail@ == p@.subrange(root@.len() as int, i as int),
        decreases p@.len() - i,
    {
        tail.push(p[i]);
        i = i + 1;
        assert(tail@ =~= p@.subrange(root@.len() as int, i as int));
    }
    let rel = strip_slashes(tail.as_slice());
    let mut r: Vec<u8> = vec![SLASH];
    push_all(&mut r, rel.as_slice());
    assert(r@ =~= relative_to_root(p@, root@));
    r
}

/// Whether two byte strings are equal.
pub fn bytes_equal(a: &[u8], b: &[u8]) -> (r: bool)
    ensures
        r == (a@ == b@),
{
    if a.len() != b.len() {
        return false;
    }
    let mut i: usize = 0;
    while i < a.len()
        invariant
            a@.len() == b@.len(),
            i <= a@.len(),
            a@.subrange(0, i as int) == b@.subrange(0, i as int),
        decreases a@.len() - i,
    {
        if a[i] != b[i] {
            return false;
        }
        i = i + 1;
        assert(a@.subrange(0, i as int) =~= b@.subrange(0, i as int));
    }
    assert(a@ =~= a@.subrange(0, i as int));
    assert(b@ =~= b@.subrange(0, i as int));
    true
}

} // verus!
