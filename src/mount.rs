//! Mount paths compared by their components, as path equality does: repeated
//! separators, a trailing separator and `.` pieces past the first are ignored.
use vstd::prelude::*;
use vstd::string::*;

verus! {

/// The pieces of `p` between separators, empty ones included (`"/a//b"` gives
/// `"", "a", "", "b"`).
pub open spec fn split_pieces(p: Seq<char>) -> Seq<Seq<char>>
    decreases p.len(),
{
    if p.len() == 0 {
        seq![Seq::empty()]
    } else {
        let s = split_pieces(p.drop_last());
        if p.last() == '/' {
            s.push(Seq::empty())
        } else {
            s.update(s.len() - 1, s.last().push(p.last()))
        }
    }
}

/// Whether the piece at index `i` is a component: empty pieces never are, and `.`
/// only as the first piece of a relative path.
pub open spec fn kept_piece(piece: Seq<char>, i: int) -> bool {
    piece.len() > 0 && !(i > 0 && piece == seq!['.'])
}

pub open spec fn kept_pieces(s: Seq<Seq<char>>) -> Seq<Seq<char>>
    decreases s.len(),
{
    if s.len() == 0 {
        Seq::empty()
    } else {
        kept_pieces(s.drop_last()) + if kept_piece(s.last(), s.len() - 1) {
            seq![s.last()]
        } else {
            Seq::empty()
        }
    }
}

/// The components of a path: whether it starts at the root, and its named pieces.
pub open spec fn components(p: Seq<char>) -> (bool, Seq<Seq<char>>) {
    (p.len() > 0 && p[0] == '/', kept_pieces(split_pieces(p)))
}

/// Two mount paths name the same mount point when their components are equal
/// (`/data//x`, `/data/./x/` and `/data/x` are one path).
pub open spec fn same_mount_point(a: Seq<char>, b: Seq<char>) -> bool {
    components(a) == components(b)
}

pub open spec fn ranges_text(p: Seq<char>, r: Seq<(usize, usize)>) -> Seq<Seq<char>> {
    r.map_values(|x: (usize, usize)| p.subrange(x.0 as int, x.1 as int))
}

/// Whether the piece `p[start..end]`, the `index`-th of `p`, is a component.
fn piece_kept(p: &String, start: usize, end: usize, index: usize) -> (r: bool)
    requires
        start <= end <= p@.len(),
    ensures
        r == kept_piece(p@.subrange(start as int, end as int), index as int),
{
    let ghost piece = p@.subrange(start as int, end as int);
    if end == start {
        return false;
    }
    if index > 0 && end == start + 1 {
        let c = p.as_str().get_char(start);
        proof {
            assert(piece =~= seq![c]);
            if c != '.' {
                assert(piece[0] != seq!['.'][0]);
            }
        }
        return c != '.';
    }
    proof {
        if index > 0 {
            assert(piece.len() != seq!['.'].len());
        }
    }
    true
}

/// Where in `p` its components lie, as (start, end) character ranges.
fn component_ranges(p: &String) -> (r: Vec<(usize, usize)>)
    ensures
        forall|k: int| 0 <= k < r@.len() ==> (#[trigger] r@[k]).0 <= r@[k].1 <= p@.len(),
        ranges_text(p@, r@) == kept_pieces(split_pieces(p@)),
{
    let n = p.as_str().unicode_len();
    let mut out: Vec<(usize, usize)> = Vec::new();
    let mut start: usize = 0;
    let mut count: usize = 0;
    let mut i: usize = 0;
    let ghost mut done: Seq<Seq<char>> = Seq::empty();
    proof {
        assert(p@.take(0) =~= Seq::<char>::empty());
        assert(p@.subrange(0, 0) =~= Seq::<char>::empty());
        assert(split_pieces(p@.take(0)) =~= done.push(p@.subrange(0, 0)));
        assert(ranges_text(p@, out@) =~= kept_pieces(done));
    }
    while i < n
        invariant
            n == p@.len(),
            start <= i <= n,
            count == done.len(),
            count <= i,
            split_pieces(p@.take(i as int)) == done.push(p@.subrange(start as int, i as int)),
            ranges_text(p@, out@) == kept_pieces(done),
            forall|k: int| 0 <= k < out@.len() ==> (#[trigger] out@[k]).0 <= out@[k].1 <= n,
        decreases n - i,
    {
        let c = p.as_str().get_char(i);
        let ghost piece = p@.subrange(start as int, i as int);
        proof {
            assert(p@.take(i + 1).drop_last() =~= p@.take(i as int));
            assert(p@.take(i + 1).last() == c);
        }
        if c == '/' {
            let kept = piece_kept(p, start, i, count);
            if kept {
                out.push((start, i));
            }
            proof {
                let d2 = done.push(piece);
                assert(d2.drop_last() =~= done);
                assert(ranges_text(p@, out@) =~= kept_pieces(d2));
                done = d2;
                assert(p@.subrange(i + 1, i + 1) =~= Seq::<char>::empty());
            }
            count = count + 1;
            start = i + 1;
        } else {
            proof {
                assert(piece.push(c) =~= p@.subrange(start as int, i + 1));
                assert(done.push(piece).update(done.len() as int, piece.push(c)) =~= done.push(
                    p@.subrange(start as int, i + 1),
                ));
            }
        }
        i = i + 1;
    }
    let ghost piece = p@.subrange(start as int, n as int);
    let kept = piece_kept(p, start, n, count);
    if kept {
        out.push((start, n));
    }
    proof {
        assert(p@.take(n as int) =~= p@);
        let d2 = done.push(piece);
        assert(d2.drop_last() =~= done);
        assert(ranges_text(p@, out@) =~= kept_pieces(d2));
    }
    out
}

fn same_text(a: &String, ra: (usize, usize), b: &String, rb: (usize, usize)) -> (r: bool)
    requires
        ra.0 <= ra.1 <= a@.len(),
        rb.0 <= rb.1 <= b@.len(),
    ensures
        r == (a@.subrange(ra.0 as int, ra.1 as int) == b@.subrange(rb.0 as int, rb.1 as int)),
{
    let ghost sa = a@.subrange(ra.0 as int, ra.1 as int);
    let ghost sb = b@.subrange(rb.0 as int, rb.1 as int);
    if ra.1 - ra.0 != rb.1 - rb.0 {
        assert(sa.len() != sb.len());
        return false;
    }
    let len = ra.1 - ra.0;
    let mut k: usize = 0;
    while k < len
        invariant
            len == ra.1 - ra.0 == rb.1 - rb.0,
            ra.0 <= ra.1 <= a@.len(),
            rb.0 <= rb.1 <= b@.len(),
            sa == a@.subrange(ra.0 as int, ra.1 as int),
            sb == b@.subrange(rb.0 as int, rb.1 as int),
            k <= len,
            forall|j: int| 0 <= j < k ==> sa[j] == sb[j],
        decreases len - k,
    {
        if a.as_str().get_char(ra.0 + k) != b.as_str().get_char(rb.0 + k) {
            assert(sa[k as int] != sb[k as int]);
            return false;
        }
        k = k + 1;
    }
    assert(sa =~= sb);
    true
}

/// Whether `a` and `b` name the same mount point.
pub fn mount_point_matches(a: &String, b: &String) -> (r: bool)
    ensures
        r == same_mount_point(a@, b@),
{
    let root_a = a.as_str().unicode_len() > 0 && a.as_str().get_char(0) == '/';
    let root_b = b.as_str().unicode_len() > 0 && b.as_str().get_char(0) == '/';
    if root_a != root_b {
        assert(components(a@).0 != components(b@).0);
        return false;
    }
    let ra = component_ranges(a);
    let rb = component_ranges(b);
    let ghost ca = ranges_text(a@, ra@);
    let ghost cb = ranges_text(b@, rb@);
    if ra.len() != rb.len() {
        assert(ca.len() != cb.len());
        return false;
    }
    let mut k: usize = 0;
    while k < ra.len()
        invariant
            ra.len() == rb.len(),
            ca == ranges_text(a@, ra@),
            cb == ranges_text(b@, rb@),
            ca == kept_pieces(split_pieces(a@)),
            cb == kept_pieces(split_pieces(b@)),
            forall|j: int| 0 <= j < ra@.len() ==> (#[trigger] ra@[j]).0 <= ra@[j].1 <= a@.len(),
            forall|j: int| 0 <= j < rb@.len() ==> (#[trigger] rb@[j]).0 <= rb@[j].1 <= b@.len(),
            k <= ra.len(),
            forall|j: int| 0 <= j < k ==> ca[j] == cb[j],
        decreases ra.len() - k,
    {
        if !same_text(a, ra[k], b, rb[k]) {
            assert(ca[k as int] != cb[k as int]);
            return false;
        }
        k = k + 1;
    }
    assert(ca =~= cb);
    true
}

} // verus!
