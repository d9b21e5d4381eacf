//! Label sets in canonical form: sorted by key, so that the order in which a caller
//! lists labels does not change which series they name.
use vstd::prelude::*;
use vstd::string::*;

use crate::registry::{Label, Series, SeriesId};

verus! {

/// Lexicographic order of label keys, character by character.
pub open spec fn key_lt(a: Seq<char>, b: Seq<char>) -> bool
    decreases a.len(),
{
    if a.len() == 0 {
        b.len() > 0
    } else if b.len() == 0 {
        false
    } else if a[0] != b[0] {
        (a[0] as u32) < (b[0] as u32)
    } else {
        key_lt(a.drop_first(), b.drop_first())
    }
}

/// `x` placed into `sorted` after every label whose key is not above its own.
pub open spec fn insert_label(sorted: Seq<(Seq<char>, Seq<char>)>, x: (Seq<char>, Seq<char>)) -> Seq<(Seq<char>, Seq<char>)>
    decreases sorted.len(),
{
    if sorted.len() == 0 {
        seq![x]
    } else if key_lt(x.0, sorted.last().0) {
        insert_label(sorted.drop_last(), x).push(sorted.last())
    } else {
        sorted.push(x)
    }
}

/// The labels sorted by key; labels with equal keys keep their order.
pub open spec fn sort_labels(ls: Seq<(Seq<char>, Seq<char>)>) -> Seq<(Seq<char>, Seq<char>)>
    decreases ls.len(),
{
    if ls.len() == 0 {
        Seq::empty()
    } else {
        insert_label(sort_labels(ls.drop_last()), ls.last())
    }
}

/// The series a name and label list stand for: the labels taken in key order.
pub open spec fn canonical(id: SeriesId) -> SeriesId {
    SeriesId { name: id.name, labels: sort_labels(id.labels) }
}

fn key_less(a: &String, b: &String) -> (r: bool)
    ensures
        r == key_lt(a@, b@),
{
    let la = a.as_str().unicode_len();
    let lb = b.as_str().unicode_len();
    let mut i: usize = 0;
    proof {
        assert(a@.skip(0) =~= a@);
        assert(b@.skip(0) =~= b@);
    }
    while i < la && i < lb
        invariant
            la == a@.len(),
            lb == b@.len(),
            i <= la,
            i <= lb,
            key_lt(a@, b@) == key_lt(a@.skip(i as int), b@.skip(i as int)),
        decreases la - i,
    {
        let c = a.as_str().get_char(i);
        let d = b.as_str().get_char(i);
        assert(a@.skip(i as int)[0] == c);
        assert(b@.skip(i as int)[0] == d);
        if c != d {
            return (c as u32) < (d as u32);
        }
        proof {
            assert(a@.skip(i as int).drop_first() =~= a@.skip(i + 1));
            assert(b@.skip(i as int).drop_first() =~= b@.skip(i + 1));
        }
        i = i + 1;
    }
    i == la && i < lb
}

fn copy_label(l: &Label) -> (r: Label)
    ensures
        r@ == l@,
{
    Label { key: l.key.clone(), value: l.value.clone() }
}

/// Puts `x` into `sorted` where `insert_label` places it.
fn insert_sorted(sorted: &mut Vec<Label>, x: Label)
    ensures
        final(sorted)@.map_values(|l: Label| l@) == insert_label(old(sorted)@.map_values(|l: Label| l@), x@),
{
    let ghost s = old(sorted)@.map_values(|l: Label| l@);
    let mut j: usize = sorted.len();
    proof {
        assert(s.take(j as int) =~= s);
        assert(s.skip(j as int) =~= Seq::<(Seq<char>, Seq<char>)>::empty());
        assert(insert_label(s, x@) =~= insert_label(s.take(j as int), x@) + s.skip(j as int));
    }
    while j > 0
        invariant_except_break
            j <= sorted.len(),
            s == sorted@.map_values(|l: Label| l@),
            insert_label(s, x@) == insert_label(s.take(j as int), x@) + s.skip(j as int),
        ensures
            j <= sorted.len(),
            s == sorted@.map_values(|l: Label| l@),
            insert_label(s, x@) == insert_label(s.take(j as int), x@) + s.skip(j as int),
            j == 0 || !key_lt(x@.0, s[j - 1].0),
        decreases j,
    {
        if !key_less(&x.key, &sorted[j - 1].key) {
            break;
        }
        proof {
            let t = s.take(j as int);
            assert(t.drop_last() =~= s.take(j - 1));
            assert(t.last() == s[j - 1]);
            assert(insert_label(t, x@) == insert_label(s.take(j - 1), x@).push(s[j - 1]));
            assert(insert_label(s.take(j - 1), x@).push(s[j - 1]) + s.skip(j as int)
                =~= insert_label(s.take(j - 1), x@) + s.skip(j - 1));
        }
        j = j - 1;
    }
    proof {
        let t = s.take(j as int);
        if j > 0 {
            assert(t.last() == s[j - 1]);
            assert(insert_label(t, x@) == t.push(x@));
        } else {
            assert(insert_label(t, x@) == seq![x@]);
        }
    }
    let ghost xv = x@;
    sorted.insert(j, x);
    proof {
        assert(sorted@.map_values(|l: Label| l@) =~= s.take(j as int).push(xv) + s.skip(j as int));
    }
}

/// A copy of `s` with its labels in key order.
pub fn canonical_series(s: &Series) -> (r: Series)
    ensures
        r@ == canonical(s@),
{
    let ghost ls = s@.labels;
    let mut sorted: Vec<Label> = Vec::new();
    let mut i: usize = 0;
    while i < s.labels.len()
        invariant
            i <= s.labels.len(),
            ls == s.labels@.map_values(|l: Label| l@),
            sorted@.map_values(|l: Label| l@) == sort_labels(ls.take(i as int)),
        decreases s.labels.len() - i,
    {
        proof {
            assert(ls.take(i + 1).drop_last() =~= ls.take(i as int));
            assert(ls.take(i + 1).last() == ls[i as int]);
        }
        insert_sorted(&mut sorted, copy_label(&s.labels[i]));
        i = i + 1;
    }
    proof {
        assert(ls.take(s.labels.len() as int) =~= ls);
    }
    Series { name: s.name.clone(), labels: sorted }
}

} // verus!
