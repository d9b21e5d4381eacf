//! The scrape text format: one `name{key="value",...} value` line per sample, and
//! for each histogram series its `_bucket` lines (one per bound, then `+Inf`),
//! `_sum` and `_count`.
use vstd::prelude::*;
use vstd::string::*;

use crate::registry::{HistogramData, HistogramModel, Label, RegistryModel, Series, SeriesId, HISTOGRAM_SCALE};
use crate::text::{digits, escaped, fixed_text, push_digits, push_escaped, push_fixed};

verus! {

pub open spec fn label_text(l: (Seq<char>, Seq<char>)) -> Seq<char> {
    l.0 + seq!['=', '"'] + escaped(l.1) + seq!['"']
}

/// The labels written out and separated by commas.
pub open spec fn joined_labels(ls: Seq<(Seq<char>, Seq<char>)>) -> Seq<char>
    decreases ls.len(),
{
    if ls.len() == 0 {
        Seq::empty()
    } else if ls.len() == 1 {
        label_text(ls[0])
    } else {
        joined_labels(ls.drop_last()) + seq![','] + label_text(ls.last())
    }
}

/// The label part of a sample line: nothing for a series without labels.
pub open spec fn braced_labels(ls: Seq<(Seq<char>, Seq<char>)>) -> Seq<char> {
    if ls.len() == 0 {
        Seq::empty()
    } else {
        seq!['{'] + joined_labels(ls) + seq!['}']
    }
}

pub open spec fn sample_line(name: Seq<char>, ls: Seq<(Seq<char>, Seq<char>)>, value: Seq<char>) -> Seq<char> {
    name + braced_labels(ls) + seq![' '] + value + seq!['\n']
}

pub open spec fn bucket_suffix() -> Seq<char> {
    seq!['_', 'b', 'u', 'c', 'k', 'e', 't']
}

pub open spec fn sum_suffix() -> Seq<char> {
    seq!['_', 's', 'u', 'm']
}

pub open spec fn count_suffix() -> Seq<char> {
    seq!['_', 'c', 'o', 'u', 'n', 't']
}

pub open spec fn infinity() -> Seq<char> {
    seq!['+', 'I', 'n', 'f']
}

/// A `_bucket` line: the series labels followed by `le`, the bucket's upper bound.
pub open spec fn bucket_line(
    name: Seq<char>,
    ls: Seq<(Seq<char>, Seq<char>)>,
    le: Seq<char>,
    value: Seq<char>,
) -> Seq<char> {
    name + bucket_suffix() + seq!['{'] + (if ls.len() == 0 {
        Seq::empty()
    } else {
        joined_labels(ls) + seq![',']
    }) + seq!['l', 'e', '=', '"'] + le + seq!['"', '}', ' '] + value + seq!['\n']
}

/// The first `n` bucket lines of a histogram series.
pub open spec fn buckets_text(id: SeriesId, h: HistogramModel, bounds: Seq<u64>, n: nat) -> Seq<char>
    decreases n,
{
    if n == 0 {
        Seq::empty()
    } else {
        buckets_text(id, h, bounds, (n - 1) as nat) + bucket_line(
            id.name,
            id.labels,
            fixed_text(bounds[n - 1] as nat, HISTOGRAM_SCALE as nat),
            digits(h.buckets[n - 1] as nat),
        )
    }
}

pub open spec fn histogram_text(id: SeriesId, h: HistogramModel, bounds: Seq<u64>) -> Seq<char> {
    buckets_text(id, h, bounds, bounds.len())
        + bucket_line(id.name, id.labels, infinity(), digits(h.count as nat))
        + sample_line(id.name + sum_suffix(), id.labels, fixed_text(h.sum as nat, HISTOGRAM_SCALE as nat))
        + sample_line(id.name + count_suffix(), id.labels, digits(h.count as nat))
}

pub open spec fn counters_text(m: RegistryModel, n: nat) -> Seq<char>
    decreases n,
{
    if n == 0 {
        Seq::empty()
    } else {
        counters_text(m, (n - 1) as nat) + sample_line(
            m.counter_ids[n - 1].name,
            m.counter_ids[n - 1].labels,
            digits(m.counter_values[n - 1] as nat),
        )
    }
}

pub open spec fn histograms_text(m: RegistryModel, n: nat) -> Seq<char>
    decreases n,
{
    if n == 0 {
        Seq::empty()
    } else {
        histograms_text(m, (n - 1) as nat) + histogram_text(
            m.histogram_ids[n - 1],
            m.histograms[n - 1],
            m.bounds_of(m.histogram_ids[n - 1].name),
        )
    }
}

pub open spec fn gauges_text(m: RegistryModel, n: nat) -> Seq<char>
    decreases n,
{
    if n == 0 {
        Seq::empty()
    } else {
        gauges_text(m, (n - 1) as nat) + sample_line(
            m.gauge_ids[n - 1].name,
            m.gauge_ids[n - 1].labels,
            fixed_text(m.gauge_values[n - 1].units as nat, m.gauge_values[n - 1].scale as nat),
        )
    }
}

/// The whole text of a registry: counters, then histograms, then gauges, each in
/// the order in which its series first appeared.
pub open spec fn exposition(m: RegistryModel) -> Seq<char> {
    counters_text(m, m.counter_ids.len()) + histograms_text(m, m.histogram_ids.len())
        + gauges_text(m, m.gauge_ids.len())
}

fn push_label(out: &mut String, l: &Label)
    ensures
        final(out)@ == old(out)@ + label_text(l@),
{
    proof {
        reveal_strlit("=\"");
        reveal_strlit("\"");
    }
    out.append(l.key.as_str());
    out.append("=\"");
    push_escaped(out, &l.value);
    out.append("\"");
    proof {
        assert(final(out)@ =~= old(out)@ + label_text(l@));
    }
}

fn push_joined_labels(out: &mut String, labels: &Vec<Label>)
    ensures
        final(out)@ == old(out)@ + joined_labels(labels@.map_values(|l: Label| l@)),
{
    let ghost start = out@;
    let ghost lv = labels@.map_values(|l: Label| l@);
    let mut i: usize = 0;
    while i < labels.len()
        invariant
            i <= labels.len(),
            lv == labels@.map_values(|l: Label| l@),
            out@ == start + joined_labels(lv.take(i as int)),
        decreases labels.len() - i,
    {
        proof {
            reveal_strlit(",");
        }
        if i > 0 {
            out.append(",");
        }
        push_label(out, &labels[i]);
        proof {
            let t = lv.take(i + 1);
            assert(t.drop_last() =~= lv.take(i as int));
            assert(t.last() == labels@[i as int]@);
            assert(out@ =~= start + joined_labels(t));
        }
        i = i + 1;
    }
    proof {
        assert(lv.take(labels.len() as int) =~= lv);
    }
}

/// Appends `name`, `suffix`, the braced labels and a space.
fn push_head(out: &mut String, name: &String, suffix: &str, labels: &Vec<Label>)
    ensures
        final(out)@ == old(out)@ + name@ + suffix@ + braced_labels(labels@.map_values(|l: Label| l@)),
{
    proof {
        reveal_strlit("{");
        reveal_strlit("}");
    }
    out.append(name.as_str());
    out.append(suffix);
    if labels.len() > 0 {
        out.append("{");
        push_joined_labels(out, labels);
        out.append("}");
    }
    proof {
        assert(final(out)@ =~= old(out)@ + name@ + suffix@ + braced_labels(labels@.map_values(|l: Label| l@)));
    }
}

/// Appends a sample line whose value is an integer.
pub fn push_integer_sample(out: &mut String, name: &String, suffix: &str, labels: &Vec<Label>, v: u64)
    ensures
        final(out)@ == old(out)@ + sample_line(
            name@ + suffix@,
            labels@.map_values(|l: Label| l@),
            digits(v as nat),
        ),
{
    proof {
        reveal_strlit(" ");
        reveal_strlit("\n");
    }
    push_head(out, name, suffix, labels);
    out.append(" ");
    push_digits(out, v);
    out.append("\n");
    proof {
        assert(final(out)@ =~= old(out)@ + sample_line(
            name@ + suffix@,
            labels@.map_values(|l: Label| l@),
            digits(v as nat),
        ));
    }
}

/// Appends a sample line whose value is `units / 10^scale`.
pub fn push_fixed_sample(
    out: &mut String,
    name: &String,
    suffix: &str,
    labels: &Vec<Label>,
    units: u64,
    scale: u32,
)
    requires
        scale <= crate::text::MAX_SCALE,
    ensures
        final(out)@ == old(out)@ + sample_line(
            name@ + suffix@,
            labels@.map_values(|l: Label| l@),
            fixed_text(units as nat, scale as nat),
        ),
{
    proof {
        reveal_strlit(" ");
        reveal_strlit("\n");
    }
    push_head(out, name, suffix, labels);
    out.append(" ");
    push_fixed(out, units, scale);
    out.append("\n");
    proof {
        assert(final(out)@ =~= old(out)@ + sample_line(
            name@ + suffix@,
            labels@.map_values(|l: Label| l@),
            fixed_text(units as nat, scale as nat),
        ));
    }
}

/// Appends a `_bucket` line; `bound` is `None` for the `+Inf` bucket.
fn push_bucket(out: &mut String, s: &Series, bound: Option<u64>, v: u64)
    ensures
        final(out)@ == old(out)@ + bucket_line(
            s@.name,
            s@.labels,
            match bound {
                Some(b) => fixed_text(b as nat, HISTOGRAM_SCALE as nat),
                None => infinity(),
            },
            digits(v as nat),
        ),
{
    proof {
        reveal_strlit("_bucket{");
        reveal_strlit(",");
        reveal_strlit("le=\"");
        reveal_strlit("+Inf");
        reveal_strlit("\"} ");
        reveal_strlit("\n");
    }
    out.append(s.name.as_str());
    out.append("_bucket{");
    if s.labels.len() > 0 {
        push_joined_labels(out, &s.labels);
        out.append(",");
    }
    out.append("le=\"");
    match bound {
        Some(b) => push_fixed(out, b, HISTOGRAM_SCALE),
        None => out.append("+Inf"),
    }
    out.append("\"} ");
    push_digits(out, v);
    out.append("\n");
    proof {
        let le = match bound {
            Some(b) => fixed_text(b as nat, HISTOGRAM_SCALE as nat),
            None => infinity(),
        };
        assert(bucket_suffix() + seq!['{'] =~= "_bucket{"@);
        assert(final(out)@ =~= old(out)@ + bucket_line(s@.name, s@.labels, le, digits(v as nat)));
    }
}

/// Appends every line of one histogram series.
pub fn push_histogram(out: &mut String, s: &Series, h: &HistogramData, bounds: &Vec<u64>)
    requires
        h.buckets.len() == bounds.len(),
    ensures
        final(out)@ == old(out)@ + histogram_text(s@, h@, bounds@),
{
    let ghost start = out@;
    let mut j: usize = 0;
    while j < bounds.len()
        invariant
            j <= bounds.len() == h.buckets.len(),
            out@ == start + buckets_text(s@, h@, bounds@, j as nat),
        decreases bounds.len() - j,
    {
        push_bucket(out, s, Some(bounds[j]), h.buckets[j]);
        j = j + 1;
        proof {
            assert(out@ =~= start + buckets_text(s@, h@, bounds@, j as nat));
        }
    }
    push_bucket(out, s, None, h.count);
    proof {
        reveal_strlit("_sum");
        reveal_strlit("_count");
    }
    push_fixed_sample(out, &s.name, "_sum", &s.labels, h.sum, HISTOGRAM_SCALE);
    push_integer_sample(out, &s.name, "_count", &s.labels, h.count);
    proof {
        assert("_sum"@ =~= sum_suffix());
        assert("_count"@ =~= count_suffix());
        assert(out@ =~= start + histogram_text(s@, h@, bounds@));
    }
}

} // verus!
