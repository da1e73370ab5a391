use vstd::prelude::*;
use vstd::seq_lib::{lemma_flatten_concat, lemma_multiset_commutative, to_multiset_build, to_multiset_contains, to_multiset_len};

use crate::file_size::{classify, FileSize, B, GB, KB, MB, PB_LIMIT, TB};
use crate::folder::{classified, classified_one, reported, EntryFilter, FileMeta};
use crate::scan::{kept, excluded};

verus! {

/// The least byte count of a unit's range.
pub open spec fn unit_floor(u: FileSize) -> nat {
    match u {
        FileSize::B => 0,
        FileSize::KB => B as nat,
        FileSize::MB => KB as nat,
        FileSize::GB => MB as nat,
        FileSize::TB => GB as nat,
        FileSize::PB => TB as nat,
        FileSize::Unbounded => 0,
    }
}

/// The first byte count past a unit's range.
pub open spec fn unit_ceiling(u: FileSize) -> nat {
    match u {
        FileSize::B => B as nat,
        FileSize::KB => KB as nat,
        FileSize::MB => MB as nat,
        FileSize::GB => GB as nat,
        FileSize::TB => TB as nat,
        FileSize::PB => PB_LIMIT as nat,
        FileSize::Unbounded => 0,
    }
}

/// Classification is total below the petabyte ceiling and fails from it on;
/// a byte count gets a unit exactly when it lies in that unit's range, the
/// six ranges meet end to end, and `Unbounded` is never the result.
pub proof fn lemma_classify_partitions(b: nat)
    ensures
        b < PB_LIMIT <==> classify(b) is Some,
        forall|u: FileSize| !(u is Unbounded) ==> (classify(b) == Some(u) <==> unit_floor(u) <= b < unit_ceiling(u)),
        classify(b) != Some(FileSize::Unbounded),
        unit_ceiling(FileSize::B) == unit_floor(FileSize::KB),
        unit_ceiling(FileSize::KB) == unit_floor(FileSize::MB),
        unit_ceiling(FileSize::MB) == unit_floor(FileSize::GB),
        unit_ceiling(FileSize::GB) == unit_floor(FileSize::TB),
        unit_ceiling(FileSize::TB) == unit_floor(FileSize::PB),
{
}

/// Excluding from a concatenation excludes from each part.
pub proof fn lemma_kept_concat(a: Seq<Seq<char>>, b: Seq<Seq<char>>, ex: Seq<char>)
    ensures
        kept(a + b, ex) == kept(a, ex) + kept(b, ex),
    decreases b.len(),
{
    if b.len() == 0 {
        assert(a + b =~= a);
        assert(kept(a, ex) + kept(b, ex) =~= kept(a, ex));
    } else {
        lemma_kept_concat(a, b.drop_last(), ex);
        assert((a + b).drop_last() =~= a + b.drop_last());
        assert((a + b).last() == b.last());
        if !excluded(b.last(), ex) {
            assert(kept(a, ex) + kept(b.drop_last(), ex).push(b.last()) =~= (kept(a, ex) + kept(
                b.drop_last(),
                ex,
            )).push(b.last()));
        }
    }
}

/// The paths that the exclusion keeps of each batch.
pub open spec fn kept_batches(bs: Seq<Seq<Seq<char>>>, ex: Seq<char>) -> Seq<Seq<Seq<char>>> {
    bs.map_values(|b: Seq<Seq<char>>| kept(b, ex))
}

/// Excluding batch by batch keeps what excluding from all of them at once keeps.
pub proof fn lemma_kept_flatten(bs: Seq<Seq<Seq<char>>>, ex: Seq<char>)
    ensures
        kept(bs.flatten(), ex) == kept_batches(bs, ex).flatten(),
    decreases bs.len(),
{
    if bs.len() == 0 {
        assert(kept_batches(bs, ex) =~= seq![]);
    } else {
        let front = bs.drop_last();
        lemma_kept_flatten(front, ex);
        assert(bs =~= front.push(bs.last()));
        front.lemma_flatten_push(bs.last());
        lemma_kept_concat(front.flatten(), bs.last(), ex);
        assert(kept_batches(bs, ex) =~= kept_batches(front, ex).push(kept(bs.last(), ex)));
        kept_batches(front, ex).lemma_flatten_push(kept(bs.last(), ex));
    }
}

proof fn lemma_flatten_reorder(xs: Seq<Seq<Seq<char>>>, ys: Seq<Seq<Seq<char>>>)
    requires
        xs.to_multiset() == ys.to_multiset(),
    ensures
        xs.flatten().to_multiset() == ys.flatten().to_multiset(),
    decreases ys.len(),
{
    broadcast use vstd::multiset::group_multiset_axioms;

    to_multiset_len(xs);
    to_multiset_len(ys);
    if ys.len() == 0 {
        assert(xs =~= seq![]);
        assert(ys =~= seq![]);
    } else {
        let y = ys.last();
        let front = ys.drop_last();
        assert(ys =~= front.push(y));
        to_multiset_build(front, y);
        to_multiset_contains(xs, y);
        let i = choose|i: int| 0 <= i < xs.len() && xs[i] == y;
        let before = xs.take(i);
        let after = xs.skip(i + 1);
        let rest = before + after;
        assert(xs =~= before.push(y) + after);
        assert(rest.to_multiset() == front.to_multiset()) by {
            lemma_multiset_commutative(before.push(y), after);
            lemma_multiset_commutative(before, after);
            to_multiset_build(before, y);
            assert(xs.to_multiset() == before.push(y).to_multiset().add(after.to_multiset()));
            assert(front.to_multiset().insert(y) == rest.to_multiset().insert(y));
            assert forall|v| #[trigger] rest.to_multiset().count(v) == front.to_multiset().count(v) by {
                assert(rest.to_multiset().insert(y).count(v) == front.to_multiset().insert(y).count(v));
            }
            assert(rest.to_multiset() =~= front.to_multiset());
        }
        lemma_flatten_reorder(rest, front);
        lemma_flatten_concat(before.push(y), after);
        lemma_flatten_concat(before, after);
        before.lemma_flatten_push(y);
        front.lemma_flatten_push(y);
        lemma_multiset_commutative(before.flatten() + y, after.flatten());
        lemma_multiset_commutative(before.flatten(), y);
        lemma_multiset_commutative(before.flatten(), after.flatten());
        lemma_multiset_commutative(front.flatten(), y);
        assert(xs.flatten().to_multiset() =~= ys.flatten().to_multiset());
    }
}

/// A fan-out scan loses and adds no path: however the paths are split into
/// batches, and in whatever order the batches come back once each has been
/// through the exclusion, the merged paths are, as a multiset, those that one
/// pass of the exclusion over all the paths keeps.
pub proof fn lemma_fan_out_keeps_paths(
    paths: Seq<Seq<char>>,
    batches: Seq<Seq<Seq<char>>>,
    arrived: Seq<Seq<Seq<char>>>,
    ex: Seq<char>,
)
    requires
        batches.flatten() == paths,
        arrived.to_multiset() == kept_batches(batches, ex).to_multiset(),
    ensures
        arrived.flatten().to_multiset() == kept(paths, ex).to_multiset(),
{
    lemma_kept_flatten(batches, ex);
    lemma_flatten_reorder(arrived, kept_batches(batches, ex));
}

/// Classifying batch after batch gives what classifying their concatenation gives.
pub proof fn lemma_classified_concat(a: Seq<FileMeta>, b: Seq<FileMeta>)
    ensures
        classified(a + b) == classified(a) + classified(b),
    decreases b.len(),
{
    if b.len() == 0 {
        assert(a + b =~= a);
        assert(classified(a) + classified(b) =~= classified(a));
    } else {
        lemma_classified_concat(a, b.drop_last());
        assert((a + b).drop_last() =~= a + b.drop_last());
        assert((a + b).last() == b.last());
        let rest = classified(b.drop_last());
        if let Some(e) = classified_one(b.last()) {
            assert(classified(a) + rest.push(e) =~= (classified(a) + rest).push(e));
        }
    }
}

/// Reporting batch after batch shows what one report of their concatenation
/// shows, and in the same order.
pub proof fn lemma_reported_concat(
    a: Seq<(FileSize, Seq<char>, nat)>,
    b: Seq<(FileSize, Seq<char>, nat)>,
    from: nat,
    with: EntryFilter,
)
    ensures
        reported(a + b, from, with) == reported(a, from, with) + reported(b, from, with),
    decreases b.len(),
{
    if b.len() == 0 {
        assert(a + b =~= a);
        assert(reported(a, from, with) + reported(b, from, with) =~= reported(a, from, with));
    } else {
        lemma_reported_concat(a, b.drop_last(), from, with);
        assert((a + b).drop_last() =~= a + b.drop_last());
        assert((a + b).last() == b.last());
        let ra = reported(a, from, with);
        let rest = reported(b.drop_last(), from, with);
        assert(ra + rest.push(b.last().1) =~= (ra + rest).push(b.last().1));
    }
}

/// The report lines of each batch of files.
pub open spec fn report_batches(
    bs: Seq<Seq<FileMeta>>,
    from: nat,
    with: EntryFilter,
) -> Seq<Seq<Seq<char>>> {
    bs.map_values(|b: Seq<FileMeta>| reported(classified(b), from, with))
}

/// Reporting batch by batch, in order, shows what one report of all files shows.
pub proof fn lemma_report_flatten(bs: Seq<Seq<FileMeta>>, from: nat, with: EntryFilter)
    ensures
        reported(classified(bs.flatten()), from, with) == report_batches(bs, from, with).flatten(),
    decreases bs.len(),
{
    if bs.len() == 0 {
        assert(report_batches(bs, from, with) =~= seq![]);
        assert(bs.flatten() =~= seq![]);
    } else {
        let front = bs.drop_last();
        lemma_report_flatten(front, from, with);
        assert(bs =~= front.push(bs.last()));
        front.lemma_flatten_push(bs.last());
        lemma_classified_concat(front.flatten(), bs.last());
        lemma_reported_concat(classified(front.flatten()), classified(bs.last()), from, with);
        assert(report_batches(bs, from, with) =~= report_batches(front, from, with).push(
            reported(classified(bs.last()), from, with),
        ));
        report_batches(front, from, with).lemma_flatten_push(
            reported(classified(bs.last()), from, with),
        );
    }
}

/// A fan-out report shows the lines of a single report: however the files are
/// split into batches, and in whatever order the workers' report lines come
/// back, they are, as a multiset, the lines of one report of all the files.
pub proof fn lemma_fan_out_reports_same_lines(
    files: Seq<FileMeta>,
    batches: Seq<Seq<FileMeta>>,
    arrived: Seq<Seq<Seq<char>>>,
    from: nat,
    with: EntryFilter,
)
    requires
        batches.flatten() == files,
        arrived.to_multiset() == report_batches(batches, from, with).to_multiset(),
    ensures
        arrived.flatten().to_multiset() == reported(classified(files), from, with).to_multiset(),
{
    lemma_report_flatten(batches, from, with);
    lemma_flatten_reorder(arrived, report_batches(batches, from, with));
}

} // verus!
