use vstd::prelude::*;

use crate::file_size::{same_text, FileSize};
use crate::folder::{entry_views, reported, views, Entry, EntryFilter, Folder};

verus! {

/// `path` falls under the exclusion `ex`: `ex` is not empty and is a textual
/// prefix of `path` (equal paths included). The test is not aware of path
/// components: `/a/b` excludes `/a/bc` too.
pub open spec fn excluded(path: Seq<char>, ex: Seq<char>) -> bool {
    ex.len() > 0 && ex.is_prefix_of(path)
}

/// The paths that the exclusion `ex` keeps, in order.
pub open spec fn kept(paths: Seq<Seq<char>>, ex: Seq<char>) -> Seq<Seq<char>>
    decreases paths.len(),
{
    if paths.len() == 0 {
        seq![]
    } else {
        let rest = kept(paths.drop_last(), ex);
        if excluded(paths.last(), ex) {
            rest
        } else {
            rest.push(paths.last())
        }
    }
}

/// The entry filter for a unit choice: every entry for `Unbounded`, else the
/// entries of that unit.
pub open spec fn filter_for(u: FileSize) -> EntryFilter {
    if u is Unbounded {
        EntryFilter::PassThrough
    } else {
        EntryFilter::SameUnit(u)
    }
}

/// Each worker's share of `n` items among `workers`, rounded up.
pub open spec fn share(n: nat, workers: nat) -> nat {
    if n % workers == 0 {
        n / workers
    } else {
        n / workers + 1
    }
}

/// Where batch `j` of `n` items among `workers` starts.
pub open spec fn batch_start(n: nat, workers: nat, j: nat) -> nat {
    let b = j * share(n, workers);
    if b < n {
        b
    } else {
        n
    }
}

/// Where batch `j` of `n` items among `workers` ends: the last batch takes
/// what is left.
pub open spec fn batch_end(n: nat, workers: nat, j: nat) -> nat {
    if j + 1 == workers {
        n
    } else {
        batch_start(n, workers, j + 1)
    }
}

/// The texts of each batch.
pub open spec fn batch_views(bs: Seq<Vec<String>>) -> Seq<Seq<Seq<char>>> {
    bs.map_values(|b: Vec<String>| views(b@))
}

/// How a crawl is carried out.
#[derive(Clone, Copy, Debug, PartialEq, Eq, Structural)]
pub enum ScanMode {
    /// Immediate children only.
    Shallow,
    /// The whole subtree, in one pass.
    Recursive,
    /// The whole subtree of the filesystem root, split among workers.
    RootFanOut,
}

/// The mode for a crawl of `path`, recursive or not: the fan-out only for a
/// recursive crawl of the filesystem root.
pub open spec fn mode_for(path: Seq<char>, sub_dir: bool) -> ScanMode {
    if !sub_dir {
        ScanMode::Shallow
    } else if path == "/"@ {
        ScanMode::RootFanOut
    } else {
        ScanMode::Recursive
    }
}

/// Workers used where the host's parallelism cannot be told.
pub const FALLBACK_WORKERS: usize = 8;

/// Chooses how to crawl `path`.
pub fn scan_mode(path: &String, sub_dir: bool) -> (r: ScanMode)
    ensures
        r == mode_for(path@, sub_dir),
{
    if !sub_dir {
        ScanMode::Shallow
    } else if same_text(path.as_str(), "/") {
        ScanMode::RootFanOut
    } else {
        ScanMode::Recursive
    }
}

/// The number of workers of a fan-out: the host's parallelism where it is
/// known and positive, else `FALLBACK_WORKERS`.
pub fn worker_count(available: Option<usize>) -> (r: usize)
    ensures
        r > 0,
        r == match available {
            Some(n) => if n > 0 {
                n
            } else {
                FALLBACK_WORKERS
            },
            None => FALLBACK_WORKERS,
        },
{
    match available {
        Some(n) => if n > 0 {
            n
        } else {
            FALLBACK_WORKERS
        },
        None => FALLBACK_WORKERS,
    }
}

/// Whether `prefix` is a textual prefix of `s`.
pub fn starts_with(s: &str, prefix: &str) -> (r: bool)
    ensures
        r == prefix@.is_prefix_of(s@),
{
    let n = prefix.unicode_len();
    if n > s.unicode_len() {
        return false;
    }
    let mut i: usize = 0;
    while i < n
        invariant
            n == prefix@.len(),
            n <= s@.len(),
            i <= n,
            prefix@.subrange(0, i as int) == s@.subrange(0, i as int),
        decreases n - i,
    {
        if prefix.get_char(i) != s.get_char(i) {
            assert(prefix@[i as int] != s@.subrange(0, n as int)[i as int]);
            return false;
        }
        assert(prefix@.subrange(0, i + 1) =~= prefix@.subrange(0, i as int).push(prefix@[i as int]));
        assert(s@.subrange(0, i + 1) =~= s@.subrange(0, i as int).push(s@[i as int]));
        i = i + 1;
    }
    assert(prefix@ =~= prefix@.subrange(0, n as int));
    true
}

/// Removes every path that `exclude` is a textual prefix of; an empty
/// `exclude` removes nothing.
pub fn filter_out(list: Vec<String>, exclude: String) -> (r: Vec<String>)
    ensures
        views(r@) == kept(views(list@), exclude@),
{
    let mut r: Vec<String> = Vec::new();
    let none = exclude.as_str().unicode_len() == 0;
    let mut i: usize = 0;
    while i < list.len()
        invariant
            i <= list@.len(),
            none == (exclude@.len() == 0),
            views(r@) == kept(views(list@.take(i as int)), exclude@),
        decreases list@.len() - i,
    {
        assert(views(list@.take(i + 1)).drop_last() =~= views(list@.take(i as int)));
        let item = &list[i];
        if none || !(starts_with(item.as_str(), exclude.as_str()) || *item == exclude) {
            let ghost before = r@;
            r.push(item.clone());
            assert(views(r@) =~= views(before).push(item@));
        }
        i = i + 1;
    }
    assert(list@.take(list@.len() as int) =~= list@);
    r
}

/// The entry filter for a unit choice.
pub fn unit_filter(data_size: FileSize) -> (r: EntryFilter)
    ensures
        r == filter_for(data_size),
{
    if data_size == FileSize::Unbounded {
        EntryFilter::PassThrough
    } else {
        EntryFilter::SameUnit(data_size)
    }
}

/// Reports `result` through `folder`: the lines of the entries of unit
/// `data_size` (any unit for `Unbounded`) whose magnitude is at least `size`.
pub fn list_items(size: u64, data_size: FileSize, folder: &mut Folder, result: Vec<Entry>) -> (r: Vec<
    String,
>)
    requires
        old(folder).count() + result@.len() <= u64::MAX,
    ensures
        views(r@) == reported(entry_views(result@), size as nat, filter_for(data_size)),
        final(folder).count() == old(folder).count() + r@.len(),
        final(folder).current() == old(folder).current(),
{
    folder.list_folder_items(size, result, unit_filter(data_size))
}

/// Splits `paths` into `workers` batches, in order: each of width
/// `share(n, workers)` until the paths run out, the last taking the rest.
pub fn partition(paths: Vec<String>, workers: usize) -> (r: Vec<Vec<String>>)
    requires
        workers > 0,
    ensures
        r@.len() == workers,
        forall|j: int|
            0 <= j < workers ==> #[trigger] views(r@[j]@) == views(paths@).subrange(
                batch_start(paths@.len(), workers as nat, j as nat) as int,
                batch_end(paths@.len(), workers as nat, j as nat) as int,
            ),
        batch_views(r@).flatten() == views(paths@),
{
    let n = paths.len();
    proof {
        if n % workers != 0 {
            assert(workers != 1);
            assert(n / workers < usize::MAX) by (nonlinear_arith)
                requires
                    workers >= 2,
                    n <= usize::MAX,
            ;
        }
    }
    let w: usize = if n % workers == 0 {
        n / workers
    } else {
        n / workers + 1
    };
    let ghost pv = views(paths@);
    let mut r: Vec<Vec<String>> = Vec::new();
    let mut start: usize = 0;
    let mut j: usize = 0;
    while j < workers
        invariant
            n == paths@.len(),
            pv == views(paths@),
            w == share(n as nat, workers as nat),
            j <= workers,
            r@.len() == j,
            start <= n,
            j < workers ==> start == batch_start(n as nat, workers as nat, j as nat),
            j == workers ==> start == n,
            forall|k: int|
                0 <= k < j ==> #[trigger] views(r@[k]@) == pv.subrange(
                    batch_start(n as nat, workers as nat, k as nat) as int,
                    batch_end(n as nat, workers as nat, k as nat) as int,
                ),
            batch_views(r@).flatten() == pv.take(start as int),
        decreases workers - j,
    {
        let end: usize = if j + 1 == workers {
            n
        } else if n - start <= w {
            n
        } else {
            start + w
        };
        proof {
            assert((j + 1) * w == j * w + w) by (nonlinear_arith);
            assert(j * w >= 0) by (nonlinear_arith)
                requires
                    j >= 0,
                    w >= 0,
            ;
        }
        assert(end == batch_end(n as nat, workers as nat, j as nat));
        let mut chunk: Vec<String> = Vec::new();
        let mut k: usize = start;
        while k < end
            invariant
                start <= k <= end <= n,
                n == paths@.len(),
                pv == views(paths@),
                views(chunk@) == pv.subrange(start as int, k as int),
            decreases end - k,
        {
            let ghost before = chunk@;
            chunk.push(paths[k].clone());
            assert(views(chunk@) =~= views(before).push(paths@[k as int]@));
            assert(pv.subrange(start as int, k + 1) =~= pv.subrange(start as int, k as int).push(
                pv[k as int],
            ));
            k = k + 1;
        }
        let ghost old_r = r@;
        r.push(chunk);
        proof {
            assert(batch_views(r@) =~= batch_views(old_r).push(views(chunk@)));
            batch_views(old_r).lemma_flatten_push(views(chunk@));
            assert(pv.take(start as int) + pv.subrange(start as int, end as int) =~= pv.take(
                end as int,
            ));
            assert forall|q: int| 0 <= q < j + 1 implies #[trigger] views(r@[q]@) == pv.subrange(
                batch_start(n as nat, workers as nat, q as nat) as int,
                batch_end(n as nat, workers as nat, q as nat) as int,
            ) by {
                if q < j {
                    assert(r@[q] == old_r[q]);
                }
            }
        }
        start = end;
        j = j + 1;
    }
    assert(pv.take(n as int) =~= pv);
    r
}

} // verus!
