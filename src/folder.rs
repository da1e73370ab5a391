use vstd::prelude::*;

use crate::decimal::{decimal_text, render_decimal};
use crate::errors::FileError;
use crate::file_size::{classify, divisor, unit_label, FileSize};

verus! {

/// What was observed of a path on disk, as the input of path validation.
#[derive(Clone, Copy, Debug)]
pub struct PathProbe {
    /// The path is a directory.
    pub is_dir: bool,
    /// The path is a regular file.
    pub is_file: bool,
    /// Whether the path exists; `None` where that could not be told.
    pub exists: Option<bool>,
    /// The path can be opened for listing.
    pub listable: bool,
}

/// The size and mode read from a file's metadata, with its path.
#[derive(Clone, Debug)]
pub struct FileMeta {
    pub path: String,
    pub len: u64,
    pub mode: u32,
}

/// A classified file: its unit, its report line and its magnitude in that unit.
pub type Entry = (FileSize, String, u64);

/// An entry as plain values.
pub open spec fn entry_view(e: Entry) -> (FileSize, Seq<char>, nat) {
    (e.0, e.1@, e.2 as nat)
}

/// The entries of a vector as plain values.
pub open spec fn entry_views(v: Seq<Entry>) -> Seq<(FileSize, Seq<char>, nat)> {
    v.map_values(|e: Entry| entry_view(e))
}

/// The texts of a sequence of strings.
pub open spec fn views(v: Seq<String>) -> Seq<Seq<char>> {
    v.map_values(|s: String| s@)
}

/// A path may be crawled: it is not a plain file, is not known to be missing,
/// and can be listed.
pub open spec fn accessible(p: PathProbe) -> bool {
    !(p.is_file && !p.is_dir) && p.exists != Some(false) && p.listable
}

/// `e` is the error that validation gives for `path` observed as `p`.
pub open spec fn fails_as(e: FileError, path: Seq<char>, p: PathProbe) -> bool {
    e.path_of() == path && if p.is_file && !p.is_dir {
        e is NotAFolder
    } else if p.exists == Some(false) {
        e is FileNotFound
    } else if !p.listable {
        e is PermissionError
    } else {
        false
    }
}

/// `r` is the outcome that validation owes for `path` observed as `p`.
pub open spec fn validated<T>(r: Result<T, FileError>, path: Seq<char>, p: PathProbe) -> bool {
    &&& r is Ok <==> accessible(p)
    &&& r matches Err(e) ==> fails_as(e, path, p)
}

/// The entries of a listing that could be read, in order.
pub open spec fn present(listing: Seq<Option<String>>) -> Seq<Seq<char>>
    decreases listing.len(),
{
    if listing.len() == 0 {
        seq![]
    } else {
        let rest = present(listing.drop_last());
        match listing.last() {
            Some(s) => rest.push(s@),
            None => rest,
        }
    }
}

/// The flags of one octal permission digit: `r`, `w`, `x` or `-` for each.
pub open spec fn triple(d: nat) -> Seq<char> {
    seq![
        if d >= 4 { 'r' } else { '-' },
        if d % 4 >= 2 { 'w' } else { '-' },
        if d % 2 == 1 { 'x' } else { '-' },
    ]
}

/// The symbolic permissions of a mode: owner, group and other flags from its
/// last three octal digits; all dashes where the mode has fewer than three.
/// The all-dash fallback is nine characters long, the length of every other
/// result; a ten-dash fallback would break that and was not kept.
pub open spec fn permission_text(mode: nat) -> Seq<char> {
    if mode < 64 {
        seq!['-', '-', '-', '-', '-', '-', '-', '-', '-']
    } else {
        triple((mode / 64) % 8) + triple((mode / 8) % 8) + triple(mode % 8)
    }
}

/// The report line of a file: magnitude and unit, permissions, path, split by tabs.
pub open spec fn entry_line(u: FileSize, m: nat, mode: nat, path: Seq<char>) -> Seq<char> {
    decimal_text(m) + unit_label(u) + "\t"@ + permission_text(mode) + "\t"@ + path
}

/// The entry of one file, where its size can be classified.
pub open spec fn classified_one(f: FileMeta) -> Option<(FileSize, Seq<char>, nat)> {
    match classify(f.len as nat) {
        Some(u) => {
            let m = (f.len as nat) / divisor(u);
            Some((u, entry_line(u, m, f.mode as nat, f.path@), m))
        },
        None => None,
    }
}

/// The entries of the files whose size can be classified, in order.
pub open spec fn classified(fs: Seq<FileMeta>) -> Seq<(FileSize, Seq<char>, nat)>
    decreases fs.len(),
{
    if fs.len() == 0 {
        seq![]
    } else {
        let rest = classified(fs.drop_last());
        match classified_one(fs.last()) {
            Some(e) => rest.push(e),
            None => rest,
        }
    }
}

/// Which entries a report shows, besides the minimum magnitude.
#[derive(Clone, Copy, Debug)]
pub enum EntryFilter {
    /// Every entry.
    PassThrough,
    /// The entries of one unit.
    SameUnit(FileSize),
}

impl EntryFilter {
    pub open spec fn admits_spec(self, unit: FileSize) -> bool {
        match self {
            EntryFilter::PassThrough => true,
            EntryFilter::SameUnit(u) => u == unit,
        }
    }

    /// Whether the filter lets an entry of this unit, path and magnitude through.
    pub fn admits(&self, unit: FileSize, path: &String, magnitude: u64) -> (r: bool)
        ensures
            r == self.admits_spec(unit),
    {
        match self {
            EntryFilter::PassThrough => true,
            EntryFilter::SameUnit(u) => *u == unit,
        }
    }
}

/// The lines that a report shows: those of the entries that the filter admits
/// and whose magnitude is at least `from`, in order.
pub open spec fn reported(
    es: Seq<(FileSize, Seq<char>, nat)>,
    from: nat,
    with: EntryFilter,
) -> Seq<Seq<char>>
    decreases es.len(),
{
    if es.len() == 0 {
        seq![]
    } else {
        let rest = reported(es.drop_last(), from, with);
        let e = es.last();
        if with.admits_spec(e.0) && e.2 >= from {
            rest.push(e.1)
        } else {
            rest
        }
    }
}

/// The closing line of a session that reported `n` entries.
pub open spec fn summary_text(n: nat) -> Seq<char> {
    "Scanned "@ + decimal_text(n) + " files in total"@
}

/// A crawl session: the directory it stands in and how many entries it reported.
#[derive(Clone, Debug)]
pub struct Folder {
    file_count: u64,
    current_path: String,
}

fn copy_present(listing: &Vec<Option<String>>) -> (r: Vec<String>)
    ensures
        views(r@) == present(listing@),
{
    let mut r: Vec<String> = Vec::new();
    let mut i: usize = 0;
    while i < listing.len()
        invariant
            i <= listing@.len(),
            views(r@) == present(listing@.take(i as int)),
        decreases listing@.len() - i,
    {
        assert(listing@.take(i + 1).drop_last() =~= listing@.take(i as int));
        match &listing[i] {
            Some(s) => {
                let ghost before = r@;
                r.push(s.clone());
                assert(views(r@) =~= views(before).push(s@));
            },
            None => {},
        }
        i = i + 1;
    }
    assert(listing@.take(listing@.len() as int) =~= listing@);
    r
}

fn push_triple(s: &mut String, d: u32)
    requires
        d < 8,
    ensures
        final(s)@ == old(s)@ + triple(d as nat),
{
    proof {
        reveal_strlit("r");
        reveal_strlit("w");
        reveal_strlit("x");
        reveal_strlit("-");
    }
    let mut rest = d;
    if rest >= 4 {
        s.append("r");
        rest = rest - 4;
    } else {
        s.append("-");
    }
    if rest >= 2 {
        s.append("w");
        rest = rest - 2;
    } else {
        s.append("-");
    }
    if rest >= 1 {
        s.append("x");
    } else {
        s.append("-");
    }
    assert(final(s)@ =~= old(s)@ + triple(d as nat));
}

impl Folder {
    /// The number of entries reported so far.
    pub closed spec fn count(&self) -> nat {
        self.file_count as nat
    }

    /// The directory the session stands in.
    pub closed spec fn current(&self) -> Seq<char> {
        self.current_path@
    }

    /// A session standing in `current_path` that has reported nothing.
    pub fn new(current_path: String) -> (r: Folder)
        ensures
            r.count() == 0,
            r.current() == current_path@,
    {
        Folder { file_count: 0, current_path }
    }

    /// The directory the session stands in.
    pub fn get_current_path(&self) -> (r: String)
        ensures
            r@ == self.current(),
    {
        self.current_path.clone()
    }

    /// The number of entries reported so far.
    pub fn file_count(&self) -> (r: u64)
        ensures
            r as nat == self.count(),
    {
        self.file_count
    }

    /// Validates `path` from what was observed of it: not a folder where it is a
    /// plain file, else not found where it is missing, else a permission error
    /// where it cannot be listed.
    pub fn check_path(path: &String, probe: PathProbe) -> (r: Result<(), FileError>)
        ensures
            validated(r, path@, probe),
    {
        if !probe.is_dir && probe.is_file {
            return Err(FileError::NotAFolder(path.clone()));
        }
        if let Some(exists) = probe.exists {
            if !exists {
                return Err(FileError::FileNotFound(path.clone()));
            }
        }
        if !probe.listable {
            return Err(FileError::PermissionError(path.clone()));
        }
        Ok(())
    }

    /// Moves the session to `to`, where `to` validates; else leaves it as it is.
    pub fn change_directory(&mut self, to: String, probe: PathProbe) -> (r: Result<(), FileError>)
        ensures
            validated(r, to@, probe),
            final(self).count() == old(self).count(),
            final(self).current() == if r is Ok {
                to@
            } else {
                old(self).current()
            },
    {
        Self::check_path(&to, probe)?;
        self.current_path = to;
        Ok(())
    }

    /// The immediate children of the current directory, from its `listing`
    /// (`None` for an entry that could not be read), once the directory validates.
    pub fn crawl_folder(&self, probe: PathProbe, listing: Vec<Option<String>>) -> (r: Result<
        Vec<String>,
        FileError,
    >)
        ensures
            validated(r, self.current(), probe),
            r matches Ok(v) ==> views(v@) == present(listing@),
    {
        Self::check_path(&self.current_path, probe)?;
        Ok(copy_present(&listing))
    }

    /// The whole subtree of `user_path`, from its walk (`None` for an entry that
    /// failed), once `user_path` validates.
    pub fn crawl_folder_rec(
        &self,
        user_path: &String,
        probe: PathProbe,
        walk: Vec<Option<String>>,
    ) -> (r: Result<Vec<String>, FileError>)
        ensures
            validated(r, user_path@, probe),
            r matches Ok(v) ==> views(v@) == present(walk@),
    {
        Self::check_path(user_path, probe)?;
        Ok(copy_present(&walk))
    }

    /// The immediate children of the filesystem root, from its `listing`, once
    /// the root validates.
    pub fn crawl_root(&self, root_probe: PathProbe, listing: Vec<Option<String>>) -> (r: Result<
        Vec<String>,
        FileError,
    >)
        ensures
            validated(r, "/"@, root_probe),
            r matches Ok(v) ==> views(v@) == present(listing@),
    {
        let mut this = Folder::new(self.current_path.clone());
        this.change_directory(String::from_str("/"), root_probe)?;
        this.crawl_folder(root_probe, listing)
    }

    /// The symbolic permissions of a file mode.
    pub fn change_permissions(perms: u32) -> (r: String)
        ensures
            r@ == permission_text(perms as nat),
    {
        if perms < 64 {
            proof {
                reveal_strlit("---------");
            }
            let r = String::from_str("---------");
            assert(r@ =~= permission_text(perms as nat));
            return r;
        }
        let mut r = String::new();
        push_triple(&mut r, (perms / 64) % 8);
        push_triple(&mut r, (perms / 8) % 8);
        push_triple(&mut r, perms % 8);
        assert(r@ =~= permission_text(perms as nat));
        r
    }

    /// The classified entry of each file whose size can be classified, in order.
    pub fn find_size(&self, files: Vec<FileMeta>) -> (r: Vec<Entry>)
        ensures
            entry_views(r@) == classified(files@),
    {
        let mut r: Vec<Entry> = Vec::new();
        let mut i: usize = 0;
        while i < files.len()
            invariant
                i <= files@.len(),
                entry_views(r@) == classified(files@.take(i as int)),
            decreases files@.len() - i,
        {
            assert(files@.take(i + 1).drop_last() =~= files@.take(i as int));
            let f = &files[i];
            if let Some(unit) = FileSize::from(f.len) {
                if let Some(m) = unit.sizer(f.len) {
                    let mut line = render_decimal(m);
                    let label = unit.label();
                    line.append(label.as_str());
                    line.append("\t");
                    let perms = Self::change_permissions(f.mode);
                    line.append(perms.as_str());
                    line.append("\t");
                    line.append(f.path.as_str());
                    let ghost before = r@;
                    r.push((unit, line, m));
                    assert(entry_views(r@) =~= entry_views(before).push(entry_view((unit, line, m))));
                }
            }
            i = i + 1;
        }
        assert(files@.take(files@.len() as int) =~= files@);
        r
    }

    fn increment(&mut self)
        requires
            old(self).count() < u64::MAX,
        ensures
            final(self).count() == old(self).count() + 1,
            final(self).current() == old(self).current(),
    {
        self.file_count = self.file_count + 1;
    }

    /// The lines to show for `of`: entries that `with` admits and whose
    /// magnitude is at least `from`, in order. Each one counts as reported.
    pub fn list_folder_items(&mut self, from: u64, of: Vec<Entry>, with: EntryFilter) -> (r: Vec<
        String,
    >)
        requires
            old(self).count() + of@.len() <= u64::MAX,
        ensures
            views(r@) == reported(entry_views(of@), from as nat, with),
            final(self).count() == old(self).count() + r@.len(),
            final(self).current() == old(self).current(),
    {
        let mut r: Vec<String> = Vec::new();
        let mut i: usize = 0;
        while i < of.len()
            invariant
                i <= of@.len(),
                r@.len() <= i,
                self.count() == old(self).count() + r@.len(),
                self.current() == old(self).current(),
                old(self).count() + of@.len() <= u64::MAX,
                views(r@) == reported(entry_views(of@.take(i as int)), from as nat, with),
            decreases of@.len() - i,
        {
            assert(entry_views(of@.take(i + 1)).drop_last() =~= entry_views(of@.take(i as int)));
            let e = &of[i];
            if with.admits(e.0, &e.1, e.2) && e.2 >= from {
                self.increment();
                let ghost before = r@;
                r.push(e.1.clone());
                assert(views(r@) =~= views(before).push(e.1@));
            }
            i = i + 1;
        }
        assert(of@.take(of@.len() as int) =~= of@);
        r
    }

    /// The closing line of the session, `Scanned <count> files in total`, where
    /// it reported anything.
    pub fn summary(&self) -> (r: Option<String>)
        ensures
            r is Some <==> self.count() > 0,
            r matches Some(s) ==> s@ == summary_text(self.count()),
    {
        if self.file_count == 0 {
            return None;
        }
        let mut s = String::from_str("Scanned ");
        let n = render_decimal(self.file_count);
        s.append(n.as_str());
        s.append(" files in total");
        Some(s)
    }
}

} // verus!
