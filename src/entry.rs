//! The records that pass between the lister, the front end and the renamer.
use vstd::prelude::*;
use crate::error::{FileError, FileErrorView};

verus! {

/// An instant in UTC: whole seconds since the Unix epoch and the nanoseconds past them.
#[derive(Clone, Copy, Debug, PartialEq, Eq, Structural)]
pub struct Timestamp {
    secs: i64,
    nanos: u32,
}

impl Timestamp {
    /// The nanoseconds stay below one second.
    pub open spec fn wf(&self) -> bool {
        self.spec_nanos() < 1_000_000_000
    }

    pub closed spec fn spec_secs(&self) -> i64 {
        self.secs
    }

    pub closed spec fn spec_nanos(&self) -> u32 {
        self.nanos
    }

    /// The instant `secs` seconds and `nanos` nanoseconds after the epoch, if
    /// `nanos` is under one second.
    pub fn new(secs: i64, nanos: u32) -> (r: Option<Timestamp>)
        ensures
            nanos < 1_000_000_000 <==> r.is_some(),
            r matches Some(t) ==> t.wf() && t.spec_secs() == secs && t.spec_nanos() == nanos,
    {
        if nanos < 1_000_000_000 {
            Some(Timestamp { secs, nanos })
        } else {
            None
        }
    }

    pub fn secs(&self) -> (r: i64)
        ensures
            r == self.spec_secs(),
    {
        self.secs
    }

    pub fn nanos(&self) -> (r: u32)
        ensures
            r == self.spec_nanos(),
    {
        self.nanos
    }
}

/// One regular file found in a directory, with the name the user may have proposed
/// for it.
#[derive(Clone, Debug)]
pub struct FileEntry {
    name: String,
    path: String,
    modified: Timestamp,
    new_name: Option<String>,
}

pub struct FileEntryView {
    pub name: Seq<char>,
    pub path: Seq<char>,
    pub modified: Timestamp,
    pub new_name: Option<Seq<char>>,
}

pub open spec fn opt_view(o: Option<String>) -> Option<Seq<char>> {
    match o {
        Some(s) => Some(s@),
        None => None,
    }
}

impl View for FileEntry {
    type V = FileEntryView;

    closed spec fn view(&self) -> FileEntryView {
        FileEntryView {
            name: self.name@,
            path: self.path@,
            modified: self.modified,
            new_name: opt_view(self.new_name),
        }
    }
}

impl FileEntry {
    /// A freshly listed file: no name is proposed yet.
    pub fn new(name: String, path: String, modified: Timestamp) -> (r: FileEntry)
        ensures
            r@ == (FileEntryView { name: name@, path: path@, modified, new_name: None }),
    {
        FileEntry { name, path, modified, new_name: None }
    }

    pub fn name(&self) -> (r: &String)
        ensures
            r@ == self@.name,
    {
        &self.name
    }

    pub fn path(&self) -> (r: &String)
        ensures
            r@ == self@.path,
    {
        &self.path
    }

    pub fn modified(&self) -> (r: Timestamp)
        ensures
            r == self@.modified,
    {
        self.modified
    }

    pub fn new_name(&self) -> (r: &Option<String>)
        ensures
            opt_view(*r) == self@.new_name,
    {
        &self.new_name
    }

    /// Proposes a name for the file (or withdraws the proposal); nothing else changes.
    pub fn set_new_name(&mut self, new_name: Option<String>)
        ensures
            final(self)@ == (FileEntryView { new_name: opt_view(new_name), ..old(self)@ }),
    {
        self.new_name = new_name;
    }
}

/// A file together with the name it is to be given: the renamer's input.
#[derive(Clone, Debug)]
pub struct RenameFileEntry {
    name: String,
    path: String,
    modified: Timestamp,
    new_name: String,
}

pub struct RenameFileEntryView {
    pub name: Seq<char>,
    pub path: Seq<char>,
    pub modified: Timestamp,
    pub new_name: Seq<char>,
}

impl View for RenameFileEntry {
    type V = RenameFileEntryView;

    closed spec fn view(&self) -> RenameFileEntryView {
        RenameFileEntryView {
            name: self.name@,
            path: self.path@,
            modified: self.modified,
            new_name: self.new_name@,
        }
    }
}

/// What confirming a listed file gives: the same file with its proposal made
/// required, or the error for a missing proposal.
pub open spec fn confirmed(e: FileEntryView) -> Result<RenameFileEntryView, FileErrorView> {
    match e.new_name {
        Some(n) => Ok(
            RenameFileEntryView { name: e.name, path: e.path, modified: e.modified, new_name: n },
        ),
        None => Err(FileErrorView::MissingName { name: e.name }),
    }
}

/// Confirms each file in order; the first one without a proposal stops it.
pub open spec fn confirmed_all(es: Seq<FileEntryView>) -> Result<
    Seq<RenameFileEntryView>,
    FileErrorView,
>
    decreases es.len(),
{
    if es.len() == 0 {
        Ok(Seq::empty())
    } else {
        match confirmed_all(es.drop_last()) {
            Err(e) => Err(e),
            Ok(rs) => match confirmed(es.last()) {
                Err(e) => Err(e),
                Ok(r) => Ok(rs.push(r)),
            },
        }
    }
}

/// Once a prefix of the files fails to confirm, the whole sequence fails the same way.
proof fn lemma_confirmed_all_err_extends(es: Seq<FileEntryView>, i: int)
    requires
        0 <= i <= es.len(),
        confirmed_all(es.subrange(0, i)) is Err,
    ensures
        confirmed_all(es) == confirmed_all(es.subrange(0, i)),
    decreases es.len() - i,
{
    if i < es.len() {
        assert(es.subrange(0, i + 1).drop_last() =~= es.subrange(0, i));
        lemma_confirmed_all_err_extends(es, i + 1);
    } else {
        assert(es.subrange(0, i) =~= es);
    }
}

pub open spec fn views_of(v: Seq<RenameFileEntry>) -> Seq<RenameFileEntryView> {
    v.map_values(|r: RenameFileEntry| r@)
}

pub open spec fn entry_views(v: Seq<FileEntry>) -> Seq<FileEntryView> {
    v.map_values(|e: FileEntry| e@)
}

impl RenameFileEntry {
    pub fn new(name: String, path: String, modified: Timestamp, new_name: String) -> (r:
        RenameFileEntry)
        ensures
            r@ == (RenameFileEntryView { name: name@, path: path@, modified, new_name: new_name@ }),
    {
        RenameFileEntry { name, path, modified, new_name }
    }

    /// The listed file with its proposed name made required; fails exactly when no
    /// name was proposed.
    pub fn from_draft(e: &FileEntry) -> (r: Result<RenameFileEntry, FileError>)
        ensures
            match r {
                Ok(c) => confirmed(e@) == Ok::<RenameFileEntryView, FileErrorView>(c@),
                Err(x) => confirmed(e@) == Err::<RenameFileEntryView, FileErrorView>(x@),
            },
    {
        match &e.new_name {
            Some(n) => Ok(
                RenameFileEntry {
                    name: e.name.clone(),
                    path: e.path.clone(),
                    modified: e.modified,
                    new_name: n.clone(),
                },
            ),
            None => Err(FileError::MissingName { name: e.name.clone() }),
        }
    }

    /// Confirms every listed file in order: all of them with their proposals, or the
    /// error for the first file that has none.
    pub fn confirm_all(entries: &Vec<FileEntry>) -> (r: Result<Vec<RenameFileEntry>, FileError>)
        ensures
            match r {
                Ok(v) => confirmed_all(entry_views(entries@)) == Ok::<
                    Seq<RenameFileEntryView>,
                    FileErrorView,
                >(views_of(v@)),
                Err(x) => confirmed_all(entry_views(entries@)) == Err::<
                    Seq<RenameFileEntryView>,
                    FileErrorView,
                >(x@),
            },
    {
        let ghost es = entry_views(entries@);
        let mut out: Vec<RenameFileEntry> = Vec::new();
        let mut i: usize = 0;
        assert(es.subrange(0, 0).len() == 0);
        assert(views_of(out@) =~= Seq::<RenameFileEntryView>::empty());
        while i < entries.len()
            invariant
                i <= entries.len(),
                es == entry_views(entries@),
                confirmed_all(es.subrange(0, i as int)) == Ok::<
                    Seq<RenameFileEntryView>,
                    FileErrorView,
                >(views_of(out@)),
            decreases entries.len() - i,
        {
            assert(es.subrange(0, i + 1).drop_last() =~= es.subrange(0, i as int));
            match RenameFileEntry::from_draft(&entries[i]) {
                Ok(c) => {
                    let ghost before = out@;
                    out.push(c);
                    assert(views_of(out@) =~= views_of(before).push(c@));
                    i = i + 1;
                },
                Err(x) => {
                    proof {
                        lemma_confirmed_all_err_extends(es, i + 1);
                    }
                    return Err(x);
                },
            }
        }
        assert(es.subrange(0, i as int) =~= es);
        Ok(out)
    }

    pub fn name(&self) -> (r: &String)
        ensures
            r@ == self@.name,
    {
        &self.name
    }

    pub fn path(&self) -> (r: &String)
        ensures
            r@ == self@.path,
    {
        &self.path
    }

    pub fn modified(&self) -> (r: Timestamp)
        ensures
            r == self@.modified,
    {
        self.modified
    }

    pub fn new_name(&self) -> (r: &String)
        ensures
            r@ == self@.new_name,
    {
        &self.new_name
    }
}

} // verus!
