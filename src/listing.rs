//! The directory lister: from what the operating system reported for each child of a
//! directory, the regular files it holds, or the first failure.
use vstd::prelude::*;
use crate::entry::{FileEntry, FileEntryView, Timestamp, entry_views};
use crate::error::{FileError, FileErrorView};

verus! {

/// What was learnt of one child of a directory, in the order the enumeration gave it.
/// Only a regular file has its modification time read.
pub enum ScannedEntry {
    /// Reading the directory entry itself failed.
    EntryFailed { message: String },
    /// Asking for the entry's file type failed.
    TypeFailed { message: String },
    /// A directory, a symbolic link, a device node, a socket: anything not a regular file.
    NotAFile,
    /// A regular file, with its last modification time or the reason it could not be read.
    File { name: String, path: String, modified: Result<Timestamp, String> },
}

pub enum ScannedView {
    EntryFailed { message: Seq<char> },
    TypeFailed { message: Seq<char> },
    NotAFile,
    File { name: Seq<char>, path: Seq<char>, modified: Result<Timestamp, Seq<char>> },
}

impl View for ScannedEntry {
    type V = ScannedView;

    open spec fn view(&self) -> ScannedView {
        match self {
            ScannedEntry::EntryFailed { message } => ScannedView::EntryFailed { message: message@ },
            ScannedEntry::TypeFailed { message } => ScannedView::TypeFailed { message: message@ },
            ScannedEntry::NotAFile => ScannedView::NotAFile,
            ScannedEntry::File { name, path, modified } => ScannedView::File {
                name: name@,
                path: path@,
                modified: match modified {
                    Ok(t) => Ok(*t),
                    Err(m) => Err(m@),
                },
            },
        }
    }
}

pub open spec fn scanned_views(v: Seq<ScannedEntry>) -> Seq<ScannedView> {
    v.map_values(|s: ScannedEntry| s@)
}

/// What one child contributes: a listed file, nothing, or the message of a failure.
pub open spec fn scanned_item(s: ScannedView) -> Result<Option<FileEntryView>, Seq<char>> {
    match s {
        ScannedView::EntryFailed { message } => Err(message),
        ScannedView::TypeFailed { message } => Err(message),
        ScannedView::NotAFile => Ok(None),
        ScannedView::File { name, path, modified } => match modified {
            Ok(t) => Ok(Some(FileEntryView { name, path, modified: t, new_name: None })),
            Err(m) => Err(m),
        },
    }
}

/// The listing of a directory whose children were reported as `items`: every regular
/// file in order, or the message of the first failure and nothing else.
pub open spec fn listed(items: Seq<ScannedView>) -> Result<Seq<FileEntryView>, Seq<char>>
    decreases items.len(),
{
    if items.len() == 0 {
        Ok(Seq::empty())
    } else {
        match listed(items.drop_last()) {
            Err(m) => Err(m),
            Ok(es) => match scanned_item(items.last()) {
                Err(m) => Err(m),
                Ok(None) => Ok(es),
                Ok(Some(e)) => Ok(es.push(e)),
            },
        }
    }
}

/// The listing of a directory that could be opened (`Ok` with its children) or not
/// (`Err` with the reason), in the library's error terms.
pub open spec fn directory_listing(scan: Result<Seq<ScannedView>, Seq<char>>) -> Result<
    Seq<FileEntryView>,
    FileErrorView,
> {
    match scan {
        Err(m) => Err(FileErrorView::Io { message: m }),
        Ok(items) => match listed(items) {
            Err(m) => Err(FileErrorView::Io { message: m }),
            Ok(es) => Ok(es),
        },
    }
}

pub open spec fn scan_view(scan: Result<Vec<ScannedEntry>, String>) -> Result<
    Seq<ScannedView>,
    Seq<char>,
> {
    match scan {
        Ok(v) => Ok(scanned_views(v@)),
        Err(m) => Err(m@),
    }
}

/// Once a prefix of the children fails, the whole listing fails with its message.
proof fn lemma_listed_err_extends(items: Seq<ScannedView>, i: int)
    requires
        0 <= i <= items.len(),
        listed(items.subrange(0, i)) is Err,
    ensures
        listed(items) == listed(items.subrange(0, i)),
    decreases items.len() - i,
{
    if i < items.len() {
        assert(items.subrange(0, i + 1).drop_last() =~= items.subrange(0, i));
        lemma_listed_err_extends(items, i + 1);
    } else {
        assert(items.subrange(0, i) =~= items);
    }
}

/// When every child is a regular file whose time could be read, the listing succeeds
/// with exactly one entry per child, in order, each carrying that child's name, path
/// and time.
pub proof fn lemma_all_files_listed(items: Seq<ScannedView>)
    requires
        forall|k: int|
            0 <= k < items.len() ==> (#[trigger] items[k] matches ScannedView::File {
                modified: Ok(_),
                ..
            }),
    ensures
        listed(items) is Ok,
        listed(items)->Ok_0.len() == items.len(),
        forall|k: int|
            0 <= k < items.len() ==> scanned_item(#[trigger] items[k]) == Ok::<
                Option<FileEntryView>,
                Seq<char>,
            >(Some(listed(items)->Ok_0[k])),
    decreases items.len(),
{
    if items.len() > 0 {
        let rest = items.drop_last();
        assert forall|k: int| 0 <= k < rest.len() implies (#[trigger] rest[k] matches ScannedView::File {
            modified: Ok(_),
            ..
        }) by {
            assert(rest[k] == items[k]);
        }
        lemma_all_files_listed(rest);
        assert(items.last() == items[items.len() - 1]);
        assert forall|k: int| 0 <= k < items.len() implies scanned_item(#[trigger] items[k])
            == Ok::<Option<FileEntryView>, Seq<char>>(Some(listed(items)->Ok_0[k])) by {
            if k < items.len() - 1 {
                assert(rest[k] == items[k]);
            }
        }
    }
}

/// A child that is not a regular file (a subdirectory, say) contributes nothing: the
/// listing is the same as if it were absent.
pub proof fn lemma_non_file_skipped(items: Seq<ScannedView>, i: int)
    requires
        0 <= i < items.len(),
        items[i] is NotAFile,
    ensures
        listed(items) == listed(items.remove(i)),
    decreases items.len(),
{
    if i == items.len() - 1 {
        assert(items.remove(i) =~= items.drop_last());
    } else {
        let rest = items.drop_last();
        lemma_non_file_skipped(rest, i);
        let r = items.remove(i);
        assert(r.drop_last() =~= rest.remove(i));
        assert(r.last() == items.last());
    }
}

/// A listing succeeds exactly when every child does, and then it holds exactly the
/// files that the children contribute.
proof fn lemma_listed_members(items: Seq<ScannedView>)
    ensures
        listed(items) is Ok <==> forall|k: int|
            0 <= k < items.len() ==> scanned_item(#[trigger] items[k]) is Ok,
        listed(items) is Ok ==> forall|e: FileEntryView|
            #[trigger] listed(items)->Ok_0.contains(e) <==> exists|k: int|
                0 <= k < items.len() && scanned_item(#[trigger] items[k]) == Ok::<
                    Option<FileEntryView>,
                    Seq<char>,
                >(Some(e)),
    decreases items.len(),
{
    if items.len() > 0 {
        let rest = items.drop_last();
        let n = items.len() - 1;
        lemma_listed_members(rest);
        assert forall|k: int| 0 <= k < rest.len() implies rest[k] == items[k] by {}
        assert(items.last() == items[n]);
        if listed(items) is Ok {
            let es = listed(items)->Ok_0;
            let rs = listed(rest)->Ok_0;
            assert forall|e: FileEntryView| #[trigger] es.contains(e) <==> exists|k: int|
                0 <= k < items.len() && scanned_item(#[trigger] items[k]) == Ok::<
                    Option<FileEntryView>,
                    Seq<char>,
                >(Some(e)) by {
                if es.contains(e) {
                    let j = choose|j: int| 0 <= j < es.len() && es[j] == e;
                    if j < rs.len() {
                        assert(es[j] == rs[j]);
                        assert(rs.contains(e));
                        let k = choose|k: int|
                            0 <= k < rest.len() && scanned_item(#[trigger] rest[k]) == Ok::<
                                Option<FileEntryView>,
                                Seq<char>,
                            >(Some(e));
                        assert(scanned_item(items[k]) == Ok::<Option<FileEntryView>, Seq<char>>(
                            Some(e),
                        ));
                    } else {
                        assert(scanned_item(items[n]) == Ok::<Option<FileEntryView>, Seq<char>>(
                            Some(e),
                        ));
                    }
                }
                if exists|k: int|
                    0 <= k < items.len() && scanned_item(#[trigger] items[k]) == Ok::<
                        Option<FileEntryView>,
                        Seq<char>,
                    >(Some(e)) {
                    let k = choose|k: int|
                        0 <= k < items.len() && scanned_item(#[trigger] items[k]) == Ok::<
                            Option<FileEntryView>,
                            Seq<char>,
                        >(Some(e));
                    if k < n {
                        assert(scanned_item(rest[k]) == Ok::<Option<FileEntryView>, Seq<char>>(
                            Some(e),
                        ));
                        assert(rs.contains(e));
                        let j = choose|j: int| 0 <= j < rs.len() && rs[j] == e;
                        assert(es[j] == e);
                    } else {
                        assert(es[es.len() - 1] == e);
                    }
                }
            }
        }
        if forall|k: int| 0 <= k < items.len() ==> scanned_item(#[trigger] items[k]) is Ok {
            assert(scanned_item(items[n]) is Ok);
            assert forall|k: int| 0 <= k < rest.len() implies scanned_item(#[trigger] rest[k]) is Ok by {
                assert(scanned_item(items[k]) is Ok);
            }
        }
        if listed(items) is Ok {
            assert forall|k: int| 0 <= k < items.len() implies scanned_item(#[trigger] items[k]) is Ok by {
                if k < n {
                    assert(scanned_item(rest[k]) is Ok);
                }
            }
        }
    }
}

/// Listing does not depend on the order in which the children are reported: two
/// enumerations of the same unchanged directory give the same set of entries.
pub proof fn lemma_listing_order_free(a: Seq<ScannedView>, b: Seq<ScannedView>)
    requires
        listed(a) is Ok,
        a.to_set() == b.to_set(),
    ensures
        listed(b) is Ok,
        listed(a)->Ok_0.to_set() == listed(b)->Ok_0.to_set(),
{
    lemma_listed_members(a);
    lemma_listed_members(b);
    assert forall|k: int| 0 <= k < b.len() implies scanned_item(#[trigger] b[k]) is Ok by {
        assert(b.to_set().contains(b[k]));
        assert(a.contains(b[k]));
    }
    let ea = listed(a)->Ok_0;
    let eb = listed(b)->Ok_0;
    assert forall|e: FileEntryView| ea.to_set().contains(e) <==> eb.to_set().contains(e) by {
        if ea.contains(e) {
            let k = choose|k: int|
                0 <= k < a.len() && scanned_item(#[trigger] a[k]) == Ok::<
                    Option<FileEntryView>,
                    Seq<char>,
                >(Some(e));
            assert(a.to_set().contains(a[k]));
            assert(b.contains(a[k]));
            let j = choose|j: int| 0 <= j < b.len() && b[j] == a[k];
            assert(scanned_item(b[j]) == Ok::<Option<FileEntryView>, Seq<char>>(Some(e)));
        }
        if eb.contains(e) {
            let k = choose|k: int|
                0 <= k < b.len() && scanned_item(#[trigger] b[k]) == Ok::<
                    Option<FileEntryView>,
                    Seq<char>,
                >(Some(e));
            assert(b.to_set().contains(b[k]));
            assert(a.contains(b[k]));
            let j = choose|j: int| 0 <= j < a.len() && a[j] == b[k];
            assert(scanned_item(a[j]) == Ok::<Option<FileEntryView>, Seq<char>>(Some(e)));
        }
    }
    assert(ea.to_set() =~= eb.to_set());
}

/// Lists the regular files of a directory from what its enumeration reported; the
/// first failure, opening the directory included, aborts the listing.
pub fn read_files_in_directory(scan: Result<Vec<ScannedEntry>, String>) -> (r: Result<
    Vec<FileEntry>,
    FileError,
>)
    ensures
        match r {
            Ok(v) => directory_listing(scan_view(scan)) == Ok::<
                Seq<FileEntryView>,
                FileErrorView,
            >(entry_views(v@)),
            Err(x) => directory_listing(scan_view(scan)) == Err::<
                Seq<FileEntryView>,
                FileErrorView,
            >(x@),
        },
{
    let items = match scan {
        Err(m) => {
            return Err(FileError::Io { message: m });
        },
        Ok(items) => items,
    };
    let ghost ss = scanned_views(items@);
    assert(scan_view(scan) == Ok::<Seq<ScannedView>, Seq<char>>(ss));
    let mut out: Vec<FileEntry> = Vec::new();
    let mut i: usize = 0;
    assert(ss.subrange(0, 0).len() == 0);
    assert(entry_views(out@) =~= Seq::<FileEntryView>::empty());
    while i < items.len()
        invariant
            i <= items.len(),
            ss == scanned_views(items@),
            scan_view(scan) == Ok::<Seq<ScannedView>, Seq<char>>(ss),
            listed(ss.subrange(0, i as int)) == Ok::<Seq<FileEntryView>, Seq<char>>(
                entry_views(out@),
            ),
        decreases items.len() - i,
    {
        assert(ss.subrange(0, i + 1).drop_last() =~= ss.subrange(0, i as int));
        assert(ss.subrange(0, i + 1).last() == items@[i as int]@);
        match &items[i] {
            ScannedEntry::EntryFailed { message } | ScannedEntry::TypeFailed { message } => {
                proof {
                    lemma_listed_err_extends(ss, i + 1);
                }
                return Err(FileError::Io { message: message.clone() });
            },
            ScannedEntry::NotAFile => {},
            ScannedEntry::File { name, path, modified } => match modified {
                Err(m) => {
                    proof {
                        lemma_listed_err_extends(ss, i + 1);
                    }
                    return Err(FileError::Io { message: m.clone() });
                },
                Ok(t) => {
                    let ghost before = out@;
                    let e = FileEntry::new(name.clone(), path.clone(), *t);
                    out.push(e);
                    assert(entry_views(out@) =~= entry_views(before).push(e@));
                },
            },
        }
        i = i + 1;
    }
    assert(ss.subrange(0, i as int) =~= ss);
    Ok(out)
}

} // verus!
