//! The batch renamer. It decides, request by request, which rename to perform next,
//! and takes back what the operating system answered; the first failure ends the batch
//! and nothing already renamed is undone.
use vstd::prelude::*;
use crate::entry::{RenameFileEntry, RenameFileEntryView, views_of};
use crate::error::{FileError, FileErrorView, rename_failure_message};
use crate::text::{is_blank, is_blank_name, path_with_file_name, with_file_name_of};

verus! {

/// What the batch asks for next.
pub enum RenameAction {
    /// Rename the file at `from` to `to`.
    Move { from: String, to: String },
    /// Stop: the batch failed.
    Fail(FileError),
    /// Stop: every request was applied.
    Done,
}

pub enum RenameActionView {
    Move { from: Seq<char>, to: Seq<char> },
    Fail(FileErrorView),
    Done,
}

impl View for RenameAction {
    type V = RenameActionView;

    open spec fn view(&self) -> RenameActionView {
        match self {
            RenameAction::Move { from, to } => RenameActionView::Move { from: from@, to: to@ },
            RenameAction::Fail(e) => RenameActionView::Fail(e@),
            RenameAction::Done => RenameActionView::Done,
        }
    }
}

/// Where request `r` moves its file: the same directory, under the proposed name.
pub open spec fn destination(r: RenameFileEntryView) -> Seq<char> {
    with_file_name_of(r.path, r.new_name)
}

/// The step due at request `i`: past the end the batch is done; a blank proposed name
/// fails it with no rename attempted; otherwise the file is moved.
pub open spec fn action_at(files: Seq<RenameFileEntryView>, i: int) -> RenameActionView {
    if i < 0 || i >= files.len() {
        RenameActionView::Done
    } else if is_blank(files[i].new_name) {
        RenameActionView::Fail(FileErrorView::EmptyName { name: files[i].name })
    } else {
        RenameActionView::Move { from: files[i].path, to: destination(files[i]) }
    }
}

/// The renames that a batch performs from request `i` on when the operating system
/// grants every one, in order.
pub open spec fn moves_from(files: Seq<RenameFileEntryView>, i: int) -> Seq<
    (Seq<char>, Seq<char>),
>
    decreases files.len() - i,
{
    if i < 0 || i >= files.len() {
        Seq::empty()
    } else {
        match action_at(files, i) {
            RenameActionView::Move { from, to } => seq![(from, to)] + moves_from(files, i + 1),
            _ => Seq::empty(),
        }
    }
}

/// How a batch ends from request `i` on when the operating system grants every rename.
pub open spec fn outcome_from(files: Seq<RenameFileEntryView>, i: int) -> Result<
    (),
    FileErrorView,
>
    decreases files.len() - i,
{
    if i < 0 || i >= files.len() {
        Ok(())
    } else {
        match action_at(files, i) {
            RenameActionView::Move { .. } => outcome_from(files, i + 1),
            RenameActionView::Fail(e) => Err(e),
            RenameActionView::Done => Ok(()),
        }
    }
}

/// The rename that a request asks for: from its path to its destination.
pub open spec fn move_of(r: RenameFileEntryView) -> (Seq<char>, Seq<char>) {
    (r.path, destination(r))
}

proof fn lemma_stop_at_blank_from(files: Seq<RenameFileEntryView>, i: int, k: int)
    requires
        0 <= i <= k < files.len(),
        forall|j: int| 0 <= j < k ==> !is_blank(#[trigger] files[j].new_name),
        is_blank(files[k].new_name),
    ensures
        moves_from(files, i) == Seq::new((k - i) as nat, |j: int| move_of(files[i + j])),
        outcome_from(files, i) == Err::<(), FileErrorView>(
            FileErrorView::EmptyName { name: files[k].name },
        ),
    decreases k - i,
{
    if i < k {
        assert(!is_blank(files[i].new_name));
        lemma_stop_at_blank_from(files, i + 1, k);
        assert(moves_from(files, i) =~= Seq::new((k - i) as nat, |j: int| move_of(files[i + j])));
    } else {
        assert(moves_from(files, i) =~= Seq::new(0, |j: int| move_of(files[i + j])));
    }
}

/// A batch stops at its first request whose proposed name is blank: when the operating
/// system grants every rename, exactly the requests before it are applied, in order,
/// that one and all after it are left alone, and the batch fails naming that file.
pub proof fn lemma_stop_at_blank_name(files: Seq<RenameFileEntryView>, k: int)
    requires
        0 <= k < files.len(),
        forall|j: int| 0 <= j < k ==> !is_blank(#[trigger] files[j].new_name),
        is_blank(files[k].new_name),
    ensures
        moves_from(files, 0) == Seq::new(k as nat, |j: int| move_of(files[j])),
        outcome_from(files, 0) == Err::<(), FileErrorView>(
            FileErrorView::EmptyName { name: files[k].name },
        ),
{
    lemma_stop_at_blank_from(files, 0, k);
    assert(Seq::new(k as nat, |j: int| move_of(files[0 + j])) =~= Seq::new(
        k as nat,
        |j: int| move_of(files[j]),
    ));
}

proof fn lemma_all_named_from(files: Seq<RenameFileEntryView>, i: int)
    requires
        0 <= i <= files.len(),
        forall|j: int| 0 <= j < files.len() ==> !is_blank(#[trigger] files[j].new_name),
    ensures
        moves_from(files, i) == Seq::new((files.len() - i) as nat, |j: int| move_of(files[i + j])),
        outcome_from(files, i) == Ok::<(), FileErrorView>(()),
    decreases files.len() - i,
{
    if i < files.len() {
        assert(!is_blank(files[i].new_name));
        lemma_all_named_from(files, i + 1);
    }
    assert(moves_from(files, i) =~= Seq::new(
        (files.len() - i) as nat,
        |j: int| move_of(files[i + j]),
    ));
}

/// A batch in which every proposed name is non-blank succeeds when the operating system
/// grants every rename, having renamed each file once, in order, into its own directory
/// under its proposed name.
pub proof fn lemma_all_named_applied(files: Seq<RenameFileEntryView>)
    requires
        forall|j: int| 0 <= j < files.len() ==> !is_blank(#[trigger] files[j].new_name),
    ensures
        moves_from(files, 0) == files.map_values(|r: RenameFileEntryView| move_of(r)),
        outcome_from(files, 0) == Ok::<(), FileErrorView>(()),
{
    lemma_all_named_from(files, 0);
    assert(moves_from(files, 0) =~= files.map_values(|r: RenameFileEntryView| move_of(r)));
}

/// A batch of rename requests and how far it has got: the requests before `next` were
/// applied.
pub struct RenameBatch {
    files: Vec<RenameFileEntry>,
    next: usize,
}

impl RenameBatch {
    pub closed spec fn requests(&self) -> Seq<RenameFileEntryView> {
        views_of(self.files@)
    }

    pub closed spec fn position(&self) -> int {
        self.next as int
    }

    pub open spec fn wf(&self) -> bool {
        0 <= self.position() <= self.requests().len()
    }

    /// A batch over `files`, in that order, with nothing applied yet.
    pub fn new(files: Vec<RenameFileEntry>) -> (r: RenameBatch)
        ensures
            r.wf(),
            r.requests() == views_of(files@),
            r.position() == 0,
    {
        RenameBatch { files, next: 0 }
    }

    /// How many requests were applied so far.
    pub fn applied(&self) -> (r: usize)
        ensures
            r == self.position(),
    {
        self.next
    }

    /// The step due now.
    pub fn next_action(&self) -> (r: RenameAction)
        requires
            self.wf(),
        ensures
            r@ == action_at(self.requests(), self.position()),
    {
        if self.next >= self.files.len() {
            return RenameAction::Done;
        }
        let f = &self.files[self.next];
        assert(self.requests()[self.position()] == f@);
        if is_blank_name(f.new_name().as_str()) {
            RenameAction::Fail(FileError::EmptyName { name: f.name().clone() })
        } else {
            let to = path_with_file_name(f.path().as_str(), f.new_name().as_str());
            RenameAction::Move { from: f.path().clone(), to }
        }
    }

    /// Takes back what the operating system answered to the rename now due: on success
    /// the batch moves on to the next request; on failure it stays and the error names
    /// the file, its intended name and the reason.
    pub fn record(&mut self, outcome: Result<(), String>) -> (r: Result<(), FileError>)
        requires
            old(self).wf(),
            action_at(old(self).requests(), old(self).position()) is Move,
        ensures
            final(self).wf(),
            final(self).requests() == old(self).requests(),
            match outcome {
                Ok(()) => r is Ok && final(self).position() == old(self).position() + 1,
                Err(reason) => final(self).position() == old(self).position() && r is Err
                    && r->Err_0@ == FileErrorView::Io {
                    message: rename_failure_message(
                        old(self).requests()[old(self).position()].name,
                        old(self).requests()[old(self).position()].new_name,
                        reason@,
                    ),
                },
            },
    {
        let ghost i = self.position();
        assert(self.requests().len() == self.files@.len());
        assert(i < self.requests().len());
        assert(self.requests()[i] == self.files@[i]@);
        let n = self.files.len();
        assert(self.next < n);
        match outcome {
            Ok(()) => {
                self.next = self.next + 1;
                Ok(())
            },
            Err(reason) => {
                let f = &self.files[self.next];
                Err(
                    FileError::rename_failed(
                        f.name().as_str(),
                        f.new_name().as_str(),
                        reason.as_str(),
                    ),
                )
            },
        }
    }
}

} // verus!
