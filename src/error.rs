//! The closed set of failures, and the descriptive message each one turns into.
use vstd::prelude::*;

verus! {

/// Why a listing or a batch stopped.
#[derive(Clone, Debug)]
pub enum FileError {
    /// The operating system refused an operation; `message` says what and why.
    Io { message: String },
    /// The proposed name of the file called `name` is empty once trimmed.
    EmptyName { name: String },
    /// The file called `name` reached the renamer without a proposed name.
    MissingName { name: String },
}

pub enum FileErrorView {
    Io { message: Seq<char> },
    EmptyName { name: Seq<char> },
    MissingName { name: Seq<char> },
}

impl View for FileError {
    type V = FileErrorView;

    open spec fn view(&self) -> FileErrorView {
        match self {
            FileError::Io { message } => FileErrorView::Io { message: message@ },
            FileError::EmptyName { name } => FileErrorView::EmptyName { name: name@ },
            FileError::MissingName { name } => FileErrorView::MissingName { name: name@ },
        }
    }
}

/// The text shown to a user for an error.
pub open spec fn error_message(e: FileErrorView) -> Seq<char> {
    match e {
        FileErrorView::Io { message } => message,
        FileErrorView::EmptyName { name } => "New name is empty for file: "@ + name,
        FileErrorView::MissingName { name } => "No new name given for file: "@ + name,
    }
}

/// The message of a rename that the operating system refused.
pub open spec fn rename_failure_message(
    name: Seq<char>,
    new_name: Seq<char>,
    reason: Seq<char>,
) -> Seq<char> {
    "Failed to rename '"@ + name + "' to '"@ + new_name + "': "@ + reason
}

impl FileError {
    /// The error for a rename of `name` to `new_name` that failed for `reason`.
    pub fn rename_failed(name: &str, new_name: &str, reason: &str) -> (r: FileError)
        ensures
            r@ == (FileErrorView::Io { message: rename_failure_message(name@, new_name@, reason@) }),
    {
        let m = "Failed to rename '".to_owned().concat(name).concat("' to '").concat(
            new_name,
        ).concat("': ").concat(reason);
        FileError::Io { message: m }
    }

    /// The descriptive message of this error.
    pub fn message(&self) -> (r: String)
        ensures
            r@ == error_message(self@),
    {
        match self {
            FileError::Io { message } => message.clone(),
            FileError::EmptyName { name } => "New name is empty for file: ".to_owned().concat(
                name.as_str(),
            ),
            FileError::MissingName { name } => "No new name given for file: ".to_owned().concat(
                name.as_str(),
            ),
        }
    }
}

} // verus!
