use vstd::prelude::*;

verus! {

/// Why a path cannot be crawled. Each variant carries the path concerned.
#[derive(Debug, Clone)]
pub enum FileError {
    /// The path does not exist.
    FileNotFound(String),
    /// The path is a directory that cannot be listed.
    PermissionError(String),
    /// The path exists and is not a directory.
    NotAFolder(String),
}

/// The first part of each error's message, before the path.
pub open spec fn message_head(e: FileError) -> Seq<char> {
    match e {
        FileError::FileNotFound(_) => "Folder "@,
        FileError::PermissionError(_) => "Invalid permissions to enumerate of this folder "@,
        FileError::NotAFolder(_) => ""@,
    }
}

/// The part of each error's message that follows the path, line break included.
pub open spec fn message_tail(e: FileError) -> Seq<char> {
    match e {
        FileError::FileNotFound(_) => " is invalid or missing\n"@,
        FileError::PermissionError(_) => "\n"@,
        FileError::NotAFolder(_) => " is not a directory\n"@,
    }
}

impl FileError {
    /// The path the error is about.
    pub open spec fn path_of(self) -> Seq<char> {
        match self {
            FileError::FileNotFound(p) => p@,
            FileError::PermissionError(p) => p@,
            FileError::NotAFolder(p) => p@,
        }
    }

    /// A human-readable description of the error, as one line ending in a line break.
    pub fn message(&self) -> (r: String)
        ensures
            r@ == message_head(*self) + self.path_of() + message_tail(*self),
    {
        let (head, path, tail) = match self {
            FileError::FileNotFound(p) => ("Folder ", p, " is invalid or missing\n"),
            FileError::PermissionError(p) => (
                "Invalid permissions to enumerate of this folder ",
                p,
                "\n",
            ),
            FileError::NotAFolder(p) => ("", p, " is not a directory\n"),
        };
        let mut r = String::from_str(head);
        r.append(path.as_str());
        r.append(tail);
        r
    }
}

} // verus!
