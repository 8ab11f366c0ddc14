//! Where an archive goes: how its packs are spread over files, and the
//! checks made before anything is written.

use vstd::prelude::*;

verus! {

/// How the packs of an archive are spread over files.
#[derive(Clone, Copy, Debug, PartialEq, Eq, Structural)]
pub enum ConcatMode {
    /// All packs in one file.
    OneFile,
    /// The content pack in a file of its own, the rest together.
    TwoFiles,
    /// Every pack in a file of its own.
    NoConcat,
}

/// The mode used where none is asked for.
pub fn concat_mode_or_default(mode: Option<ConcatMode>) -> (chosen: ConcatMode)
    ensures
        chosen == (match mode {
            Some(m) => m,
            None => ConcatMode::OneFile,
        }),
{
    match mode {
        Some(m) => m,
        None => ConcatMode::OneFile,
    }
}

/// Why a creation was refused before it began. Each field is the path at
/// fault, as it is shown.
#[derive(Debug)]
pub enum CreateError {
    /// The directory of the output file does not exist.
    MissingDirectory(String),
    /// The output file exists and may not be overwritten.
    FileExists(String),
    /// An input was given by an absolute path.
    AbsoluteInput(String),
    /// An input is not there, or may not be read.
    MissingInput(String),
}

impl CreateError {
    /// The text shown for this error.
    pub open spec fn message_spec(self) -> Seq<char> {
        match self {
            CreateError::MissingDirectory(dir) => "Directory "@ + dir@ + " doesn't exist"@,
            CreateError::FileExists(file) => "File "@ + file@
                + " already exists. Use option --force to overwrite it."@,
            CreateError::AbsoluteInput(file) => "Input file ("@ + file@ + ") must be relative."@,
            CreateError::MissingInput(file) => "Input "@ + file@
                + " path doesn't exist or cannot be accessed"@,
        }
    }

    /// Renders the error.
    pub fn message(&self) -> (text: String)
        ensures
            text@ == self.message_spec(),
    {
        match self {
            CreateError::MissingDirectory(dir) => String::from_str("Directory ").concat(
                dir.as_str(),
            ).concat(" doesn't exist"),
            CreateError::FileExists(file) => String::from_str("File ").concat(
                file.as_str(),
            ).concat(" already exists. Use option --force to overwrite it."),
            CreateError::AbsoluteInput(file) => String::from_str("Input file (").concat(
                file.as_str(),
            ).concat(") must be relative."),
            CreateError::MissingInput(file) => String::from_str("Input ").concat(
                file.as_str(),
            ).concat(" path doesn't exist or cannot be accessed"),
        }
    }
}

/// Decides whether the archive may be written to `out_file`, whose
/// directory is `parent`: the directory must exist, and a file that is
/// already there is overwritten only by `force`.
pub fn check_output_path_writable(
    out_file: &str,
    parent: &str,
    parent_is_dir: bool,
    already_there: bool,
    force: bool,
) -> (checked: Result<(), CreateError>)
    ensures
        match checked {
            Ok(_) => parent_is_dir && (!already_there || force),
            Err(CreateError::MissingDirectory(dir)) => !parent_is_dir && dir@ == parent@,
            Err(CreateError::FileExists(file)) => parent_is_dir && already_there && !force && file@
                == out_file@,
            Err(_) => false,
        },
{
    if !parent_is_dir {
        Err(CreateError::MissingDirectory(String::from_str(parent)))
    } else if already_there && !force {
        Err(CreateError::FileExists(String::from_str(out_file)))
    } else {
        Ok(())
    }
}

/// Decides whether `infile` may be an input: inputs are given relative to
/// the base directory.
pub fn check_input_relative(infile: &str, is_absolute: bool) -> (checked: Result<(), CreateError>)
    ensures
        match checked {
            Ok(_) => !is_absolute,
            Err(CreateError::AbsoluteInput(file)) => is_absolute && file@ == infile@,
            Err(_) => false,
        },
{
    if is_absolute {
        Err(CreateError::AbsoluteInput(String::from_str(infile)))
    } else {
        Ok(())
    }
}

/// Decides whether `infile` may be an input: it has to be there and to be
/// readable.
pub fn check_input_accessible(infile: &str, accessible: bool) -> (checked: Result<(), CreateError>)
    ensures
        match checked {
            Ok(_) => accessible,
            Err(CreateError::MissingInput(file)) => !accessible && file@ == infile@,
            Err(_) => false,
        },
{
    if accessible {
        Ok(())
    } else {
        Err(CreateError::MissingInput(String::from_str(infile)))
    }
}

/// Counts the bytes that did not have to be stored again.
#[derive(Debug)]
pub struct CachedSize(pub u64);

impl CachedSize {
    pub fn new() -> (counter: Self)
        ensures
            counter.0 == 0,
    {
        CachedSize(0)
    }

    /// Counts `size` more bytes.
    pub fn cached_data(&mut self, size: u64)
        requires
            old(self).0 + size <= u64::MAX,
        ensures
            final(self).0 == old(self).0 + size,
    {
        self.0 = self.0 + size;
    }

    /// The bytes counted so far.
    pub fn get(&self) -> (total: u64)
        ensures
            total == self.0,
    {
        self.0
    }
}

} // verus!
