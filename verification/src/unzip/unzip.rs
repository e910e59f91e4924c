//! What happens to each entry of an archive being unpacked.
use vstd::prelude::*;
use crate::rManager::rManager::UnzipSkip;
use crate::seq_util::strs_view;
use crate::text::ends_with;
use crate::unzip::UnzipError::UnzipError;

verus! {

/// What is done with an archive entry.
#[derive(Debug, Clone, Copy, PartialEq, Eq, Structural)]
pub enum EntryAction {
    Skip,
    CreateDir,
    Extract,
}

/// The action for an archive entry named `name`: entries whose path is not
/// safe (`enclosed` false) are skipped, directories (names ending in `/`)
/// created; a file needs a name (`OutpathFileName` otherwise), and is
/// skipped when that name is to be skipped or on a dry run.
pub open spec fn entry_action(
    name: Seq<char>,
    enclosed: bool,
    file_name: Option<Seq<char>>,
    files_to_skip: Seq<Seq<char>>,
    dry_run: bool,
) -> Result<EntryAction, UnzipError> {
    if !enclosed {
        Ok(EntryAction::Skip)
    } else if ends_with(name, "/"@) {
        Ok(EntryAction::CreateDir)
    } else {
        match file_name {
            None => Err(UnzipError::OutpathFileName),
            Some(f) => if files_to_skip.contains(f) || dry_run {
                Ok(EntryAction::Skip)
            } else {
                Ok(EntryAction::Extract)
            },
        }
    }
}

/// `entry_action` on values.
pub fn unzip_entry_action(
    name: &str,
    enclosed: bool,
    file_name: Option<&str>,
    files_to_skip: &Vec<String>,
    dry_run: bool,
) -> (r: Result<EntryAction, UnzipError>)
    ensures
        r == entry_action(
            name@,
            enclosed,
            match file_name {
                Some(f) => Some(f@),
                None => None,
            },
            strs_view(files_to_skip@),
            dry_run,
        ),
{
    if !enclosed {
        return Ok(EntryAction::Skip);
    }
    if crate::text::ends_with_str(name, "/") {
        return Ok(EntryAction::CreateDir);
    }
    match file_name {
        None => Err(UnzipError::OutpathFileName),
        Some(f) => if crate::seq_util::contains_string(files_to_skip, f) || dry_run {
            Ok(EntryAction::Skip)
        } else {
            Ok(EntryAction::Extract)
        },
    }
}

/// Whether a file of an archive is left out under a skip rule.
pub fn should_skip(skip: &UnzipSkip, file_name: &str) -> (r: bool)
    ensures
        r == match skip {
            UnzipSkip::SkipFile(f) => file_name@ == f@,
            UnzipSkip::OnlyFile(f) => file_name@ != f@,
        },
{
    match skip {
        UnzipSkip::SkipFile(f) => crate::text::str_eq(file_name, f.as_str()),
        UnzipSkip::OnlyFile(f) => !crate::text::str_eq(file_name, f.as_str()),
    }
}

} // verus!
