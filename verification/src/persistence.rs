//! Where saved settings go when they cannot be read: the unreadable file is
//! moved aside under a backup name, so that fresh defaults can be saved.
use vstd::prelude::*;

verus! {

/// The backup name of an unreadable saved file: its file name followed by
/// `.unreadable`, or `persisted-data.unreadable` when the path names no file.
pub open spec fn backup_name(file_name: Option<Seq<char>>) -> Seq<char> {
    match file_name {
        Some(name) => name + ".unreadable"@,
        None => "persisted-data.unreadable"@,
    }
}

/// The file name to move an unreadable saved file to, in the same directory.
pub fn unreadable_backup_name(file_name: Option<&str>) -> (name: String)
    ensures
        name@ == backup_name(
            match file_name {
                Some(n) => Some(n@),
                None => None,
            },
        ),
{
    match file_name {
        Some(n) => {
            let mut name = String::from_str(n);
            proof {
                reveal_strlit(".unreadable");
            }
            name.append(".unreadable");
            name
        },
        None => {
            proof {
                reveal_strlit("persisted-data.unreadable");
            }
            String::from_str("persisted-data.unreadable")
        },
    }
}

} // verus!
