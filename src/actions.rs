//! Power actions the user may ask for once downloads are done, and which
//! leftover files of a cancelled download are removed.
use vstd::prelude::*;
use crate::text::{same_text, contains_str, ends_with_str, occurs_in, has_suffix, push_all, string_of};

verus! {

#[derive(Clone, Copy, Debug, PartialEq, Eq)]
pub enum SystemAction {
    Shutdown,
    Reboot,
    Sleep,
    Hibernate,
}

pub open spec fn system_action_of(name: Seq<char>) -> Option<SystemAction> {
    if name == "shutdown"@ {
        Some(SystemAction::Shutdown)
    } else if name == "reboot"@ {
        Some(SystemAction::Reboot)
    } else if name == "sleep"@ {
        Some(SystemAction::Sleep)
    } else if name == "hibernate"@ {
        Some(SystemAction::Hibernate)
    } else {
        None
    }
}

/// Reads the name of a power action; any other name is refused with
/// `Invalid action`.
pub fn parse_system_action(name: &str) -> (r: Result<SystemAction, String>)
    ensures
        match r {
            Ok(a) => system_action_of(name@) == Some(a),
            Err(e) => system_action_of(name@).is_none() && e@ == "Invalid action"@,
        },
{
    if same_text(name, "shutdown") {
        Ok(SystemAction::Shutdown)
    } else if same_text(name, "reboot") {
        Ok(SystemAction::Reboot)
    } else if same_text(name, "sleep") {
        Ok(SystemAction::Sleep)
    } else if same_text(name, "hibernate") {
        Ok(SystemAction::Hibernate)
    } else {
        Err("Invalid action".to_owned())
    }
}

/// A file left behind by an unfinished download of the video `video_id`.
pub open spec fn is_partial_file_of(file_name: Seq<char>, video_id: Seq<char>) -> bool {
    (occurs_in(file_name, "["@ + video_id + "]"@) || occurs_in(file_name, video_id)) && (has_suffix(
        file_name,
        ".part"@,
    ) || has_suffix(file_name, ".ytdl"@) || occurs_in(file_name, ".temp"@) || occurs_in(
        file_name,
        ".f"@,
    ))
}

/// Whether a file in the output folder is to be removed after the download
/// of `video_id` was cancelled.
pub fn is_partial_file(file_name: &str, video_id: &str) -> (r: bool)
    ensures
        r == is_partial_file_of(file_name@, video_id@),
{
    let mut bracketed: Vec<char> = Vec::new();
    push_all(&mut bracketed, "[");
    push_all(&mut bracketed, video_id);
    push_all(&mut bracketed, "]");
    let b = string_of(&bracketed);
    (contains_str(file_name, b.as_str()) || contains_str(file_name, video_id)) && (ends_with_str(
        file_name,
        ".part",
    ) || ends_with_str(file_name, ".ytdl") || contains_str(file_name, ".temp") || contains_str(
        file_name,
        ".f",
    ))
}

} // verus!
