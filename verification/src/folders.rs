//! Folders of meetings and standalone notes, and the detail view of one
//! folder.

use vstd::prelude::*;
use crate::error::ParaError;
use crate::text::i64_to_decimal;
use crate::text::signed_dec;

verus! {

/// A folder as the local store lists it.
#[derive(Debug, Clone)]
pub struct FolderRow {
    pub id: i64,
    pub name: String,
    pub kind: String,
    pub color: Option<String>,
    pub ownership_scope: String,
    pub owner_user_id: Option<String>,
    pub owner_org_id: Option<String>,
    pub meeting_count: i64,
    pub note_count: i64,
    pub created_at: i64,
    pub updated_at: i64,
}

/// A meeting in a listing, with a preview of its notes.
#[derive(Debug, Clone)]
pub struct MeetingWithNotes {
    pub id: String,
    pub provider: String,
    pub started_at: i64,
    pub ended_at: Option<i64>,
    pub title: Option<String>,
    pub template_kind: String,
    pub note_count: i64,
    pub note_preview: Option<String>,
    pub has_structured_notes: bool,
    pub folder_id: Option<i64>,
    pub folder_name: Option<String>,
    pub ownership_scope: String,
}

/// One meeting in full, with its folder and whether structured notes exist.
#[derive(Debug, Clone)]
pub struct MeetingDetailRow {
    pub id: String,
    pub provider: String,
    pub started_at: i64,
    pub ended_at: Option<i64>,
    pub title: Option<String>,
    pub template_kind: String,
    pub ownership_scope: String,
    pub note_count: i64,
    pub has_structured_notes: bool,
    pub folder_id: Option<i64>,
    pub folder_name: Option<String>,
}

/// A person met in meetings, with their organization and meeting history.
#[derive(Debug, Clone)]
pub struct ParticipantRow {
    pub id: i64,
    pub name: String,
    pub email: Option<String>,
    pub source: String,
    pub created_at: i64,
    pub org_name: Option<String>,
    pub last_meeting_at: Option<i64>,
    pub meeting_count: i64,
}

/// An organization, with how many people belong to it and when one of
/// them was last met.
#[derive(Debug, Clone)]
pub struct OrganizationRow {
    pub id: i64,
    pub name: String,
    pub domain: Option<String>,
    pub created_at: i64,
    pub people_count: i64,
    pub last_meeting_at: Option<i64>,
}

/// That an organization holds a shared key for a provider, and since when
/// (never the key itself).
#[derive(Debug, Clone)]
pub struct OrgSharedKeyStatusRow {
    pub org_id: i64,
    pub provider: String,
    pub updated_at: i64,
}

/// A note that belongs to no meeting.
#[derive(Debug, Clone)]
pub struct StandaloneNoteRow {
    pub id: i64,
    pub title: String,
    pub text: String,
    pub ownership_scope: String,
    pub folder_id: Option<i64>,
    pub folder_name: Option<String>,
    pub created_at: i64,
    pub updated_at: i64,
}

/// A folder with the meetings and notes filed in it.
#[derive(Debug)]
pub struct FolderDetail {
    pub folder: FolderRow,
    pub meetings: Vec<MeetingWithNotes>,
    pub standalone_notes: Vec<StandaloneNoteRow>,
}

/// The folder with id `folder_id` among the listed folders (the first
/// one, should two share it), or `InvalidState` naming the id.
pub fn find_folder(folders: Vec<FolderRow>, folder_id: i64) -> (r: Result<FolderRow, ParaError>)
    ensures
        match r {
            Ok(f) => exists|i: int|
                0 <= i < folders@.len() && folders@[i] == f && f.id == folder_id && (forall|j: int|
                    0 <= j < i ==> (#[trigger] folders@[j]).id != folder_id),
            Err(e) => (forall|i: int| 0 <= i < folders@.len() ==> (#[trigger] folders@[i]).id != folder_id)
                && (e matches ParaError::InvalidState(m) && m@ == "unknown folder_id: "@ + signed_dec(folder_id as int)),
        },
{
    let ghost all = folders@;
    for f in it: folders
        invariant
            it.seq() == all,
            forall|j: int| 0 <= j < it.index() ==> (#[trigger] all[j]).id != folder_id,
    {
        if f.id == folder_id {
            proof {
                assert(all[it.index() as int] == f);
            }
            return Ok(f);
        }
    }
    let mut m = String::from_str("unknown folder_id: ");
    let d = i64_to_decimal(folder_id);
    m.append(d.as_str());
    Err(ParaError::InvalidState(m))
}

} // verus!
