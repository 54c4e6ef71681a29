//! What is done to single messages: deleting, archiving, marking as read, and
//! saving attachments.
use vstd::prelude::*;

use crate::imap_id::{
    imap_provider_message_id, is_local_sent_id, lacks, local_sent, names_are_read_back,
    no_uid_error, parse_imap_provider_message_id, provider_id, provider_parts,
};
use crate::moves::{opt_location, ImapMovedLocation, LocationView};
use crate::msgid::{nonblank, nonempty};
use crate::text::{opt_as_str, opt_text, same};

verus! {

// ---------------------------------------------------------------------------
// Where a message is, besides here
// ---------------------------------------------------------------------------
/// Which server knows a message.
#[derive(Clone, Copy, PartialEq, Eq, Structural)]
pub enum Remote {
    /// None: the message was sent from here and has not come back yet.
    Nowhere,
    Gmail,
    Imap,
}

/// The server that knows a message of an account.
pub open spec fn remote(provider: Seq<char>, name: Seq<char>) -> Remote {
    if local_sent(name) {
        Remote::Nowhere
    } else if provider == "gmail"@ {
        Remote::Gmail
    } else {
        Remote::Imap
    }
}

/// Computes [`remote`].
pub fn remote_of(provider: &str, provider_message_id: &str) -> (r: Remote)
    ensures
        r == remote(provider@, provider_message_id@),
{
    if is_local_sent_id(provider_message_id) {
        Remote::Nowhere
    } else if same(provider, "gmail") {
        Remote::Gmail
    } else {
        Remote::Imap
    }
}

/// What becomes of the row of a message.
pub enum RowChange {
    /// It goes.
    Delete,
    /// It goes to a folder, and gets another name where one is given.
    Refile { folder: &'static str, name: Option<String> },
}

/// The view of a [`RowChange`].
pub enum RowChangeView {
    Delete,
    Refile { folder: Seq<char>, name: Option<Seq<char>> },
}

impl View for RowChange {
    type V = RowChangeView;

    open spec fn view(&self) -> RowChangeView {
        match *self {
            RowChange::Delete => RowChangeView::Delete,
            RowChange::Refile { folder, name } => RowChangeView::Refile {
                folder: folder@,
                name: opt_text(name),
            },
        }
    }
}

// ---------------------------------------------------------------------------
// Deleting
// ---------------------------------------------------------------------------
/// Tells whether deleting a message in a folder is for good: it is in the trash.
pub fn deletion_is_permanent(folder: &str) -> (r: bool)
    ensures
        r == (folder@ == "Trash"@),
{
    same(folder, "Trash")
}

/// What becomes of the row of a message in a folder that was deleted. A row in
/// the trash goes; otherwise it goes to the trash, under the name that the message
/// has there. Where the message is somewhere on an IMAP server that is not known,
/// the row goes: the next sync finds the message.
pub open spec fn deleted_row(
    folder: Seq<char>,
    at: Remote,
    found: Option<LocationView>,
    lookup: Option<Seq<char>>,
) -> RowChangeView {
    if folder == "Trash"@ {
        RowChangeView::Delete
    } else if at == Remote::Imap {
        match found {
            Some(l) => RowChangeView::Refile {
                folder: "Trash"@,
                name: Some(provider_id(l.folder, l.uid, lookup)),
            },
            None => RowChangeView::Delete,
        }
    } else {
        RowChangeView::Refile { folder: "Trash"@, name: None }
    }
}

/// Computes [`deleted_row`]. `found` is where an IMAP message was found again,
/// `lookup` the message id by which it was.
pub fn row_after_delete(
    folder: &str,
    at: Remote,
    found: &Option<ImapMovedLocation>,
    lookup: &Option<String>,
) -> (r: RowChange)
    ensures
        r@ == deleted_row(folder@, at, opt_location(*found), opt_text(*lookup)),
{
    if deletion_is_permanent(folder) {
        return RowChange::Delete;
    }
    match at {
        Remote::Imap => match found {
            Some(l) => RowChange::Refile {
                folder: "Trash",
                name: Some(imap_provider_message_id(l.folder.as_str(), l.uid, opt_as_str(lookup))),
            },
            None => RowChange::Delete,
        },
        _ => RowChange::Refile { folder: "Trash", name: None },
    }
}

// ---------------------------------------------------------------------------
// Archiving
// ---------------------------------------------------------------------------
/// What there is to do to archive a message in a folder: nothing where it is
/// archived already.
pub open spec fn archiving(folder: Seq<char>, at: Remote) -> Result<Option<Remote>, Seq<char>> {
    if folder == "Archive"@ {
        Ok(None)
    } else if folder == "Trash"@ {
        Err("Restore the message before archiving it"@)
    } else {
        Ok(Some(at))
    }
}

/// Computes [`archiving`].
pub fn archive_plan(folder: &str, at: Remote) -> (r: Result<Option<Remote>, String>)
    ensures
        match r {
            Ok(plan) => archiving(folder@, at) == Ok::<Option<Remote>, Seq<char>>(plan),
            Err(e) => archiving(folder@, at) == Err::<Option<Remote>, Seq<char>>(e@),
        },
{
    if same(folder, "Archive") {
        Ok(None)
    } else if same(folder, "Trash") {
        Err("Restore the message before archiving it".to_owned())
    } else {
        Ok(Some(at))
    }
}

/// What becomes of the row of a message that was archived. A message on an IMAP
/// server has to be found again.
pub open spec fn archived_row(
    at: Remote,
    found: Option<LocationView>,
    header_id: Seq<char>,
) -> Result<RowChangeView, Seq<char>> {
    if at == Remote::Imap {
        match found {
            Some(l) => Ok(
                RowChangeView::Refile {
                    folder: "Archive"@,
                    name: Some(provider_id(l.folder, l.uid, nonblank(header_id))),
                },
            ),
            None => Err("No IMAP Archive folder accepted the message"@),
        }
    } else {
        Ok(RowChangeView::Refile { folder: "Archive"@, name: None })
    }
}

/// Computes [`archived_row`].
pub fn row_after_archive(
    at: Remote,
    found: &Option<ImapMovedLocation>,
    message_header_id: &str,
) -> (r: Result<RowChange, String>)
    ensures
        match r {
            Ok(change) => archived_row(at, opt_location(*found), message_header_id@) == Ok::<
                RowChangeView,
                Seq<char>,
            >(change@),
            Err(e) => archived_row(at, opt_location(*found), message_header_id@) == Err::<
                RowChangeView,
                Seq<char>,
            >(e@),
        },
{
    match at {
        Remote::Imap => match found {
            Some(l) => {
                let name = imap_provider_message_id(
                    l.folder.as_str(),
                    l.uid,
                    nonempty(message_header_id),
                );
                Ok(RowChange::Refile { folder: "Archive", name: Some(name) })
            },
            None => Err("No IMAP Archive folder accepted the message".to_owned()),
        },
        _ => Ok(RowChange::Refile { folder: "Archive", name: None }),
    }
}

// ---------------------------------------------------------------------------
// Marking as read
// ---------------------------------------------------------------------------
/// A change of the flags of a message on an IMAP server.
pub struct FlagCommand {
    pub folder: String,
    pub uid: u32,
    pub command: &'static str,
}

/// Folder, uid and command with which a message is marked as read or as unread,
/// or an error where its name is none of a message on an IMAP server.
pub open spec fn read_command(name: Seq<char>, is_read: bool) -> Result<
    (Seq<char>, u32, Seq<char>),
    Seq<char>,
> {
    match provider_parts(name) {
        Some((folder, uid, _)) => Ok(
            (
                folder,
                uid,
                if is_read {
                    "+FLAGS.SILENT (\\Seen)"@
                } else {
                    "-FLAGS.SILENT (\\Seen)"@
                },
            ),
        ),
        None => Err(no_uid_error()),
    }
}

/// Computes [`read_command`].
pub fn mark_imap_message_read(provider_message_id: &str, is_read: bool) -> (r: Result<
    FlagCommand,
    String,
>)
    ensures
        match r {
            Ok(c) => read_command(provider_message_id@, is_read) == Ok::<
                (Seq<char>, u32, Seq<char>),
                Seq<char>,
            >((c.folder@, c.uid, c.command@)),
            Err(e) => read_command(provider_message_id@, is_read) == Err::<
                (Seq<char>, u32, Seq<char>),
                Seq<char>,
            >(e@),
        },
{
    match parse_imap_provider_message_id(provider_message_id) {
        Ok((folder, uid, _)) => Ok(
            FlagCommand {
                folder,
                uid,
                command: if is_read {
                    "+FLAGS.SILENT (\\Seen)"
                } else {
                    "-FLAGS.SILENT (\\Seen)"
                },
            },
        ),
        Err(e) => Err(e),
    }
}

// ---------------------------------------------------------------------------
// Saving attachments
// ---------------------------------------------------------------------------
/// Where the bytes of an attachment come from.
pub enum AttachmentSource {
    /// They are stored.
    Stored(Vec<u8>),
    /// Gmail has them, under an id.
    Gmail(String),
}

/// Where the bytes of an attachment come from: the store where they are there,
/// else Gmail. What came over IMAP is stored or lost.
pub fn attachment_source(
    data: Option<Vec<u8>>,
    provider: &str,
    attachment_id: Option<String>,
) -> (r: Result<AttachmentSource, String>)
    ensures
        match r {
            Ok(AttachmentSource::Stored(bytes)) => data == Some(bytes),
            Ok(AttachmentSource::Gmail(id)) => data is None && provider@ == "gmail"@ && attachment_id
                == Some(id),
            Err(e) => data is None && (if provider@ == "gmail"@ {
                attachment_id is None && e@ == "Missing Gmail attachment id"@
            } else {
                e@ == "Attachment data was not stored locally. Sync the message again."@
            }),
        },
{
    match data {
        Some(bytes) => Ok(AttachmentSource::Stored(bytes)),
        None => if same(provider, "gmail") {
            match attachment_id {
                Some(id) => Ok(AttachmentSource::Gmail(id)),
                None => Err("Missing Gmail attachment id".to_owned()),
            }
        } else {
            Err("Attachment data was not stored locally. Sync the message again.".to_owned())
        },
    }
}

/// An error where no path to save to was selected.
pub fn check_save_path(path: &str) -> (r: Result<(), String>)
    ensures
        match r {
            Ok(()) => path@.len() > 0,
            Err(e) => path@.len() == 0 && e@ == "No save path selected"@,
        },
{
    if path.is_empty() {
        Err("No save path selected".to_owned())
    } else {
        Ok(())
    }
}

// ---------------------------------------------------------------------------
// Laws
// ---------------------------------------------------------------------------
/// Law: a message that was sent from here and has not come back is on no server,
/// whatever the account, and keeps its name when it is deleted or archived.
pub proof fn local_messages_stay_local(
    provider: Seq<char>,
    name: Seq<char>,
    found: Option<LocationView>,
    lookup: Option<Seq<char>>,
    header_id: Seq<char>,
)
    requires
        local_sent(name),
    ensures
        remote(provider, name) == Remote::Nowhere,
        forall|folder: Seq<char>|
            folder != "Trash"@ ==> #[trigger] deleted_row(folder, remote(provider, name), found, lookup)
                == (RowChangeView::Refile { folder: "Trash"@, name: None }),
        archived_row(remote(provider, name), found, header_id) == Ok::<RowChangeView, Seq<char>>(
            RowChangeView::Refile { folder: "Archive"@, name: None },
        ),
{
}

/// Law: deleting a message takes it to the trash or away, and deleting it again
/// takes it away.
pub proof fn second_deletion_is_final(
    folder: Seq<char>,
    at: Remote,
    found: Option<LocationView>,
    lookup: Option<Seq<char>>,
    again: Option<LocationView>,
)
    ensures
        match deleted_row(folder, at, found, lookup) {
            RowChangeView::Delete => true,
            RowChangeView::Refile { folder: trash, .. } => deleted_row(trash, at, again, lookup)
                == RowChangeView::Delete,
        },
{
}

/// Law: a message that was archived is archived: there is nothing to do then.
pub proof fn archived_messages_stay_archived(
    at: Remote,
    found: Option<LocationView>,
    header_id: Seq<char>,
    later: Remote,
)
    ensures
        match archived_row(at, found, header_id) {
            Ok(RowChangeView::Refile { folder, .. }) => archiving(folder, later) == Ok::<
                Option<Remote>,
                Seq<char>,
            >(None),
            Ok(RowChangeView::Delete) => false,
            Err(_) => at == Remote::Imap && found is None,
        },
{
}

/// Law: a message that did not stay here is on the server of its account.
pub proof fn messages_are_on_the_server_of_their_account(provider: Seq<char>, name: Seq<char>)
    requires
        !local_sent(name),
    ensures
        remote("gmail"@, name) == Remote::Gmail,
        provider != "gmail"@ ==> remote(provider, name) == Remote::Imap,
{
}

/// Law: what is deleted goes to the trash, and what is in the trash goes for good. A
/// message on an IMAP server is named by where it was found, and its row goes where it
/// was not found.
pub proof fn deleted_messages_go_to_the_trash(
    folder: Seq<char>,
    at: Remote,
    place: Seq<char>,
    uid: u32,
    id: Option<Seq<char>>,
)
    requires
        folder != "Trash"@,
    ensures
        deleted_row("Trash"@, at, None, id) == RowChangeView::Delete,
        deleted_row("Trash"@, at, Some(LocationView { folder: place, uid }), id)
            == RowChangeView::Delete,
        deleted_row(folder, Remote::Gmail, None, id) == (RowChangeView::Refile {
            folder: "Trash"@,
            name: None,
        }),
        deleted_row(folder, Remote::Imap, None, id) == RowChangeView::Delete,
        deleted_row(folder, Remote::Imap, Some(LocationView { folder: place, uid }), id) == (
        RowChangeView::Refile { folder: "Trash"@, name: Some(provider_id(place, uid, id)) }),
{
}

/// Law: what is archived goes to the archive, from any folder but the trash. A
/// message on an IMAP server is named by where it was found and by its message id, and
/// it is an error where it was not found.
pub proof fn archived_messages_go_to_the_archive(
    folder: Seq<char>,
    at: Remote,
    place: Seq<char>,
    uid: u32,
    id: Seq<char>,
)
    ensures
        folder != "Archive"@ && folder != "Trash"@ ==> archiving(folder, at) == Ok::<
            Option<Remote>,
            Seq<char>,
        >(Some(at)),
        archiving("Trash"@, at) is Err,
        archived_row(Remote::Gmail, None, id) == Ok::<RowChangeView, Seq<char>>(
            RowChangeView::Refile { folder: "Archive"@, name: None },
        ),
        archived_row(Remote::Imap, None, id) is Err,
        archived_row(Remote::Imap, Some(LocationView { folder: place, uid }), id) == Ok::<
            RowChangeView,
            Seq<char>,
        >(
            RowChangeView::Refile {
                folder: "Archive"@,
                name: Some(provider_id(place, uid, Some(id))),
            },
        ),
{
    reveal_strlit("Trash");
    reveal_strlit("Archive");
    assert("Trash"@ != "Archive"@) by {
        assert("Trash"@.len() != "Archive"@.len());
    }
}

/// Law: a message is marked in the folder and under the uid that its name holds; to
/// mark it as read adds the flag, and to mark it as unread takes the flag away. A colon
/// in the folder ends the folder early, so such folders are left out.
pub proof fn marks_set_and_clear_the_flag(folder: Seq<char>, uid: u32, id: Option<Seq<char>>)
    requires
        lacks(folder, ':'),
    ensures
        read_command(provider_id(folder, uid, id), true) == Ok::<
            (Seq<char>, u32, Seq<char>),
            Seq<char>,
        >((folder, uid, "+FLAGS.SILENT (\\Seen)"@)),
        read_command(provider_id(folder, uid, id), false) == Ok::<
            (Seq<char>, u32, Seq<char>),
            Seq<char>,
        >((folder, uid, "-FLAGS.SILENT (\\Seen)"@)),
{
    names_are_read_back(folder, uid, id);
}

} // verus!
