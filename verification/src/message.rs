//! Messages as they are stored.
use vstd::prelude::*;

use crate::text::opt_text;

verus! {

/// A file that came with a message. Its bytes are at hand, or they are fetched
/// when they are asked for.
pub struct NewAttachment {
    pub provider_attachment_id: Option<String>,
    pub filename: String,
    pub mime_type: String,
    pub size: i64,
    pub data: Option<Vec<u8>>,
}

/// The view of a [`NewAttachment`].
pub struct AttachmentView {
    pub provider_attachment_id: Option<Seq<char>>,
    pub filename: Seq<char>,
    pub mime_type: Seq<char>,
    pub size: i64,
    pub data: Option<Seq<u8>>,
}

impl View for NewAttachment {
    type V = AttachmentView;

    open spec fn view(&self) -> AttachmentView {
        AttachmentView {
            provider_attachment_id: opt_text(self.provider_attachment_id),
            filename: self.filename@,
            mime_type: self.mime_type@,
            size: self.size,
            data: match self.data {
                Some(d) => Some(d@),
                None => None,
            },
        }
    }
}

/// The views of a list of attachments.
pub open spec fn attachment_views(list: Seq<NewAttachment>) -> Seq<AttachmentView> {
    Seq::new(list.len(), |i: int| list[i]@)
}

/// A message as it goes into the store.
pub struct NewMessage {
    pub provider_message_id: String,
    pub thread_id: String,
    pub message_header_id: String,
    pub in_reply_to: String,
    pub references_header: String,
    pub normalized_subject: String,
    pub folder: String,
    pub subject: String,
    pub from_addr: String,
    pub to_addr: String,
    pub cc_addr: String,
    pub date_ts: i64,
    pub snippet: String,
    pub body: String,
    pub body_mime: String,
    pub is_read: bool,
    pub attachments: Vec<NewAttachment>,
}

/// The view of a [`NewMessage`].
pub struct MessageView {
    pub provider_message_id: Seq<char>,
    pub thread_id: Seq<char>,
    pub message_header_id: Seq<char>,
    pub in_reply_to: Seq<char>,
    pub references_header: Seq<char>,
    pub normalized_subject: Seq<char>,
    pub folder: Seq<char>,
    pub subject: Seq<char>,
    pub from_addr: Seq<char>,
    pub to_addr: Seq<char>,
    pub cc_addr: Seq<char>,
    pub date_ts: i64,
    pub snippet: Seq<char>,
    pub body: Seq<char>,
    pub body_mime: Seq<char>,
    pub is_read: bool,
    pub attachments: Seq<AttachmentView>,
}

impl View for NewMessage {
    type V = MessageView;

    open spec fn view(&self) -> MessageView {
        MessageView {
            provider_message_id: self.provider_message_id@,
            thread_id: self.thread_id@,
            message_header_id: self.message_header_id@,
            in_reply_to: self.in_reply_to@,
            references_header: self.references_header@,
            normalized_subject: self.normalized_subject@,
            folder: self.folder@,
            subject: self.subject@,
            from_addr: self.from_addr@,
            to_addr: self.to_addr@,
            cc_addr: self.cc_addr@,
            date_ts: self.date_ts,
            snippet: self.snippet@,
            body: self.body@,
            body_mime: self.body_mime@,
            is_read: self.is_read,
            attachments: attachment_views(self.attachments@),
        }
    }
}

/// The views of a list of messages.
pub open spec fn message_views(list: Seq<NewMessage>) -> Seq<MessageView> {
    Seq::new(list.len(), |i: int| list[i]@)
}

} // verus!
