//! Message shapes that the mail client renders, as the external folder
//! fills them.

use vstd::prelude::*;

verus! {

/// A named mail address.
#[derive(Debug, Clone)]
pub struct AddressEntry {
    pub name: String,
    pub address: String,
}

/// A message of the same thread, shown below the opened one.
#[derive(Debug, Clone)]
pub struct ThreadMessage {
    pub uid: u32,
    pub subject: String,
    pub from_name: String,
    pub date: String,
}

/// An attachment listed with a message.
#[derive(Debug, Clone)]
pub struct AttachmentInfo {
    pub filename: String,
    pub content_type: String,
    pub size: u64,
}

/// One row of a folder listing.
#[derive(Debug, Clone)]
pub struct MessageSummary {
    pub uid: u32,
    pub folder_id: String,
    pub folder_name: String,
    pub subject: String,
    pub from_address: String,
    pub from_name: String,
    pub to_addresses: String,
    pub date: String,
    pub flags: String,
    pub size: u64,
    pub has_attachments: bool,
    pub snippet: String,
    pub reaction: Option<String>,
    pub tags: Vec<String>,
    pub thread_count: u32,
    pub unread_count: u32,
}

/// A page of a folder listing.
#[derive(Debug)]
pub struct ListMessagesResponse {
    pub messages: Vec<MessageSummary>,
    pub total_count: u32,
    pub page: u32,
    pub per_page: u32,
    pub syncing: bool,
}

/// A single opened message.
#[derive(Debug)]
pub struct MessageDetailResponse {
    pub uid: u32,
    pub folder_id: String,
    pub folder_name: String,
    pub subject: String,
    pub from_address: String,
    pub from_name: String,
    pub to_addresses: Vec<AddressEntry>,
    pub cc_addresses: Vec<AddressEntry>,
    pub date: String,
    pub flags: Vec<String>,
    pub has_attachments: bool,
    pub html: Option<String>,
    pub text: Option<String>,
    pub raw_headers: String,
    pub attachments: Vec<AttachmentInfo>,
    pub thread: Vec<ThreadMessage>,
    pub email_theme: Option<String>,
    pub pgp_status: Option<String>,
}

} // verus!
