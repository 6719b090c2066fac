//! What the user interface hands to each command.
use vstd::prelude::*;

use crate::model::{AccountId, AttachmentRef, DraftId, DraftInput, FolderId, MessageId};

verus! {

/// How a list is sorted.
#[derive(Debug, Clone, Copy, PartialEq, Eq, Structural)]
pub enum SortOrder {
    DateDesc,
    DateAsc,
}

/// Selects a page of a folder.
#[derive(Debug, PartialEq, Eq)]
pub struct MessagesListInput {
    pub folder: FolderId,
    pub limit: u32,
    pub offset: u32,
    pub sort: SortOrder,
}

/// Selects a page of all inboxes.
#[derive(Debug, PartialEq, Eq)]
pub struct MessagesListUnifiedInput {
    pub limit: u32,
    pub offset: u32,
    pub sort: SortOrder,
}

/// A search in all mail.
#[derive(Debug, PartialEq, Eq)]
pub struct MessagesSearchInput {
    pub query: String,
    pub limit: u32,
    pub offset: u32,
}

/// A message to show. `force_trusted` lets remote content through this once.
#[derive(Debug, PartialEq, Eq)]
pub struct MessagesGetInput {
    pub id: MessageId,
    pub force_trusted: bool,
}

/// A sender whose remote content is let through from now on.
#[derive(Debug, PartialEq, Eq)]
pub struct MessagesTrustSenderInput {
    pub account_id: AccountId,
    pub email_address: String,
}

/// A part of a message to save and open.
#[derive(Debug, PartialEq, Eq)]
pub struct MessagesOpenAttachmentInput {
    pub message_id: MessageId,
    pub attachment_id: AttachmentRef,
}

/// Messages to mark as read, or as unread.
#[derive(Debug, PartialEq, Eq)]
pub struct MessagesMarkReadInput {
    pub ids: Vec<MessageId>,
    pub seen: bool,
}

/// Messages to flag, or to unflag.
#[derive(Debug, PartialEq, Eq)]
pub struct MessagesFlagInput {
    pub ids: Vec<MessageId>,
    pub flagged: bool,
}

/// Messages to move into a folder.
#[derive(Debug, PartialEq, Eq)]
pub struct MessagesMoveInput {
    pub ids: Vec<MessageId>,
    pub target: FolderId,
}

/// Messages to archive.
#[derive(Debug, PartialEq, Eq)]
pub struct MessagesArchiveInput {
    pub ids: Vec<MessageId>,
}

/// Messages to delete.
#[derive(Debug, PartialEq, Eq)]
pub struct MessagesDeleteInput {
    pub ids: Vec<MessageId>,
}

/// A draft to send.
#[derive(Debug, PartialEq, Eq)]
pub struct MessagesSendInput {
    pub draft_id: DraftId,
}

/// A folder whose older messages are wanted.
#[derive(Debug, PartialEq, Eq)]
pub struct MessagesLoadOlderInput {
    pub folder: FolderId,
    pub limit: u32,
}

/// A folder to sync now.
#[derive(Debug, PartialEq, Eq)]
pub struct MessagesRefreshFolderInput {
    pub folder: FolderId,
}

/// A message to open in a window of its own.
#[derive(Debug, PartialEq, Eq)]
pub struct MessagesOpenInWindowInput {
    pub id: MessageId,
}

/// A draft to save.
#[derive(Debug, PartialEq, Eq)]
pub struct DraftsSaveInput {
    pub draft: DraftInput,
}

/// A draft to load.
#[derive(Debug, PartialEq, Eq)]
pub struct DraftsLoadInput {
    pub id: DraftId,
}

/// An account whose drafts are listed.
#[derive(Debug, PartialEq, Eq)]
pub struct DraftsListInput {
    pub account_id: AccountId,
}

/// A draft to delete.
#[derive(Debug, PartialEq, Eq)]
pub struct DraftsDeleteInput {
    pub id: DraftId,
}

/// A new display name for an account.
#[derive(Debug, PartialEq, Eq)]
pub struct AccountsSetDisplayNameInput {
    pub id: AccountId,
    pub display_name: String,
}

/// A new signature for an account; none, or the empty text, clears it.
#[derive(Debug, PartialEq, Eq)]
pub struct AccountsSetSignatureInput {
    pub id: AccountId,
    pub signature: Option<String>,
}

/// Whether an account's new mail is announced.
#[derive(Debug, PartialEq, Eq)]
pub struct AccountsSetNotifyEnabledInput {
    pub id: AccountId,
    pub enabled: bool,
}

/// The provider and the address of an account to add.
#[derive(Debug, PartialEq, Eq)]
pub struct AccountsAddOauthInput {
    pub provider: String,
    pub email: String,
}

/// An account to remove.
#[derive(Debug, PartialEq, Eq)]
pub struct AccountsRemoveInput {
    pub id: AccountId,
}

/// How the file picker is titled.
#[derive(Debug, PartialEq, Eq)]
pub struct ComposePickAttachmentsInput {
    pub title: Option<String>,
}

/// What contacts are looked up by.
#[derive(Debug, PartialEq, Eq)]
pub struct ContactsQueryInput {
    pub prefix: String,
    pub limit: u32,
}

/// An account whose folders are listed.
#[derive(Debug, PartialEq, Eq)]
pub struct FoldersListInput {
    pub account: AccountId,
}

/// A folder whose history is pulled.
#[derive(Debug, PartialEq, Eq)]
pub struct HistorySyncStartInput {
    pub account: AccountId,
    pub folder: FolderId,
}

/// A folder whose history is no longer pulled.
#[derive(Debug, PartialEq, Eq)]
pub struct HistorySyncCancelInput {
    pub account: AccountId,
    pub folder: FolderId,
}

/// An account whose history jobs are listed.
#[derive(Debug, PartialEq, Eq)]
pub struct HistorySyncListInput {
    pub account: AccountId,
}

/// A line of the user interface's log.
#[derive(Debug, PartialEq, Eq)]
pub struct UiLogInput {
    pub level: String,
    pub target: String,
    pub message: String,
}

/// A link that was clicked.
#[derive(Debug, PartialEq, Eq)]
pub struct OpenExternalUrlInput {
    pub url: String,
}

/// A setting to read.
#[derive(Debug, PartialEq, Eq)]
pub struct AppSettingsGetInput {
    pub key: String,
}

/// A setting to write.
#[derive(Debug, PartialEq, Eq)]
pub struct AppSettingsSetInput {
    pub key: String,
    pub value: String,
}

/// An OAuth provider that can be chosen.
#[derive(Debug, PartialEq, Eq)]
pub struct OauthProviderInfo {
    pub slug: String,
    pub name: String,
}

} // verus!
