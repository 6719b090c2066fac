//! Saving drafts: what is kept here, and what is copied to the server.
use vstd::prelude::*;

use crate::model;
use crate::model::{AccountId, Draft, DraftId, DraftInput};
use crate::outbox;
use crate::outbox::{RawMessage, raw_message};

verus! {

/// The moment at which a draft was made: kept for a draft that is known.
pub open spec fn draft_created(known: Option<i64>, now: i64) -> i64 {
    match known {
        Some(t) => t,
        None => now,
    }
}

/// The row of a draft that is saved at the moment `now`. `known` is when the
/// draft with this id was made, where there is one; `new_id` is used where the
/// draft has no id.
pub fn saved_draft(draft: DraftInput, known: Option<i64>, new_id: DraftId, now: i64) -> (r: Draft)
    ensures
        r.id@ == match model::opt_draft(draft.id) {
            Some(id) => id,
            None => new_id@,
        },
        r.created_at == if draft.id is Some {
            draft_created(known, now)
        } else {
            now
        },
        r.updated_at == now,
        r.account_id == draft.account_id,
        r.in_reply_to == draft.in_reply_to,
        r.references == draft.references,
        r.to == draft.to,
        r.cc == draft.cc,
        r.bcc == draft.bcc,
        r.subject == draft.subject,
        r.body == draft.body,
        r.body_kind == draft.body_kind,
        r.attachments == draft.attachments,
{
    let (id, created_at) = match draft.id {
        Some(id) => (
            id,
            match known {
                Some(t) => t,
                None => now,
            },
        ),
        None => (new_id, now),
    };
    Draft {
        id,
        account_id: draft.account_id,
        in_reply_to: draft.in_reply_to,
        references: draft.references,
        to: draft.to,
        cc: draft.cc,
        bcc: draft.bcc,
        subject: draft.subject,
        body: draft.body,
        body_kind: draft.body_kind,
        attachments: draft.attachments,
        created_at,
        updated_at: now,
    }
}

/// Saving a draft again keeps the moment at which it was made.
pub proof fn law_saving_again_keeps_creation(first: i64, later: i64)
    ensures
        draft_created(Some(draft_created(None, first)), later) == first,
{
}

/// Is a draft copied to the server? Only once it names a recipient.
pub fn wants_upload(draft: &Draft) -> (r: bool)
    ensures
        r == (draft.to@.len() > 0 || draft.cc@.len() > 0 || draft.bcc@.len() > 0),
{
    draft.to.len() > 0 || draft.cc.len() > 0 || draft.bcc.len() > 0
}

/// A copy of a draft that waits for the server. A newer copy with the same key
/// takes its place.
#[derive(Debug, PartialEq, Eq)]
pub struct DraftUpload {
    pub account: AccountId,
    pub message: RawMessage,
    pub dedup_key: String,
}

/// The copy of a draft for the server. There is none while the draft names no
/// recipient, where the account is gone, or where no message could be built.
pub fn draft_upload(draft: &Draft, account_known: bool, built: &Option<Vec<u8>>) -> (r: Option<
    DraftUpload,
>)
    ensures
        match r {
            Some(u) => {
                &&& draft.to@.len() > 0 || draft.cc@.len() > 0 || draft.bcc@.len() > 0
                &&& account_known
                &&& *built is Some
                &&& u.account == draft.account_id
                &&& u.message.reference@ == draft.id@
                &&& u.message.raw_b64@ == outbox::base64_text(built->0@)
                &&& u.dedup_key@ == draft.id@
            },
            None => {
                ||| draft.to@.len() == 0 && draft.cc@.len() == 0 && draft.bcc@.len() == 0
                ||| !account_known
                ||| *built is None
            },
        },
{
    if !wants_upload(draft) || !account_known {
        return None;
    }
    match built {
        Some(bytes) => Some(
            DraftUpload {
                account: draft.account_id.clone(),
                message: raw_message(&draft.id.0, bytes),
                dedup_key: draft.id.0.clone(),
            },
        ),
        None => None,
    }
}

/// A draft that is known keeps the moment at which it was made, however often
/// it is saved; one that is not is made now.
pub proof fn law_creation_is_never_moved(known: i64, now: i64)
    ensures
        draft_created(Some(known), now) == known,
        draft_created(None, now) == now,
{
}

} // verus!
