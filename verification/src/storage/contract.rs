//! What the storage contract owes, whatever the backend: the records of a
//! store as a mathematical value, and the reply that is owed for each
//! call.

use crate::models::ident::PromptId;
use crate::models::prompt::PromptView;
use crate::storage::{StorageCallView, StorageReplyView};
use vstd::prelude::*;

verus! {

/// The records of a store: at most one prompt under each identifier.
pub struct Records {
    pub prompts: Map<PromptId, PromptView>,
}

impl Records {
    /// The store without records.
    pub open spec fn empty() -> Records {
        Records { prompts: Map::empty() }
    }

    /// Every prompt stands under the identifier that it carries.
    pub open spec fn well_formed(self) -> bool {
        forall|id: PromptId| #[trigger] self.prompts.contains_key(id) ==> self.prompts[id].id == id
    }

    /// Whether there is a record under the identifier.
    pub open spec fn holds(self, id: PromptId) -> bool {
        self.prompts.contains_key(id)
    }

    /// The record under the identifier, if there is one.
    pub open spec fn get(self, id: PromptId) -> Option<PromptView> {
        if self.prompts.contains_key(id) {
            Some(self.prompts[id])
        } else {
            None
        }
    }

    /// The records after a save: the prompt stands under its identifier,
    /// in place of what stood there, and every other record is as it was.
    pub open spec fn save(self, prompt: PromptView) -> Records {
        Records { prompts: self.prompts.insert(prompt.id, prompt) }
    }

    /// The records after a removal: nothing stands under the identifier,
    /// and every other record is as it was.
    pub open spec fn delete(self, id: PromptId) -> Records {
        Records { prompts: self.prompts.remove(id) }
    }

    /// Whether a list holds every record once, and nothing else. The order
    /// is the backend's.
    pub open spec fn lists(self, listed: Seq<PromptView>) -> bool {
        &&& listed.no_duplicates()
        &&& forall|i: int|
            0 <= i < listed.len() ==> self.get((#[trigger] listed[i]).id) == Some(listed[i])
        &&& forall|id: PromptId| #[trigger]
            self.prompts.contains_key(id) ==> listed.contains(self.prompts[id])
    }
}

/// The reply that the contract owes for a call on a store with the given
/// records, `listed` being the list that a listing returns. A record that
/// is absent is reported in the reply, and is no failure.
pub open spec fn reply_owed(
    records: Records,
    call: StorageCallView,
    listed: Seq<PromptView>,
) -> StorageReplyView {
    match call {
        StorageCallView::List => StorageReplyView::Listed { result: Ok(listed) },
        StorageCallView::Get { id } => StorageReplyView::Found { result: Ok(records.get(id)) },
        StorageCallView::Save { prompt } => StorageReplyView::Saved { result: Ok(()) },
        StorageCallView::Delete { id } => StorageReplyView::Deleted {
            result: Ok(records.holds(id)),
        },
    }
}

/// Whether a reply is one that the contract owes for a call on a store
/// with the given records: the reply that is owed with some list that holds
/// every record once.
pub open spec fn is_owed(records: Records, call: StorageCallView, reply: StorageReplyView) -> bool {
    match reply {
        StorageReplyView::Listed { result: Ok(listed) } => records.lists(listed) && reply
            == reply_owed(records, call, listed),
        _ => reply == reply_owed(records, call, Seq::empty()),
    }
}

/// The records that a call leaves behind.
pub open spec fn records_after(records: Records, call: StorageCallView) -> Records {
    match call {
        StorageCallView::Save { prompt } => records.save(prompt),
        StorageCallView::Delete { id } => records.delete(id),
        _ => records,
    }
}

/// A prompt that was saved is the record under its identifier, whatever
/// stood there before; the record of every other identifier is as it was.
pub proof fn law_save(records: Records, prompt: PromptView, other: PromptId)
    requires
        other != prompt.id,
    ensures
        records.save(prompt).get(prompt.id) == Some(prompt),
        records.save(prompt).get(other) == records.get(other),
        records.save(prompt).save(prompt) == records.save(prompt),
        records.well_formed() ==> records.save(prompt).well_formed(),
{
    assert(records.save(prompt).save(prompt).prompts =~= records.save(prompt).prompts);
}

/// After a removal there is no record under the identifier, and a second
/// removal finds none; the removal of a record that does not exist changes
/// nothing.
pub proof fn law_delete(records: Records, id: PromptId)
    ensures
        records.delete(id).get(id) is None,
        !records.delete(id).holds(id),
        !records.holds(id) ==> records.delete(id) == records,
        records.well_formed() ==> records.delete(id).well_formed(),
{
    if !records.holds(id) {
        assert(records.delete(id).prompts =~= records.prompts);
    }
}

/// A list of the empty store is empty.
pub proof fn law_list_of_nothing(listed: Seq<PromptView>)
    requires
        Records::empty().lists(listed),
    ensures
        listed.len() == 0,
{
    if listed.len() > 0 {
        assert(Records::empty().get(listed[0].id) == Some(listed[0]));
    }
}

/// Two lists of one store hold the same prompts, in whatever order: as
/// many, and each of them.
pub proof fn law_lists_agree(records: Records, left: Seq<PromptView>, right: Seq<PromptView>)
    requires
        records.lists(left),
        records.lists(right),
    ensures
        left.len() == right.len(),
        left.to_set() == right.to_set(),
{
    assert(left.to_set() =~= right.to_set()) by {
        assert forall|prompt: PromptView| left.to_set().contains(prompt) == right.to_set().contains(
            prompt,
        ) by {
            if left.contains(prompt) {
                let i = choose|i: int| 0 <= i < left.len() && left[i] == prompt;
                assert(records.get(left[i].id) == Some(left[i]));
                assert(right.contains(records.prompts[prompt.id]));
            }
            if right.contains(prompt) {
                let i = choose|i: int| 0 <= i < right.len() && right[i] == prompt;
                assert(records.get(right[i].id) == Some(right[i]));
                assert(left.contains(records.prompts[prompt.id]));
            }
        }
    }
    left.unique_seq_to_set();
    right.unique_seq_to_set();
}

} // verus!
