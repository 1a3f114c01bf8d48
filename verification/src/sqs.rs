//! Receiving webhook posts through an AWS SQS queue.

use vstd::prelude::*;

use crate::text::{decimal, decimal_string};

verus! {

/// One entry of a batch request deleting received messages from the queue.
#[derive(Clone, Debug)]
pub struct DeleteEntry {
    /// Id of the entry within the batch.
    pub id: String,
    pub receipt_handle: String,
}

/// The receipt handles among `handles` that are present, in order.
pub open spec fn present_handles(handles: Seq<Option<String>>) -> Seq<String>
    decreases handles.len(),
{
    if handles.len() == 0 {
        seq![]
    } else {
        present_handles(handles.drop_last()) + (match handles.last() {
            Some(h) => seq![h],
            None => seq![],
        })
    }
}

/// The entries that delete received messages, given their receipt handles:
/// messages without a handle are skipped, and the entries are numbered from
/// zero in decimal.
pub fn delete_batch_entries(handles: &[Option<String>]) -> (r: Vec<DeleteEntry>)
    ensures
        r@.len() == present_handles(handles@).len(),
        forall|k: int| #![trigger r@[k]] 0 <= k < r@.len() ==> r@[k].id@ == decimal(k as nat)
            && r@[k].receipt_handle == present_handles(handles@)[k],
{
    let mut r: Vec<DeleteEntry> = Vec::new();
    let mut i: usize = 0;
    while i < handles.len()
        invariant
            i <= handles@.len(),
            r@.len() == present_handles(handles@.subrange(0, i as int)).len(),
            r@.len() <= i,
            forall|k: int| #![trigger r@[k]] 0 <= k < r@.len() ==> r@[k].id@ == decimal(k as nat)
                && r@[k].receipt_handle == present_handles(handles@.subrange(0, i as int))[k],
        decreases handles@.len() - i,
    {
        let ghost pre = handles@.subrange(0, i as int);
        let ghost post = handles@.subrange(0, i + 1);
        proof {
            assert(post.drop_last() == pre);
        }
        match &handles[i] {
            Some(h) => {
                let n = r.len();
                let ghost old_r = r@;
                r.push(DeleteEntry { id: decimal_string(n as u64), receipt_handle: h.clone() });
                proof {
                    assert(present_handles(post) == present_handles(pre).push(*h));
                    assert forall|k: int| #![trigger r@[k]] 0 <= k < r@.len() implies r@[k].id@ == decimal(k as nat)
                        && r@[k].receipt_handle == present_handles(post)[k] by {
                        if k < n {
                            assert(r@[k] == old_r[k]);
                            assert(present_handles(post)[k] == present_handles(pre)[k]);
                        } else {
                            assert(k == n);
                            assert(r@[k].id@ == decimal(n as nat));
                            assert(r@[k].receipt_handle == *h);
                        }
                    }
                }
            },
            None => {
                assert(present_handles(post) == present_handles(pre));
                assert forall|k: int| #![trigger r@[k]] 0 <= k < r@.len() implies r@[k].id@ == decimal(k as nat)
                    && r@[k].receipt_handle == present_handles(post)[k] by {
                    assert(present_handles(post)[k] == present_handles(pre)[k]);
                }
            },
        }
        proof {
            assert(handles@.subrange(0, i + 1) == post);
        }
        i = i + 1;
    }
    assert(handles@.subrange(0, handles@.len() as int) == handles@);
    r
}

} // verus!
