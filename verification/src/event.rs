//! Events that carry the channel's name and look their sender up among users
//! who each hold their own identities.

use crate::strmap::StrMap;
use crate::user::{User, UserView};
use vstd::prelude::*;

verus! {

/// The kinds of event.
#[derive(Debug)]
pub enum EventType {
    Message,
}

/// An inbound message, with the name of the channel that it came from.
#[derive(Debug)]
pub struct Event {
    pub kind: EventType,
    pub from_user: Option<User>,
    pub text: String,
    pub is_public: bool,
    pub was_targeted: bool,
    pub from_address: String,
    pub conversation_address: String,
    /// The name of the channel that the event came from, by which the hub
    /// finds the channel again for a reply.
    pub from_channel_name: String,
}

/// Whether the channel knows the user under the address.
pub open spec fn has_identity(u: UserView, channel: Seq<char>, address: Seq<char>) -> bool {
    u.identities.contains_key(channel) && u.identities[channel] == address
}

/// Whether the user filed under `k` is known to the channel under the
/// address.
pub open spec fn is_sender(
    users: Map<Seq<char>, User>,
    k: Seq<char>,
    channel: Seq<char>,
    address: Seq<char>,
) -> bool {
    users.contains_key(k) && has_identity(users[k]@, channel, address)
}

impl Event {
    /// Looks the sender up: where some user is known to the event's channel
    /// under the event's sender address, one such user becomes the event's
    /// user; where none is, the event stays as it is.
    pub fn ensure_complete(&mut self, users: &StrMap<User>)
        requires
            users.wf(),
            forall|k: Seq<char>| #[trigger] users@.contains_key(k) ==> users@[k].wf(),
        ensures
            final(self).kind == old(self).kind,
            final(self).text == old(self).text,
            final(self).is_public == old(self).is_public,
            final(self).was_targeted == old(self).was_targeted,
            final(self).from_address == old(self).from_address,
            final(self).conversation_address == old(self).conversation_address,
            final(self).from_channel_name == old(self).from_channel_name,
            (exists|k: Seq<char>|
                is_sender(users@, k, old(self).from_channel_name@, old(self).from_address@)) ==> {
                &&& final(self).from_user.is_some()
                &&& final(self).from_user.unwrap().wf()
                &&& exists|k: Seq<char>|
                    is_sender(users@, k, old(self).from_channel_name@, old(self).from_address@)
                        && final(self).from_user.unwrap()@ == users@[k]@
            },
            !(exists|k: Seq<char>|
                is_sender(users@, k, old(self).from_channel_name@, old(self).from_address@))
                ==> final(self).from_user == old(self).from_user,
    {
        let ghost channel = self.from_channel_name@;
        let ghost address = self.from_address@;
        let n = users.len();
        let mut i: usize = 0;
        while i < n
            invariant
                users.wf(),
                forall|k: Seq<char>| #[trigger] users@.contains_key(k) ==> users@[k].wf(),
                n == users.key_seq().len(),
                i <= n,
                *self == *old(self),
                channel == self.from_channel_name@,
                address == self.from_address@,
                forall|j: int|
                    0 <= j < i ==> !is_sender(users@, #[trigger] users.key_seq()[j], channel, address),
            decreases n - i,
        {
            let u = users.value_at(i);
            let found = match u.identities.get(self.from_channel_name.as_str()) {
                Some(val) => crate::strmap::same_text(val.as_str(), self.from_address.as_str()),
                None => false,
            };
            assert(found == is_sender(users@, users.key_seq()[i as int], channel, address));
            if found {
                self.from_user = Some(u.clone());
                return ;
            }
            i += 1;
        }
        proof {
            users.lemma_key_seq();
            assert forall|k: Seq<char>| !is_sender(users@, k, channel, address) by {
                if users@.contains_key(k) {
                    assert(users.key_seq().contains(k));
                    let j = choose|j: int| 0 <= j < users.key_seq().len() && users.key_seq()[j] == k;
                    assert(!is_sender(users@, users.key_seq()[j], channel, address));
                }
            }
        }
    }
}

} // verus!
