//! The short history of notifications that a late subscriber is shown first.
use vstd::prelude::*;
use crate::types::Notification;

verus! {

/// How many notifications the backlog keeps.
pub const BACKLOG_CAPACITY: usize = 32;

/// The last `n` elements of `s` (all of them when it is shorter).
pub open spec fn last_n(s: Seq<Notification>, n: nat) -> Seq<Notification> {
    if s.len() <= n {
        s
    } else {
        s.subrange(s.len() - n, s.len() as int)
    }
}

/// The most recent notifications, oldest first, at most `capacity` of them.
pub struct NotificationBacklog {
    items: Vec<Notification>,
    capacity: usize,
}

impl NotificationBacklog {
    /// The notifications kept, oldest first.
    pub closed spec fn kept(&self) -> Seq<Notification> {
        self.items@
    }

    /// How many notifications are kept at most.
    pub closed spec fn capacity(&self) -> nat {
        self.capacity as nat
    }

    /// Never more kept than the capacity.
    pub closed spec fn wf(&self) -> bool {
        self.items@.len() <= self.capacity
    }

    /// A backlog that keeps at most `capacity` notifications.
    pub fn new(capacity: usize) -> (r: NotificationBacklog)
        ensures
            r.wf(),
            r.kept() == Seq::<Notification>::empty(),
            r.capacity() == capacity,
    {
        NotificationBacklog { items: Vec::new(), capacity }
    }

    /// Records a notification, forgetting the oldest one when full.
    pub fn record(&mut self, n: Notification)
        requires
            old(self).wf(),
        ensures
            final(self).wf(),
            final(self).capacity() == old(self).capacity(),
            final(self).kept() == last_n(old(self).kept().push(n), old(self).capacity()),
            final(self).kept().len() <= final(self).capacity(),
    {
        if self.capacity == 0 {
            proof {
                assert(self.items@ =~= last_n(old(self).kept().push(n), 0));
            }
            return;
        }
        if self.items.len() >= self.capacity {
            self.items.remove(0);
        }
        self.items.push(n);
        proof {
            let all = old(self).kept().push(n);
            if all.len() > old(self).capacity() {
                assert(self.items@ =~= all.subrange(all.len() - old(self).capacity(), all.len() as int));
            }
        }
    }

    /// The notifications kept, oldest first.
    pub fn snapshot(&self) -> (r: &Vec<Notification>)
        ensures
            r@ == self.kept(),
    {
        &self.items
    }
}

} // verus!
