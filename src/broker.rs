use vstd::prelude::*;

use crate::wire::MessageType;

verus! {

/// One registered connection: its confirmed username and the queue that
/// feeds its egress task.
pub struct Subscriber<S> {
    pub username: String,
    pub queue: S,
}

/// The registry of connected users, owned by the broker task alone.
pub struct Broker<S> {
    entries: Vec<Subscriber<S>>,
}

/// An event on the broker's inbound queue, as the laws below see it: a join
/// or a logout names a user, a message is known by an id.
pub enum BrokerEvent {
    Join(Seq<char>),
    Logout(Seq<char>),
    Message(u64),
}

/// The registry after one event.
pub open spec fn step(reg: Set<Seq<char>>, ev: BrokerEvent) -> Set<Seq<char>> {
    match ev {
        BrokerEvent::Join(u) => reg.insert(u),
        BrokerEvent::Logout(u) => reg.remove(u),
        BrokerEvent::Message(_) => reg,
    }
}

/// The registry after a sequence of events.
pub open spec fn run(reg: Set<Seq<char>>, evs: Seq<BrokerEvent>) -> Set<Seq<char>>
    decreases evs.len(),
{
    if evs.len() == 0 {
        reg
    } else {
        step(run(reg, evs.drop_last()), evs.last())
    }
}

/// How many joins of a sequence named a user not registered at the time.
pub open spec fn joins_accepted(reg: Set<Seq<char>>, evs: Seq<BrokerEvent>) -> nat
    decreases evs.len(),
{
    if evs.len() == 0 {
        0
    } else {
        let before = run(reg, evs.drop_last());
        joins_accepted(reg, evs.drop_last()) + match evs.last() {
            BrokerEvent::Join(u) => if before.contains(u) {
                0nat
            } else {
                1nat
            },
            _ => 0nat,
        }
    }
}

/// How many logouts a sequence holds.
pub open spec fn logouts(evs: Seq<BrokerEvent>) -> nat
    decreases evs.len(),
{
    if evs.len() == 0 {
        0
    } else {
        logouts(evs.drop_last()) + match evs.last() {
            BrokerEvent::Logout(_) => 1nat,
            _ => 0nat,
        }
    }
}

/// Every logout of the sequence names a user registered at the time: a
/// connection logs out only the username that its login confirmed.
pub open spec fn logouts_registered(reg: Set<Seq<char>>, evs: Seq<BrokerEvent>) -> bool
    decreases evs.len(),
{
    if evs.len() == 0 {
        true
    } else {
        logouts_registered(reg, evs.drop_last()) && match evs.last() {
            BrokerEvent::Logout(u) => run(reg, evs.drop_last()).contains(u),
            _ => true,
        }
    }
}

/// The ids of the messages that reach user `u`: one copy of each message
/// processed while `u` is registered.
pub open spec fn delivered(reg: Set<Seq<char>>, evs: Seq<BrokerEvent>, u: Seq<char>) -> Seq<u64>
    decreases evs.len(),
{
    if evs.len() == 0 {
        Seq::empty()
    } else {
        let prev = delivered(reg, evs.drop_last(), u);
        match evs.last() {
            BrokerEvent::Message(m) => if run(reg, evs.drop_last()).contains(u) {
                prev.push(m)
            } else {
                prev
            },
            _ => prev,
        }
    }
}

/// The ids of all the messages of a sequence, in order.
pub open spec fn messages(evs: Seq<BrokerEvent>) -> Seq<u64>
    decreases evs.len(),
{
    if evs.len() == 0 {
        Seq::empty()
    } else {
        match evs.last() {
            BrokerEvent::Message(m) => messages(evs.drop_last()).push(m),
            _ => messages(evs.drop_last()),
        }
    }
}

/// Whether a sequence holds a logout of `u`.
pub open spec fn logs_out(evs: Seq<BrokerEvent>, u: Seq<char>) -> bool {
    exists|i: int| 0 <= i < evs.len() && evs[i] == BrokerEvent::Logout(u)
}

/// Starting from an empty registry, with every logout naming a registered
/// user, the registry holds as many users as joins were accepted less the
/// logouts processed.
pub proof fn lemma_registry_size(evs: Seq<BrokerEvent>)
    requires
        logouts_registered(Set::empty(), evs),
    ensures
        run(Set::empty(), evs).finite(),
        run(Set::empty(), evs).len() == joins_accepted(Set::empty(), evs) - logouts(evs),
    decreases evs.len(),
{
    if evs.len() > 0 {
        let prev = evs.drop_last();
        lemma_registry_size(prev);
        let before = run(Set::empty(), prev);
        match evs.last() {
            BrokerEvent::Join(u) => {
                if before.contains(u) {
                    assert(before.insert(u) =~= before);
                }
            },
            BrokerEvent::Logout(u) => {},
            BrokerEvent::Message(_) => {},
        }
    }
}

/// A user registered before a sequence of events that holds no logout of
/// theirs receives every message of the sequence exactly once, in the
/// order in which the broker took them in.
pub proof fn lemma_delivery_in_order(reg: Set<Seq<char>>, evs: Seq<BrokerEvent>, u: Seq<char>)
    requires
        reg.contains(u),
        !logs_out(evs, u),
    ensures
        run(reg, evs).contains(u),
        delivered(reg, evs, u) == messages(evs),
    decreases evs.len(),
{
    if evs.len() > 0 {
        let prev = evs.drop_last();
        assert(!logs_out(prev, u)) by {
            if logs_out(prev, u) {
                let i = choose|i: int| 0 <= i < prev.len() && prev[i] == BrokerEvent::Logout(u);
                assert(evs[i] == prev[i]);
            }
        }
        lemma_delivery_in_order(reg, prev, u);
        assert(evs.last() != BrokerEvent::Logout(u)) by {
            assert(evs[evs.len() - 1] == evs.last());
        }
    }
}

impl<S> Broker<S> {
    /// The usernames of the registry, in order of registration.
    pub open spec fn names(&self) -> Seq<Seq<char>> {
        self.subscribers_view().map_values(|e: Subscriber<S>| e.username@)
    }

    /// The set of registered usernames.
    pub open spec fn registry(&self) -> Set<Seq<char>> {
        self.names().to_set()
    }

    /// The subscribers, in order of registration.
    pub closed spec fn subscribers_view(&self) -> Seq<Subscriber<S>> {
        self.entries@
    }

    /// At most one entry per username.
    pub open spec fn wf(&self) -> bool {
        self.names().no_duplicates()
    }

    pub fn new() -> (r: Self)
        ensures
            r.wf(),
            r.registry() == Set::<Seq<char>>::empty(),
            r.subscribers_view() == Seq::<Subscriber<S>>::empty(),
    {
        let r = Broker { entries: Vec::new() };
        assert(r.names() =~= Seq::<Seq<char>>::empty());
        assert(r.registry() =~= Set::<Seq<char>>::empty());
        r
    }

    /// Position of `username` in the registry, if it is there.
    fn find(&self, username: &String) -> (r: Option<usize>)
        ensures
            match r {
                Some(i) => i < self.entries@.len() && self.names()[i as int] == username@,
                None => !self.names().contains(username@),
            },
    {
        let n = self.entries.len();
        let mut i: usize = 0;
        while i < n
            invariant
                n == self.entries@.len(),
                i <= n,
                forall|j: int| 0 <= j < i ==> self.names()[j] != username@,
            decreases n - i,
        {
            if self.entries[i].username == *username {
                return Some(i);
            }
            i = i + 1;
        }
        None
    }

    /// Whether `username` is registered.
    pub fn contains(&self, username: &String) -> (r: bool)
        ensures
            r == self.registry().contains(username@),
    {
        self.find(username).is_some()
    }

    /// Number of registered users.
    pub fn len(&self) -> (r: usize)
        requires
            self.wf(),
        ensures
            r == self.registry().len(),
    {
        proof {
            self.names().unique_seq_to_set();
        }
        self.entries.len()
    }

    /// The registered subscribers, each once, for a fan-out.
    pub fn subscribers(&self) -> (r: &[Subscriber<S>])
        ensures
            r@ == self.subscribers_view(),
    {
        self.entries.as_slice()
    }

    /// Registers `username` with its egress queue, unless it is taken. The
    /// reply is `Login` for a new user and `UsernameExists` otherwise, in
    /// which case nothing changes.
    pub fn join(&mut self, username: String, queue: S) -> (r: MessageType)
        requires
            old(self).wf(),
        ensures
            final(self).wf(),
            final(self).registry() == step(old(self).registry(), BrokerEvent::Join(username@)),
            r == if old(self).registry().contains(username@) {
                MessageType::UsernameExists
            } else {
                MessageType::Login
            },
            old(self).registry().contains(username@) ==> final(self).subscribers_view() == old(
                self,
            ).subscribers_view(),
            !old(self).registry().contains(username@) ==> final(self).subscribers_view() == old(
                self,
            ).subscribers_view().push(Subscriber { username, queue }),
    {
        if self.find(&username).is_some() {
            assert(self.registry().insert(username@) =~= self.registry());
            return MessageType::UsernameExists;
        }
        let ghost old_names = self.names();
        let ghost u = username@;
        self.entries.push(Subscriber { username, queue });
        proof {
            assert(self.names() =~= old_names.push(u));
            old_names.lemma_push_to_set_commute(u);
            assert forall|i: int, j: int|
                0 <= i < self.names().len() && 0 <= j < self.names().len() && i != j implies
                self.names()[i] != self.names()[j] by {
                if i < old_names.len() && j < old_names.len() {
                } else if i == old_names.len() {
                    assert(old_names.contains(old_names[j]));
                } else {
                    assert(old_names.contains(old_names[i]));
                }
            }
        }
        MessageType::Login
    }

    /// Removes `username` from the registry and hands back its queue, so
    /// that dropping it closes the connection's egress.
    pub fn logout(&mut self, username: &String) -> (r: Option<S>)
        requires
            old(self).wf(),
        ensures
            final(self).wf(),
            final(self).registry() == step(old(self).registry(), BrokerEvent::Logout(username@)),
            r is Some <==> old(self).registry().contains(username@),
    {
        match self.find(username) {
            None => {
                assert(self.registry().remove(username@) =~= self.registry());
                None
            },
            Some(i) => {
                let ghost old_names = self.names();
                let ghost u = username@;
                let e = self.entries.remove(i);
                proof {
                    assert(self.names() =~= old_names.remove(i as int));
                    let nn = self.names();
                    assert forall|x: Seq<char>|
                        nn.to_set().contains(x) == old_names.to_set().remove(u).contains(x) by {
                        if nn.contains(x) {
                            let k = choose|k: int| 0 <= k < nn.len() && nn[k] == x;
                            if k < i {
                                assert(old_names[k] == x);
                            } else {
                                assert(old_names[k + 1] == x);
                            }
                        }
                        if old_names.contains(x) && x != u {
                            let k = choose|k: int| 0 <= k < old_names.len() && old_names[k] == x;
                            if k < i {
                                assert(nn[k] == x);
                            } else {
                                assert(k != i);
                                assert(nn[k - 1] == x);
                            }
                        }
                    }
                    assert(nn.to_set() =~= old_names.to_set().remove(u));
                }
                Some(e.queue)
            },
        }
    }
}

} // verus!
