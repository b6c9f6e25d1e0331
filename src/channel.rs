use vstd::prelude::*;

verus! {

/// Which broadcast channel a receiver listens on.
///
/// Every driver entry owns exactly one channel: the `i`-th timer entry owns
/// `Timer(i)`, the `k`-th watched path owns `File(k)`, and the workspace
/// listener owns `Workspace`. `Silent` is the channel handed out when no
/// compositor backend is present; nothing ever publishes on it.
#[derive(Clone, Copy, Debug, PartialEq, Eq, Structural)]
pub enum ChannelId {
    Timer(usize),
    File(usize),
    Workspace,
    Silent,
}

/// The single-item slot of one receiver.
#[derive(Clone, Copy, Debug, PartialEq, Eq, Structural)]
pub enum Slot {
    /// The subscription was dropped: nothing is delivered to it any more.
    Closed,
    /// Nothing was published since the receiver last read.
    Empty,
    /// One notification waits to be read (later ones overwrite it).
    Pending,
}

/// One subscriber of one channel.
#[derive(Clone, Copy, Debug, PartialEq, Eq, Structural)]
pub struct Receiver {
    pub channel: ChannelId,
    pub slot: Slot,
}

/// Handle to a receiver, returned by the registry on subscription.
#[derive(Clone, Copy, Debug, PartialEq, Eq, Structural)]
pub struct Subscription {
    pub index: usize,
}

/// What a publish on `channel` does to one receiver: an open receiver of that
/// channel holds a pending notification afterwards, whatever it held before.
pub open spec fn deliver(r: Receiver, fire: bool) -> Receiver {
    if fire && r.slot != Slot::Closed {
        Receiver { channel: r.channel, slot: Slot::Pending }
    } else {
        r
    }
}

/// The receivers after one publish on `c`.
pub open spec fn published(rs: Seq<Receiver>, c: ChannelId) -> Seq<Receiver> {
    rs.map_values(|r: Receiver| deliver(r, r.channel == c))
}

/// The receivers after `index` read its slot.
pub open spec fn taken(rs: Seq<Receiver>, index: int) -> Seq<Receiver> {
    if 0 <= index < rs.len() && rs[index].slot == Slot::Pending {
        rs.update(index, Receiver { channel: rs[index].channel, slot: Slot::Empty })
    } else {
        rs
    }
}

/// The table of all receivers of all channels.
///
/// Each receiver has a slot of capacity one: publishing never blocks and
/// never queues, it only marks the slot pending, so a reader that was slow
/// sees the latest notification once and the earlier ones never.
pub struct Channels {
    receivers: Vec<Receiver>,
}

impl View for Channels {
    type V = Seq<Receiver>;

    closed spec fn view(&self) -> Seq<Receiver> {
        self.receivers@
    }
}

impl Channels {
    pub fn new() -> (r: Channels)
        ensures
            r@ == Seq::<Receiver>::empty(),
    {
        Channels { receivers: Vec::new() }
    }

    pub fn len(&self) -> (r: usize)
        ensures
            r == self@.len(),
    {
        self.receivers.len()
    }

    /// Adds a receiver on `channel`. It holds nothing: what was published
    /// before is never replayed to it.
    pub fn subscribe(&mut self, channel: ChannelId) -> (s: Subscription)
        ensures
            s.index == old(self)@.len(),
            final(self)@ == old(self)@.push(Receiver { channel, slot: Slot::Empty }),
    {
        let index = self.receivers.len();
        self.receivers.push(Receiver { channel, slot: Slot::Empty });
        Subscription { index }
    }

    /// Marks every open receiver of `channel` pending.
    pub fn publish(&mut self, channel: ChannelId)
        ensures
            final(self)@ == published(old(self)@, channel),
    {
        let ghost start = self.receivers@;
        let n = self.receivers.len();
        let mut i: usize = 0;
        while i < n
            invariant
                n == start.len(),
                self.receivers@.len() == n,
                0 <= i <= n,
                forall|j: int| 0 <= j < i ==> self.receivers@[j] == deliver(start[j], start[j].channel == channel),
                forall|j: int| i <= j < n ==> self.receivers@[j] == start[j],
            decreases n - i,
        {
            let r = self.receivers[i];
            if r.channel == channel && r.slot != Slot::Closed {
                self.receivers[i] = Receiver { channel: r.channel, slot: Slot::Pending };
            }
            i = i + 1;
        }
        assert(self.receivers@ =~= published(start, channel));
    }

    /// Whether the receiver `s` holds a notification that it has not read.
    pub fn is_pending(&self, s: &Subscription) -> (r: bool)
        ensures
            r == (s.index < self@.len() && self@[s.index as int].slot == Slot::Pending),
    {
        s.index < self.receivers.len() && self.receivers[s.index].slot == Slot::Pending
    }

    /// Reads the slot of `s`: true when a notification was pending, which
    /// is then consumed.
    pub fn try_recv(&mut self, s: &Subscription) -> (r: bool)
        ensures
            r == (s.index < old(self)@.len() && old(self)@[s.index as int].slot == Slot::Pending),
            final(self)@ == taken(old(self)@, s.index as int),
    {
        if s.index < self.receivers.len() && self.receivers[s.index].slot == Slot::Pending {
            let c = self.receivers[s.index].channel;
            self.receivers[s.index] = Receiver { channel: c, slot: Slot::Empty };
            true
        } else {
            false
        }
    }

    /// Drops the subscription `s`: its receiver is closed for good.
    pub fn close(&mut self, s: &Subscription)
        ensures
            final(self)@ == (if s.index < old(self)@.len() {
                old(self)@.update(
                    s.index as int,
                    Receiver { channel: old(self)@[s.index as int].channel, slot: Slot::Closed },
                )
            } else {
                old(self)@
            }),
    {
        if s.index < self.receivers.len() {
            let c = self.receivers[s.index].channel;
            self.receivers[s.index] = Receiver { channel: c, slot: Slot::Closed };
        }
    }
}

/// Capacity one: two publishes with no read between them leave one
/// notification, exactly as one publish does, and after one read nothing is
/// left to read.
pub proof fn lemma_latest_wins(rs: Seq<Receiver>, c: ChannelId, index: int)
    requires
        0 <= index < rs.len(),
        rs[index].channel == c,
        rs[index].slot != Slot::Closed,
    ensures
        published(published(rs, c), c) == published(rs, c),
        published(rs, c)[index].slot == Slot::Pending,
        taken(published(published(rs, c), c), index)[index].slot == Slot::Empty,
        taken(taken(published(published(rs, c), c), index), index) == taken(
            published(published(rs, c), c),
            index,
        ),
{
    assert(published(published(rs, c), c) =~= published(rs, c));
}

/// No replay: a receiver added after any number of publishes holds
/// nothing, so its first read finds no notification.
pub proof fn lemma_no_replay(rs: Seq<Receiver>, c: ChannelId, d: ChannelId)
    ensures
        published(rs, c).push(Receiver { channel: d, slot: Slot::Empty })[rs.len() as int].slot
            == Slot::Empty,
        taken(published(rs, c).push(Receiver { channel: d, slot: Slot::Empty }), rs.len() as int)
            == published(rs, c).push(Receiver { channel: d, slot: Slot::Empty }),
{
}

/// A closed receiver stays closed whatever is published, so nothing
/// published after the drop reaches it.
pub proof fn lemma_closed_stays_closed(rs: Seq<Receiver>, c: ChannelId, index: int)
    requires
        0 <= index < rs.len(),
        rs[index].slot == Slot::Closed,
    ensures
        published(rs, c)[index].slot == Slot::Closed,
{
}

} // verus!
