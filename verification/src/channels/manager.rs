//! The channel manager: the channels by name, where an outbound message goes, and
//! the status of each channel. Starting and stopping the channels and forwarding
//! messages to them run around this.

use vstd::prelude::*;

use crate::channels::error::{ChannelError, ChannelResult};
use crate::channels::messages::OutboundMessage;
use crate::text::{chars_of, push_str, string_of};

verus! {

/// The status of one channel.
pub struct ChannelStatus {
    /// The channel's name.
    pub name: String,
    /// Whether it is running.
    pub running: bool,
}

/// What the manager asks of a channel for its status.
pub trait ChannelState {
    /// Whether the channel is running now.
    fn is_running(&self) -> bool;
}

/// The channels, each under its name; a name occurs at most once.
pub struct ChannelManager<C> {
    channels: Vec<(String, C)>,
}

/// The names in a list of named channels.
pub open spec fn names_of<C>(s: Seq<(String, C)>) -> Seq<Seq<char>> {
    Seq::new(s.len(), |i: int| s[i].0@)
}

/// No name occurs twice.
pub open spec fn distinct_names(names: Seq<Seq<char>>) -> bool {
    forall|i: int, j: int| 0 <= i < names.len() && 0 <= j < names.len() && i != j ==> names[i] != names[j]
}

/// The text of the error for a message to a channel that does not exist.
pub open spec fn no_channel_text(name: Seq<char>) -> Seq<char> {
    "通道 "@ + name + " 不存在"@
}

impl<C> ChannelManager<C> {
    #[verifier::type_invariant]
    spec fn names_distinct(self) -> bool {
        distinct_names(names_of(self.channels@))
    }

    /// The channels' names, in the order they were added.
    pub closed spec fn names(self) -> Seq<Seq<char>> {
        names_of(self.channels@)
    }

    /// The channel at position `i`.
    pub closed spec fn channel_at(self, i: int) -> C {
        self.channels@[i].1
    }

    /// An empty manager.
    pub fn new() -> (m: Self)
        ensures
            m.names() == Seq::<Seq<char>>::empty(),
            distinct_names(m.names()),
    {
        let m = ChannelManager { channels: Vec::new() };
        assert(names_of(m.channels@) =~= Seq::<Seq<char>>::empty());
        m
    }

    /// How many channels there are.
    pub fn len(&self) -> (n: usize)
        ensures
            n == self.names().len(),
    {
        self.channels.len()
    }

    /// The position of the channel named `name`, if there is one.
    pub fn find(&self, name: &str) -> (r: Option<usize>)
        ensures
            match r {
                Some(i) => i < self.names().len() && self.names()[i as int] == name@,
                None => !self.names().contains(name@),
            },
    {
        let t = String::from_str(name);
        let mut i: usize = 0;
        while i < self.channels.len()
            invariant
                i <= self.channels@.len(),
                t@ == name@,
                forall|j: int| 0 <= j < i ==> self.channels@[j].0@ != name@,
            decreases self.channels@.len() - i,
        {
            if self.channels[i].0 == t {
                return Some(i);
            }
            i = i + 1;
        }
        proof {
            if self.names().contains(name@) {
                let k = choose|k: int| 0 <= k < self.names().len() && self.names()[k] == name@;
                assert(self.channels@[k].0@ == name@);
            }
        }
        None
    }

    /// Adds a channel under `name`; a channel already under that name is replaced
    /// and keeps its position.
    pub fn add_channel(&mut self, name: &str, channel: C)
        ensures
            distinct_names(final(self).names()),
            final(self).names().contains(name@),
            old(self).names().contains(name@) ==> {
                &&& final(self).names() == old(self).names()
                &&& forall|i: int|
                    0 <= i < old(self).names().len() ==> #[trigger] final(self).channel_at(i) == if old(
                        self,
                    ).names()[i] == name@ {
                        channel
                    } else {
                        old(self).channel_at(i)
                    }
            },
            !old(self).names().contains(name@) ==> {
                &&& final(self).names() == old(self).names().push(name@)
                &&& final(self).channel_at(old(self).names().len() as int) == channel
                &&& forall|i: int|
                    0 <= i < old(self).names().len() ==> #[trigger] final(self).channel_at(i) == old(
                        self,
                    ).channel_at(i)
            },
    {
        proof {
            use_type_invariant(&*self);
        }
        match self.find(name) {
            Some(i) => {
                let ghost before = self.channels@;
                let entry = (String::from_str(name), channel);
                let mut channels = Vec::new();
                std::mem::swap(&mut channels, &mut self.channels);
                channels.set(i, entry);
                assert(names_of(channels@) =~= names_of(before));
                proof {
                    assert forall|j: int| 0 <= j < before.len() implies channels@[j].1 == if names_of(
                        before,
                    )[j] == name@ {
                        channel
                    } else {
                        before[j].1
                    } by {
                        if j != i && names_of(before)[j] == name@ {
                            assert(names_of(before)[i as int] == name@);
                        }
                    }
                }
                self.channels = channels;
            },
            None => {
                let ghost before = self.channels@;
                let mut channels = Vec::new();
                std::mem::swap(&mut channels, &mut self.channels);
                channels.push((String::from_str(name), channel));
                assert(names_of(channels@) =~= names_of(before).push(name@));
                self.channels = channels;
            },
        }
        proof {
            use_type_invariant(&*self);
            let n = self.names();
            if !old(self).names().contains(name@) {
                assert(n[n.len() - 1] == name@);
            } else {
                let k = choose|k: int| 0 <= k < old(self).names().len() && old(self).names()[k] == name@;
                assert(n[k] == name@);
            }
        }
    }

    /// The channel that an outbound message goes to: the one named by its
    /// `channel`; `SendFailed` when there is none.
    pub fn route_message(&self, msg: &OutboundMessage) -> (r: ChannelResult<&C>)
        ensures
            match r {
                Ok(c) => exists|i: int|
                    0 <= i < self.names().len() && self.names()[i] == msg.channel@ && *c == self.channel_at(i),
                Err(e) => !self.names().contains(msg.channel@) && (e matches ChannelError::SendFailed(m)
                    && m@ == no_channel_text(msg.channel@)),
            },
            r is Ok <==> self.names().contains(msg.channel@),
    {
        match self.find(msg.channel.as_str()) {
            Some(i) => {
                assert(self.names()[i as int] == msg.channel@);
                assert(self.channel_at(i as int) == self.channels@[i as int].1);
                Ok(&self.channels[i].1)
            },
            None => {
                let mut v = chars_of("通道 ");
                push_str(&mut v, msg.channel.as_str());
                push_str(&mut v, " 不存在");
                Err(ChannelError::SendFailed(string_of(v.as_slice())))
            },
        }
    }

    /// The name and the channel at position `i`.
    pub fn entry(&self, i: usize) -> (r: (&str, &C))
        requires
            i < self.names().len(),
        ensures
            r.0@ == self.names()[i as int],
            *r.1 == self.channel_at(i as int),
    {
        (self.channels[i].0.as_str(), &self.channels[i].1)
    }

    /// Removes every channel.
    pub fn clear(&mut self)
        ensures
            final(self).names() == Seq::<Seq<char>>::empty(),
    {
        self.channels = Vec::new();
        assert(names_of(self.channels@) =~= Seq::<Seq<char>>::empty());
    }
}

impl<C: ChannelState> ChannelManager<C> {
    /// The status of every channel, in order: its name and whether it runs now.
    pub fn get_status(&self) -> (r: Vec<ChannelStatus>)
        ensures
            r@.len() == self.names().len(),
            forall|i: int| 0 <= i < r@.len() ==> #[trigger] r@[i].name@ == self.names()[i],
    {
        let mut r: Vec<ChannelStatus> = Vec::new();
        let mut i: usize = 0;
        while i < self.channels.len()
            invariant
                i <= self.channels@.len(),
                r@.len() == i,
                forall|j: int| 0 <= j < i ==> #[trigger] r@[j].name@ == self.channels@[j].0@,
            decreases self.channels@.len() - i,
        {
            let running = self.channels[i].1.is_running();
            r.push(ChannelStatus { name: self.channels[i].0.clone(), running });
            i = i + 1;
        }
        r
    }

    /// The status of the channel named `name`, if there is one.
    pub fn get_channel_status(&self, name: &str) -> (r: Option<ChannelStatus>)
        ensures
            r is Some <==> self.names().contains(name@),
            r matches Some(s) ==> s.name@ == name@,
    {
        match self.find(name) {
            Some(i) => Some(ChannelStatus { name: String::from_str(name), running: self.channels[i].1.is_running() }),
            None => None,
        }
    }
}

} // verus!
