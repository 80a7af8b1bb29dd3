//! Application contexts: the channels of a node, keyed by topic, and the topics
//! that a worker listens to.
use vstd::prelude::*;

use super::error::{error_with_message, AparanError, Result};
use super::message::{Message, Sendable};

verus! {

/// The sending end of a channel.
#[verifier::external_type_specification]
#[verifier::external_body]
#[verifier::reject_recursive_types(T)]
pub struct ExSender<T>(async_channel::Sender<T>);

/// The receiving end of a channel.
#[verifier::external_type_specification]
#[verifier::external_body]
#[verifier::reject_recursive_types(T)]
pub struct ExReceiver<T>(async_channel::Receiver<T>);

/// The map of the `halfbrown` crate, which keeps a short list below 32 entries
/// and a hash table above.
#[verifier::external_type_specification]
#[verifier::external_body]
#[verifier::reject_recursive_types(K)]
#[verifier::reject_recursive_types(V)]
#[verifier::reject_recursive_types(S)]
pub struct ExSizedHashMap<K, V, S, const VEC_LIMIT_UPPER: usize>(
    halfbrown::SizedHashMap<K, V, S, VEC_LIMIT_UPPER>,
);

/// The hash builder that a `halfbrown` map uses by default.
#[verifier::external_type_specification]
#[verifier::external_body]
pub struct ExDefaultHashBuilder(halfbrown::DefaultHashBuilder);

/// What a topic table holds: each topic, by its characters, mapped to the
/// position of its channel.
pub uninterp spec fn topic_table(table: halfbrown::HashMap<&str, usize>) -> Map<Seq<char>, usize>;

/// Creates an empty topic table.
///
/// Trusted: calls `halfbrown::HashMap::new`, which starts with no entry.
#[verifier::external_body]
fn table_new<'a>() -> (table: halfbrown::HashMap<&'a str, usize>)
    ensures
        topic_table(table).dom() == Set::<Seq<char>>::empty(),
{
    halfbrown::HashMap::new()
}

/// Looks a topic up in a topic table.
///
/// Trusted: calls `halfbrown::HashMap::get`, which gives the value stored under
/// a key equal to `topic` (string equality is equality of the characters), or
/// `None` when there is none.
#[verifier::external_body]
fn table_get(table: &halfbrown::HashMap<&str, usize>, topic: &str) -> (found: Option<usize>)
    ensures
        found == (if topic_table(*table).contains_key(topic@) {
            Some(topic_table(*table)[topic@])
        } else {
            None::<usize>
        }),
{
    table.get(topic).copied()
}

/// Stores a position under a topic.
///
/// Trusted: calls `halfbrown::HashMap::insert`, which adds the key or, when an
/// equal key is present, replaces its value; the other entries stay.
#[verifier::external_body]
fn table_insert<'a>(table: &mut halfbrown::HashMap<&'a str, usize>, topic: &'a str, position: usize)
    ensures
        topic_table(*final(table)) == topic_table(*old(table)).insert(topic@, position),
{
    table.insert(topic, position);
}

/// Copies a topic table.
///
/// Trusted: calls `Clone::clone` of `halfbrown::HashMap`, which copies every
/// entry (keys and values here are plain copies).
#[verifier::external_body]
fn table_clone<'a>(table: &halfbrown::HashMap<&'a str, usize>) -> (copy: halfbrown::HashMap<&'a str, usize>)
    ensures
        topic_table(copy) == topic_table(*table),
{
    table.clone()
}

/// Creates a channel without a bound on the number of messages it holds.
///
/// Trusted: calls `async_channel::unbounded`. The two ends are new values of
/// opaque types: that they belong to one fresh channel is not stated.
#[verifier::external_body]
fn channel_unbounded<T>() -> (ends: (async_channel::Sender<T>, async_channel::Receiver<T>)) {
    async_channel::unbounded()
}

/// Puts a message into a channel without waiting.
///
/// Trusted: calls `async_channel::Sender::try_send` and reports whether the
/// message went in. For an unbounded channel this fails only when the channel
/// was closed, which depends on the other ends: nothing is claimed of the result.
#[verifier::external_body]
fn channel_try_send<T>(sender: &async_channel::Sender<T>, message: T) -> (delivered: bool) {
    sender.try_send(message).is_ok()
}

/// Another handle on the same channel's sending end.
///
/// Trusted: calls `Clone::clone` of `async_channel::Sender`, which hands out a
/// handle on the same channel (the same shared state); the handle is stated to
/// be the same value.
#[verifier::external_body]
fn sender_clone<T>(sender: &async_channel::Sender<T>) -> (copy: async_channel::Sender<T>)
    ensures
        copy == *sender,
{
    sender.clone()
}

/// Another handle on the same channel's receiving end.
///
/// Trusted: calls `Clone::clone` of `async_channel::Receiver`, which hands out
/// a handle on the same channel but without the pending listener that a polled
/// receiver may hold, so the copy need not equal the original: nothing is
/// claimed of the opaque handle.
#[verifier::external_body]
fn receiver_clone<T>(receiver: &async_channel::Receiver<T>) -> (copy: async_channel::Receiver<T>) {
    receiver.clone()
}

/// The two ends of the channel of one topic.
pub type Endpoints<'a, B> = (
    async_channel::Sender<Message<'a, B>>,
    async_channel::Receiver<Message<'a, B>>,
);

/// An Aparan context: the channels of a node, keyed by topic, and the topics
/// that the current worker subscribed to.
///
/// The table maps each topic to the position of its channel in `endpoints`.
#[verifier::reject_recursive_types(B)]
pub struct Context<'a, B: ?Sized> {
    channels: halfbrown::HashMap<&'a str, usize>,
    endpoints: Vec<Endpoints<'a, B>>,
    subscribed: Vec<&'static str>,
}

/// Every topic of `table` points at one of `ends`, and no two topics share one.
spec fn well_placed<E>(table: Map<Seq<char>, usize>, ends: Seq<E>) -> bool {
    &&& forall|topic: Seq<char>| #[trigger] table.contains_key(topic) ==> table[topic] < ends.len()
    &&& forall|t1: Seq<char>, t2: Seq<char>|
        #![trigger table[t1], table[t2]]
        table.contains_key(t1) && table.contains_key(t2) && t1 != t2 ==> table[t1] != table[t2]
}

/// The result of a send, from whether the channel took the message: `Ok` when
/// it did, and otherwise the general error (the channel was closed).
pub fn send_outcome(delivered: bool) -> (res: Result<()>)
    ensures
        delivered <==> res is Ok,
        !delivered ==> res matches Err(AparanError::Other(_)),
{
    if delivered {
        Ok(())
    } else {
        Err(AparanError::Other(error_with_message("the channel of the topic is closed")))
    }
}

impl<'a, B: ?Sized> Context<'a, B> {
    /// The topic table: each registered topic and the position of its channel.
    pub closed spec fn table(&self) -> Map<Seq<char>, usize> {
        topic_table(self.channels)
    }

    /// Every topic points at a channel, and no two topics share one.
    #[verifier::type_invariant]
    spec fn wf(&self) -> bool {
        well_placed(self.table(), self.endpoints@)
    }
}

impl<'a, B: ?Sized + Sendable> Context<'a, B> {
    /// The topics that have a channel.
    pub open spec fn registered(&self) -> Set<Seq<char>> {
        self.table().dom()
    }

    /// The subscribed topics, in the order of subscription.
    pub closed spec fn subscriptions(&self) -> Seq<Seq<char>> {
        self.subscribed@.map_values(|topic: &'static str| topic@)
    }

    /// The topics that a receive listens to: subscribed and registered.
    pub open spec fn listened(&self) -> Set<Seq<char>> {
        Set::new(|topic: Seq<char>| self.subscriptions().contains(topic) && self.registered().contains(topic))
    }

    /// The channel ends of a registered topic.
    pub closed spec fn endpoint_of(&self, topic: Seq<char>) -> Endpoints<'a, B> {
        self.endpoints@[self.table()[topic] as int]
    }

    /// Creates a context with no channel and no subscription.
    pub fn new() -> (ctx: Self)
        ensures
            ctx.registered() == Set::<Seq<char>>::empty(),
            ctx.subscriptions() == Seq::<Seq<char>>::empty(),
    {
        let ctx = Context { channels: table_new(), endpoints: Vec::new(), subscribed: Vec::new() };
        assert(ctx.subscriptions() =~= Seq::<Seq<char>>::empty());
        ctx
    }

    /// Whether `topic` has a channel.
    pub fn has_channel(&self, topic: &str) -> (found: bool)
        ensures
            found == self.registered().contains(topic@),
    {
        table_get(&self.channels, topic).is_some()
    }

    /// Adds a new channel under `topic`, replacing the channel that the topic had.
    pub fn new_channel(&mut self, topic: &'static str)
        ensures
            final(self).registered() == old(self).registered().insert(topic@),
            final(self).subscriptions() == old(self).subscriptions(),
            forall|other: Seq<char>|
                old(self).registered().contains(other) && other != topic@
                    ==> #[trigger] final(self).endpoint_of(other) == old(self).endpoint_of(other),
    {
        self.set_channel(topic, channel_unbounded());
    }

    /// Puts the channel `ends` under `topic`, replacing the channel that the
    /// topic had; the other topics keep their channels.
    pub fn set_channel(&mut self, topic: &'static str, ends: Endpoints<'a, B>)
        ensures
            final(self).registered() == old(self).registered().insert(topic@),
            final(self).endpoint_of(topic@) == ends,
            final(self).subscriptions() == old(self).subscriptions(),
            forall|other: Seq<char>|
                old(self).registered().contains(other) && other != topic@
                    ==> #[trigger] final(self).endpoint_of(other) == old(self).endpoint_of(other),
    {
        proof {
            use_type_invariant(&*self);
        }
        let ghost before = *self;
        let mut channels = table_new();
        std::mem::swap(&mut channels, &mut self.channels);
        let mut endpoints: Vec<Endpoints<'a, B>> = Vec::new();
        std::mem::swap(&mut endpoints, &mut self.endpoints);
        let found = table_get(&channels, topic);
        assert(topic_table(channels) == before.table());
        match found {
            Some(position) => {
                endpoints[position] = ends;
                assert(well_placed(topic_table(channels), endpoints@));
            },
            None => {
                let position = endpoints.len();
                endpoints.push(ends);
                table_insert(&mut channels, topic, position);
                let ghost table = topic_table(channels);
                assert forall|t: Seq<char>| #[trigger] table.contains_key(t) implies table[t] < endpoints@.len() by {
                    if t != topic@ {
                        assert(before.table().contains_key(t));
                    }
                };
                assert forall|t1: Seq<char>, t2: Seq<char>|
                    table.contains_key(t1) && table.contains_key(t2) && t1 != t2
                        implies #[trigger] table[t1] != #[trigger] table[t2] by {
                    if t1 != topic@ {
                        assert(before.table().contains_key(t1));
                    }
                    if t2 != topic@ {
                        assert(before.table().contains_key(t2));
                    }
                };
                assert(well_placed(table, endpoints@));
            },
        }
        std::mem::swap(&mut endpoints, &mut self.endpoints);
        std::mem::swap(&mut channels, &mut self.channels);
        assert(self.table() == topic_table(self.channels));
        assert(before.table() == topic_table(before.channels));
        assert(self.registered() =~= before.registered().insert(topic@));
        assert forall|other: Seq<char>|
            before.registered().contains(other) && other != topic@
                implies #[trigger] self.endpoint_of(other) == before.endpoint_of(other) by {
            assert(before.table().contains_key(other));
        };
    }

    /// Subscribes the current worker to `topic`.
    pub fn subscribe(&mut self, topic: &'static str) -> (res: Result<()>)
        ensures
            res is Ok,
            final(self).table() == old(self).table(),
            final(self).subscriptions() == old(self).subscriptions().push(topic@),
            forall|t: Seq<char>| #[trigger] final(self).endpoint_of(t) == old(self).endpoint_of(t),
    {
        proof {
            use_type_invariant(&*self);
        }
        let mut subscribed: Vec<&'static str> = Vec::new();
        std::mem::swap(&mut subscribed, &mut self.subscribed);
        subscribed.push(topic);
        std::mem::swap(&mut subscribed, &mut self.subscribed);
        assert(self.subscriptions() =~= old(self).subscriptions().push(topic@));
        Ok(())
    }

    /// Sends `message` on the channel of `topic` without waiting (the channels
    /// are unbounded). The topic must have a channel.
    pub fn send(&mut self, topic: &str, message: Message<'a, B>) -> (res: Result<()>)
        requires
            old(self).registered().contains(topic@),
        ensures
            *final(self) == *old(self),
            res is Ok || res matches Err(AparanError::Other(_)),
    {
        let sender = self.sender_on(topic);
        let delivered = channel_try_send(sender, message);
        send_outcome(delivered)
    }

    /// The sending end of the channel of `topic`. The topic must have a channel.
    pub fn sender_on(&self, topic: &str) -> (sender: &async_channel::Sender<Message<'a, B>>)
        requires
            self.registered().contains(topic@),
        ensures
            *sender == self.endpoint_of(topic@).0,
    {
        proof {
            use_type_invariant(self);
        }
        let position = table_get(&self.channels, topic).unwrap();
        &self.endpoints[position].0
    }

    /// The receiving end of the channel of `topic`, subscribed or not. The topic
    /// must have a channel.
    pub fn receiver_on(&self, topic: &str) -> (receiver: &async_channel::Receiver<Message<'a, B>>)
        requires
            self.registered().contains(topic@),
        ensures
            *receiver == self.endpoint_of(topic@).1,
    {
        proof {
            use_type_invariant(self);
        }
        let position = table_get(&self.channels, topic).unwrap();
        &self.endpoints[position].1
    }

    /// The channels that a receive waits on: one entry for each subscribed topic
    /// that has a channel, with the topic and the receiving end of its channel.
    /// When there is none, the error is `NoSubscriptions`.
    pub fn listening_channels(&self) -> (res: Result<Vec<(&'static str, &async_channel::Receiver<Message<'a, B>>)>>)
        ensures
            res is Err <==> self.listened().is_empty(),
            res is Err ==> res matches Err(AparanError::NoSubscriptions),
            res matches Ok(chosen) ==> self.lists_listened(chosen@),
    {
        proof {
            use_type_invariant(self);
        }
        let mut chosen: Vec<(&'static str, &async_channel::Receiver<Message<'a, B>>)> = Vec::new();
        let mut positions: Vec<usize> = Vec::new();
        let mut i: usize = 0;
        while i < self.subscribed.len()
            invariant
                self.wf(),
                0 <= i <= self.subscribed@.len(),
                chosen@.len() == positions@.len(),
                positions@.no_duplicates(),
                forall|k: int| 0 <= k < chosen@.len() ==> self.chosen_entry(#[trigger] chosen@[k], positions@[k], i as int),
                forall|j: int| 0 <= j < i && self.table().contains_key(#[trigger] self.subscribed@[j]@)
                    ==> positions@.contains(self.table()[self.subscribed@[j]@]),
            decreases self.subscribed@.len() - i,
        {
            let topic = self.subscribed[i];
            let found = table_get(&self.channels, topic);
            assert(self.table() == topic_table(self.channels));
            proof {
                self.lemma_entries_widen(chosen@, positions@, i as int);
            }
            if let Some(position) = found {
                if !contains_position(&positions, position) {
                    let ghost before_chosen = chosen@;
                    let ghost before_positions = positions@;
                    chosen.push((topic, &self.endpoints[position].1));
                    positions.push(position);
                    assert forall|k: int| 0 <= k < chosen@.len() implies
                        self.chosen_entry(#[trigger] chosen@[k], positions@[k], i + 1) by {
                        if k < before_chosen.len() {
                            assert(chosen@[k] == before_chosen[k]);
                            assert(positions@[k] == before_positions[k]);
                        } else {
                            assert(self.subscribed@[i as int]@ == chosen@[k].0@);
                        }
                    };
                    assert(positions@ == before_positions.push(position));
                    assert(positions@[positions@.len() - 1] == position);
                    assert forall|j: int| 0 <= j < i && self.table().contains_key(#[trigger] self.subscribed@[j]@)
                        implies positions@.contains(self.table()[self.subscribed@[j]@]) by {
                        let m = choose|m: int| 0 <= m < before_positions.len() && before_positions[m] == self.table()[self.subscribed@[j]@];
                        assert(positions@[m] == before_positions[m]);
                    };
                }
            }
            assert forall|j: int| 0 <= j < i + 1 && self.table().contains_key(#[trigger] self.subscribed@[j]@)
                implies positions@.contains(self.table()[self.subscribed@[j]@]) by {
                if j == i {
                    assert(self.subscribed@[j]@ == topic@);
                }
            };
            i += 1;
        }
        proof {
            self.lemma_chosen_cover(chosen@, positions@);
        }
        if chosen.len() == 0 {
            Err(AparanError::NoSubscriptions)
        } else {
            assert(self.lists_listened(chosen@));
            Ok(chosen)
        }
    }

    /// `chosen` lists each listened topic once, with the receiving end of its
    /// channel, and nothing else.
    pub open spec fn lists_listened(
        &self,
        chosen: Seq<(&'static str, &async_channel::Receiver<Message<'a, B>>)>,
    ) -> bool {
        &&& forall|k: int| 0 <= k < chosen.len() ==> self.listened().contains(#[trigger] chosen[k].0@)
        &&& forall|topic: Seq<char>| self.listened().contains(topic)
            ==> exists|k: int| 0 <= k < chosen.len() && #[trigger] chosen[k].0@ == topic
        &&& forall|j: int, k: int| 0 <= j < k < chosen.len() ==> chosen[j].0@ != chosen[k].0@
        &&& forall|k: int| 0 <= k < chosen.len() ==> *(#[trigger] chosen[k]).1 == self.endpoint_of(chosen[k].0@).1
    }

    /// An entry of the receive list: a registered topic subscribed among the
    /// first `upto` subscriptions, at `position`, with its receiving end.
    spec fn chosen_entry(
        &self,
        entry: (&'static str, &async_channel::Receiver<Message<'a, B>>),
        position: usize,
        upto: int,
    ) -> bool {
        &&& self.table().contains_key(entry.0@)
        &&& self.table()[entry.0@] == position
        &&& *entry.1 == self.endpoint_of(entry.0@).1
        &&& exists|j: int| 0 <= j < upto && #[trigger] self.subscribed@[j]@ == entry.0@
    }

    /// An entry listed among the first `upto` subscriptions is listed among
    /// the first `upto + 1`.
    proof fn lemma_entries_widen(
        &self,
        chosen: Seq<(&'static str, &async_channel::Receiver<Message<'a, B>>)>,
        positions: Seq<usize>,
        upto: int,
    )
        requires
            chosen.len() == positions.len(),
            forall|k: int| 0 <= k < chosen.len() ==> self.chosen_entry(#[trigger] chosen[k], positions[k], upto),
        ensures
            forall|k: int| 0 <= k < chosen.len() ==> self.chosen_entry(#[trigger] chosen[k], positions[k], upto + 1),
    {
        assert forall|k: int| 0 <= k < chosen.len() implies self.chosen_entry(#[trigger] chosen[k], positions[k], upto + 1) by {
            assert(self.chosen_entry(chosen[k], positions[k], upto));
        };
    }

    proof fn lemma_chosen_cover(
        &self,
        chosen: Seq<(&'static str, &async_channel::Receiver<Message<'a, B>>)>,
        positions: Seq<usize>,
    )
        requires
            self.wf(),
            chosen.len() == positions.len(),
            positions.no_duplicates(),
            forall|k: int| 0 <= k < chosen.len() ==> self.chosen_entry(#[trigger] chosen[k], positions[k], self.subscribed@.len() as int),
            forall|j: int| 0 <= j < self.subscribed@.len() && self.table().contains_key(#[trigger] self.subscribed@[j]@)
                ==> positions.contains(self.table()[self.subscribed@[j]@]),
        ensures
            chosen.len() == 0 <==> self.listened().is_empty(),
            forall|k: int| 0 <= k < chosen.len() ==> self.listened().contains(#[trigger] chosen[k].0@),
            forall|topic: Seq<char>| self.listened().contains(topic)
                ==> exists|k: int| 0 <= k < chosen.len() && #[trigger] chosen[k].0@ == topic,
            forall|j: int, k: int| 0 <= j < k < chosen.len() ==> chosen[j].0@ != chosen[k].0@,
            forall|k: int| 0 <= k < chosen.len() ==> *(#[trigger] chosen[k]).1 == self.endpoint_of(chosen[k].0@).1,
    {
        assert forall|k: int| 0 <= k < chosen.len() implies self.listened().contains(#[trigger] chosen[k].0@) by {
            assert(self.chosen_entry(chosen[k], positions[k], self.subscribed@.len() as int));
            let j = choose|j: int| 0 <= j < self.subscribed@.len() && #[trigger] self.subscribed@[j]@ == chosen[k].0@;
            assert(self.subscriptions()[j] == chosen[k].0@);
        };
        assert forall|topic: Seq<char>| self.listened().contains(topic)
            implies exists|k: int| 0 <= k < chosen.len() && #[trigger] chosen[k].0@ == topic by {
            let j = choose|j: int| 0 <= j < self.subscriptions().len() && self.subscriptions()[j] == topic;
            assert(self.subscribed@[j]@ == topic);
            let k = choose|k: int| 0 <= k < positions.len() && positions[k] == self.table()[topic];
            assert(self.chosen_entry(chosen[k], positions[k], self.subscribed@.len() as int));
            assert(self.table()[chosen[k].0@] == self.table()[topic]);
            assert(chosen[k].0@ == topic);
        };
        assert forall|j: int, k: int| 0 <= j < k < chosen.len() implies chosen[j].0@ != chosen[k].0@ by {
            assert(self.chosen_entry(chosen[j], positions[j], self.subscribed@.len() as int));
            assert(self.chosen_entry(chosen[k], positions[k], self.subscribed@.len() as int));
        };
        assert forall|k: int| 0 <= k < chosen.len() implies *(#[trigger] chosen[k]).1 == self.endpoint_of(chosen[k].0@).1 by {
            assert(self.chosen_entry(chosen[k], positions[k], self.subscribed@.len() as int));
        };
        if chosen.len() == 0 {
            assert forall|topic: Seq<char>| !self.listened().contains(topic) by {
                if self.listened().contains(topic) {
                    let k = choose|k: int| 0 <= k < chosen.len() && #[trigger] chosen[k].0@ == topic;
                }
            };
            assert(self.listened() =~= Set::<Seq<char>>::empty());
        } else {
            assert(self.listened().contains(chosen[0].0@));
        }
    }
}

/// Whether `position` occurs in `positions`.
fn contains_position(positions: &Vec<usize>, position: usize) -> (found: bool)
    ensures
        found == positions@.contains(position),
{
    let mut k: usize = 0;
    while k < positions.len()
        invariant
            0 <= k <= positions@.len(),
            forall|m: int| 0 <= m < k ==> positions@[m] != position,
        decreases positions@.len() - k,
    {
        if positions[k] == position {
            return true;
        }
        k += 1;
    }
    false
}

impl<'a, B: ?Sized + Sendable> Clone for Context<'a, B> {
    /// A context with the same topics and subscriptions, whose channel ends are
    /// further handles on the same channels.
    fn clone(&self) -> (copy: Self)
        ensures
            copy.table() == self.table(),
            copy.subscriptions() == self.subscriptions(),
            forall|topic: Seq<char>| self.registered().contains(topic)
                ==> #[trigger] copy.endpoint_of(topic).0 == self.endpoint_of(topic).0,
    {
        proof {
            use_type_invariant(self);
        }
        let mut endpoints: Vec<Endpoints<'a, B>> = Vec::new();
        let mut i: usize = 0;
        while i < self.endpoints.len()
            invariant
                0 <= i <= self.endpoints@.len(),
                endpoints@.len() == i,
                forall|k: int| 0 <= k < i ==> #[trigger] endpoints@[k].0 == self.endpoints@[k].0,
            decreases self.endpoints@.len() - i,
        {
            let ends = (sender_clone(&self.endpoints[i].0), receiver_clone(&self.endpoints[i].1));
            endpoints.push(ends);
            i += 1;
        }
        let mut subscribed: Vec<&'static str> = Vec::new();
        let mut j: usize = 0;
        while j < self.subscribed.len()
            invariant
                0 <= j <= self.subscribed@.len(),
                subscribed@ == self.subscribed@.take(j as int),
            decreases self.subscribed@.len() - j,
        {
            subscribed.push(self.subscribed[j]);
            assert(self.subscribed@.take(j + 1) =~= self.subscribed@.take(j as int).push(self.subscribed@[j as int]));
            j += 1;
        }
        assert(subscribed@ =~= self.subscribed@);
        let copy = Context { channels: table_clone(&self.channels), endpoints, subscribed };
        assert(copy.table() == self.table());
        assert(copy.endpoints@.len() == self.endpoints@.len());
        assert forall|topic: Seq<char>| self.wf() && self.registered().contains(topic)
            implies #[trigger] copy.endpoint_of(topic).0 == self.endpoint_of(topic).0 by {
            assert(self.table().contains_key(topic));
            let k = self.table()[topic] as int;
            assert(copy.endpoints@[k].0 == self.endpoints@[k].0);
        };
        assert(copy.subscriptions() =~= self.subscriptions());
        copy
    }
}

/// Subscribing to a topic that has a channel makes a receive listen to it, and
/// adds nothing else: a receive then never fails with `NoSubscriptions`.
pub proof fn lemma_subscribe_listens<'a, B: ?Sized + Sendable>(
    before: Context<'a, B>,
    after: Context<'a, B>,
    topic: Seq<char>,
)
    requires
        after.table() == before.table(),
        after.subscriptions() == before.subscriptions().push(topic),
    ensures
        before.registered().contains(topic) ==> after.listened() == before.listened().insert(topic),
        before.registered().contains(topic) ==> !after.listened().is_empty(),
        !before.registered().contains(topic) ==> after.listened() == before.listened(),
{
    assert forall|t: Seq<char>| after.subscriptions().contains(t)
        <==> before.subscriptions().contains(t) || t == topic by {
        if after.subscriptions().contains(t) {
            let j = choose|j: int| 0 <= j < after.subscriptions().len() && after.subscriptions()[j] == t;
            if j < before.subscriptions().len() {
                assert(before.subscriptions()[j] == t);
            }
        }
        if before.subscriptions().contains(t) {
            let j = choose|j: int| 0 <= j < before.subscriptions().len() && before.subscriptions()[j] == t;
            assert(after.subscriptions()[j] == t);
        }
        if t == topic {
            assert(after.subscriptions()[before.subscriptions().len() as int] == t);
        }
    };
    if before.registered().contains(topic) {
        assert(after.listened() =~= before.listened().insert(topic));
        assert(after.listened().contains(topic));
    } else {
        assert(after.listened() =~= before.listened());
    }
}

/// Adding a channel under a subscribed topic makes a receive listen to it; a
/// channel under a topic nobody subscribed to changes nothing for a receive.
pub proof fn lemma_new_channel_listens<'a, B: ?Sized + Sendable>(
    before: Context<'a, B>,
    after: Context<'a, B>,
    topic: Seq<char>,
)
    requires
        after.registered() == before.registered().insert(topic),
        after.subscriptions() == before.subscriptions(),
    ensures
        before.subscriptions().contains(topic) ==> after.listened() == before.listened().insert(topic),
        !before.subscriptions().contains(topic) ==> after.listened() == before.listened(),
{
    if before.subscriptions().contains(topic) {
        assert(after.listened() =~= before.listened().insert(topic));
    } else {
        assert(after.listened() =~= before.listened());
    }
}

/// What a receive listens to is always subscribed and has a channel: a
/// receive never waits on a topic without a channel, nor on one that nobody
/// subscribed to.
pub proof fn lemma_listened_is_subscribed_and_registered<'a, B: ?Sized + Sendable>(ctx: Context<'a, B>, topic: Seq<char>)
    ensures
        ctx.listened().contains(topic) <==> ctx.subscriptions().contains(topic) && ctx.registered().contains(topic),
        ctx.subscriptions().len() == 0 ==> ctx.listened().is_empty(),
        ctx.registered().is_empty() ==> ctx.listened().is_empty(),
{
    if ctx.subscriptions().len() == 0 {
        assert(ctx.listened() =~= Set::<Seq<char>>::empty());
    }
    if ctx.registered().is_empty() {
        assert(ctx.listened() =~= Set::<Seq<char>>::empty());
    }
}

} // verus!
