//! The store actor's decisions: who subscribes to what, which subscribers
//! hear an event and which stay after it, and what a generation request is
//! answered at each point where its outside work can stop.

use vstd::prelude::*;
use crate::nexus::{
    configuration_refusal, configure, contained, contained_relative, Configuration,
    ConfigurationRefusal, RuntimeError,
};
use crate::signal::{
    AssemblySummary, FileLocation, Generation, GenerationRefusal, GenerationRequest, ProjectionFault, Refusal,
    Reply, Stream, SubscriptionRequest, SyntaxFault,
};
use crate::text::copy_text;
use crate::generation::{put, put_text};

verus! {

// ===========================================================================
// Views
// ===========================================================================

/// A file location as two texts: its source name and relative path.
pub open spec fn location(f: FileLocation) -> (Seq<char>, Seq<char>) {
    (f.source_name@, f.relative_path@)
}

/// A fresh copy of a file location.
pub fn copy_location(f: &FileLocation) -> (r: FileLocation)
    ensures
        location(r) == location(*f),
{
    FileLocation {
        source_name: copy_text(&f.source_name),
        relative_path: copy_text(&f.relative_path),
    }
}

/// Whether two file locations name the same file.
pub fn same_location(a: &FileLocation, b: &FileLocation) -> (r: bool)
    ensures
        r == (location(*a) == location(*b)),
{
    a.source_name == b.source_name && a.relative_path == b.relative_path
}

// ===========================================================================
// Ordinary subscribers
// ===========================================================================

/// A session's subscription to the generation events of one file.
#[derive(Debug)]
pub struct Subscriber {
    pub session: u64,
    pub subscription: SubscriptionRequest,
}

/// A subscriber as its session and the file it hears.
pub open spec fn subscriber_view(s: Subscriber) -> (u64, (Seq<char>, Seq<char>)) {
    (s.session, location(s.subscription.file))
}

/// The ordinary socket's subscribers, in the order they subscribed.
#[derive(Debug)]
pub struct Subscribers {
    pub entries: Vec<Subscriber>,
}

impl View for Subscribers {
    type V = Seq<(u64, (Seq<char>, Seq<char>))>;

    open spec fn view(&self) -> Seq<(u64, (Seq<char>, Seq<char>))> {
        self.entries@.map_values(|s: Subscriber| subscriber_view(s))
    }
}

/// The subscribers that stay after a session unsubscribes from what it
/// heard: all but that session's subscriptions to it, in their order.
pub open spec fn unsubscribed<K>(s: Seq<(u64, K)>, session: u64, file: K) -> Seq<(u64, K)>
    decreases s.len(),
{
    if s.len() == 0 {
        s
    } else {
        let rest = unsubscribed(s.drop_last(), session, file);
        if s.last().0 == session && s.last().1 == file {
            rest
        } else {
            rest.push(s.last())
        }
    }
}

/// The subscribers that stay after an event about `file` was sent: those
/// that hear something else, and those of `file` whose delivery succeeded.
pub open spec fn kept<K>(s: Seq<(u64, K)>, file: K, delivered: Seq<bool>) -> Seq<(u64, K)>
    decreases s.len(),
{
    if s.len() == 0 {
        s
    } else {
        let i = s.len() - 1;
        let rest = kept(s.drop_last(), file, delivered);
        if s[i].1 != file || delivered[i] {
            rest.push(s[i])
        } else {
            rest
        }
    }
}

/// The items whose mark is set, in their order.
pub open spec fn marked<T>(s: Seq<T>, keep: Seq<bool>) -> Seq<T>
    decreases s.len(),
{
    if s.len() == 0 {
        s
    } else {
        let i = s.len() - 1;
        let rest = marked(s.drop_last(), keep);
        if keep[i] {
            rest.push(s[i])
        } else {
            rest
        }
    }
}

/// For each subscriber, whether it stays when `session` unsubscribes from `file`.
pub open spec fn staying<K>(s: Seq<(u64, K)>, session: u64, file: K) -> Seq<bool> {
    Seq::new(s.len(), |j: int| !(s[j].0 == session && s[j].1 == file))
}

/// For each subscriber, whether it stays after an event about `file` was sent.
pub open spec fn keeping<K>(s: Seq<(u64, K)>, file: K, delivered: Seq<bool>) -> Seq<bool> {
    Seq::new(s.len(), |j: int| s[j].1 != file || delivered[j])
}

proof fn lemma_marked_prefix<T>(s: Seq<T>, a: Seq<bool>, b: Seq<bool>)
    requires
        forall|j: int| 0 <= j < s.len() ==> a[j] == b[j],
    ensures
        marked(s, a) == marked(s, b),
    decreases s.len(),
{
    if s.len() > 0 {
        lemma_marked_prefix(s.drop_last(), a, b);
    }
}

/// Unsubscribing keeps exactly the subscribers its mask marks.
pub proof fn lemma_unsubscribed_marked<K>(s: Seq<(u64, K)>, session: u64, file: K)
    ensures
        unsubscribed(s, session, file) == marked(s, staying(s, session, file)),
    decreases s.len(),
{
    if s.len() > 0 {
        lemma_unsubscribed_marked(s.drop_last(), session, file);
        lemma_marked_prefix(
            s.drop_last(),
            staying(s.drop_last(), session, file),
            staying(s, session, file),
        );
    }
}

/// Sending an event keeps exactly the subscribers its mask marks.
pub proof fn lemma_kept_marked<K>(s: Seq<(u64, K)>, file: K, delivered: Seq<bool>)
    requires
        delivered.len() == s.len(),
    ensures
        kept(s, file, delivered) == marked(s, keeping(s, file, delivered)),
    decreases s.len(),
{
    if s.len() > 0 {
        lemma_kept_marked(s.drop_last(), file, delivered.drop_last());
        lemma_kept_prefix(s.drop_last(), file, delivered.drop_last(), delivered);
        lemma_marked_prefix(
            s.drop_last(),
            keeping(s.drop_last(), file, delivered.drop_last()),
            keeping(s, file, delivered),
        );
    }
}

proof fn lemma_kept_prefix<K>(s: Seq<(u64, K)>, file: K, a: Seq<bool>, b: Seq<bool>)
    requires
        forall|j: int| 0 <= j < s.len() ==> a[j] == b[j],
    ensures
        kept(s, file, a) == kept(s, file, b),
    decreases s.len(),
{
    if s.len() > 0 {
        lemma_kept_prefix(s.drop_last(), file, a, b);
    }
}

/// Keep the items whose mark is set, in their order: what a caller holds
/// beside each subscriber follows the subscribers through a change.
pub fn retain_marked<T>(items: Vec<T>, keep: &Vec<bool>) -> (r: Vec<T>)
    requires
        keep@.len() == items@.len(),
    ensures
        r@ == marked(items@, keep@),
{
    let ghost all = items@;
    let ghost n = all.len();
    assert(n <= usize::MAX) by {
        assert(items@.len() == items.len());
    }
    let mut rest = items;
    let mut out: Vec<T> = Vec::new();
    let mut i: usize = 0;
    while rest.len() > 0
        invariant
            n == all.len(),
            n <= usize::MAX,
            keep@.len() == n,
            i == n - rest@.len(),
            rest@.len() <= n,
            out@ == marked(all.take(i as int), keep@),
            forall|j: int| 0 <= j < rest@.len() ==> #[trigger] rest@[j] == all[n - rest@.len() + j],
        decreases rest@.len(),
    {
        let e = rest.remove(0);
        proof {
            assert(all.take(i + 1).drop_last() =~= all.take(i as int));
            assert(all.take(i + 1)[i as int] == all[i as int]);
        }
        if keep[i] {
            out.push(e);
        }
        i += 1;
    }
    proof {
        assert(all.take(n as int) =~= all);
    }
    out
}

proof fn lemma_unsubscribed_take<K>(all: Seq<(u64, K)>, k: int, session: u64, file: K)
    requires
        0 <= k < all.len(),
    ensures
        unsubscribed(all.take(k + 1), session, file) == if all[k].0 == session && all[k].1
            == file {
            unsubscribed(all.take(k), session, file)
        } else {
            unsubscribed(all.take(k), session, file).push(all[k])
        },
{
    let s = all.take(k + 1);
    assert(s.drop_last() =~= all.take(k));
    assert(s.last() == all[k]);
}

impl Subscribers {
    /// No subscribers.
    pub fn new() -> (r: Subscribers)
        ensures
            r@ == Seq::<(u64, (Seq<char>, Seq<char>))>::empty(),
    {
        Subscribers { entries: Vec::new() }
    }

    /// A session subscribes; it is heard after every earlier subscriber.
    pub fn subscribe(&mut self, session: u64, subscription: SubscriptionRequest)
        ensures
            final(self)@ == old(self)@.push((session, location(subscription.file))),
    {
        let entry = Subscriber { session, subscription };
        self.entries.push(entry);
        proof {
            assert(self@ =~= old(self)@.push((session, location(subscription.file))));
        }
    }

    /// A session unsubscribes: its own subscriptions to that file go, every
    /// other subscriber stays in order. For each subscriber before, whether
    /// it stayed.
    pub fn unsubscribe(&mut self, session: u64, subscription: &SubscriptionRequest) -> (r: Vec<
        bool,
    >)
        ensures
            final(self)@ == unsubscribed(old(self)@, session, location(subscription.file)),
            r@ == staying(old(self)@, session, location(subscription.file)),
            final(self)@ == marked(old(self)@, r@),
    {
        let ghost file = location(subscription.file);
        let ghost all = self@;
        let mut stays: Vec<bool> = Vec::new();
        let mut k: usize = 0;
        while k < self.entries.len()
            invariant
                k <= self.entries@.len(),
                all == self@,
                file == location(subscription.file),
                stays@.len() == k,
                forall|j: int|
                    0 <= j < k ==> stays@[j] == !(all[j].0 == session && all[j].1 == file),
            decreases self.entries@.len() - k,
        {
            proof {
                assert(subscriber_view(self.entries@[k as int]) == all[k as int]);
            }
            let e = &self.entries[k];
            stays.push(!(e.session == session && same_location(&e.subscription.file, &subscription.file)));
            k += 1;
        }
        proof {
            assert(stays@ =~= staying(all, session, file));
            lemma_unsubscribed_marked(all, session, file);
        }
        let mut entries: Vec<Subscriber> = Vec::new();
        std::mem::swap(&mut entries, &mut self.entries);
        let mut out: Vec<Subscriber> = Vec::new();
        let mut rest = entries;
        let ghost n = all.len();
        while rest.len() > 0
            invariant
                file == location(subscription.file),
                all.len() == n,
                rest@.len() <= n,
                out@.map_values(|s: Subscriber| subscriber_view(s)) == unsubscribed(
                    all.take(n - rest@.len()),
                    session,
                    file,
                ),
                forall|j: int|
                    0 <= j < rest@.len() ==> subscriber_view(#[trigger] rest@[j]) == all[n
                        - rest@.len() + j],
            decreases rest@.len(),
        {
            let ghost k = n - rest@.len();
            let e = rest.remove(0);
            proof {
                assert(subscriber_view(e) == all[k]);
                lemma_unsubscribed_take(all, k, session, file);
            }
            let ghost before = out@;
            if !(e.session == session && same_location(&e.subscription.file, &subscription.file)) {
                out.push(e);
                proof {
                    assert(out@.map_values(|s: Subscriber| subscriber_view(s)) =~= before.map_values(
                        |s: Subscriber| subscriber_view(s),
                    ).push(all[k]));
                }
            }
        }
        proof {
            assert(all.take(n as int) =~= all);
        }
        self.entries = out;
        stays
    }

    /// For each subscriber, whether it hears the events of `file`.
    pub fn listening(&self, file: &FileLocation) -> (r: Vec<bool>)
        ensures
            r@.len() == self@.len(),
            forall|i: int| 0 <= i < r@.len() ==> r@[i] == (self@[i].1 == location(*file)),
    {
        let mut r: Vec<bool> = Vec::new();
        let mut i: usize = 0;
        while i < self.entries.len()
            invariant
                i <= self.entries@.len(),
                r@.len() == i,
                forall|j: int|
                    0 <= j < i ==> r@[j] == (subscriber_view(self.entries@[j]).1 == location(
                        *file,
                    )),
            decreases self.entries@.len() - i,
        {
            r.push(same_location(&self.entries[i].subscription.file, file));
            i += 1;
        }
        r
    }

    /// After an event about `file` was sent to its listeners: those whose
    /// delivery failed leave, every other subscriber stays in order. For
    /// each subscriber before, whether it stayed.
    pub fn retain_delivered(&mut self, file: &FileLocation, delivered: &Vec<bool>) -> (r: Vec<bool>)
        requires
            delivered@.len() == old(self)@.len(),
        ensures
            final(self)@ == kept(old(self)@, location(*file), delivered@),
            r@ == keeping(old(self)@, location(*file), delivered@),
            final(self)@ == marked(old(self)@, r@),
    {
        let ghost f = location(*file);
        let ghost all = self@;
        let mut keeps: Vec<bool> = Vec::new();
        let mut k: usize = 0;
        while k < self.entries.len()
            invariant
                k <= self.entries@.len(),
                all == self@,
                f == location(*file),
                delivered@.len() == all.len(),
                keeps@.len() == k,
                forall|j: int| 0 <= j < k ==> keeps@[j] == (all[j].1 != f || delivered@[j]),
            decreases self.entries@.len() - k,
        {
            proof {
                assert(subscriber_view(self.entries@[k as int]) == all[k as int]);
            }
            keeps.push(!same_location(&self.entries[k].subscription.file, file) || delivered[k]);
            k += 1;
        }
        proof {
            assert(keeps@ =~= keeping(all, f, delivered@));
            lemma_kept_marked(all, f, delivered@);
        }
        let mut entries: Vec<Subscriber> = Vec::new();
        std::mem::swap(&mut entries, &mut self.entries);
        let mut out: Vec<Subscriber> = Vec::new();
        let mut rest = entries;
        let ghost n = all.len();
        let total = rest.len();
        let mut i: usize = 0;
        while rest.len() > 0
            invariant
                f == location(*file),
                n == total,
                all.len() == n,
                delivered@.len() == n,
                i == n - rest@.len(),
                rest@.len() <= n,
                out@.map_values(|s: Subscriber| subscriber_view(s)) == kept(
                    all.take(i as int),
                    f,
                    delivered@,
                ),
                forall|j: int|
                    0 <= j < rest@.len() ==> subscriber_view(#[trigger] rest@[j]) == all[n
                        - rest@.len() + j],
            decreases rest@.len(),
        {
            let e = rest.remove(0);
            proof {
                assert(subscriber_view(e) == all[i as int]);
                assert(all.take(i + 1).drop_last() =~= all.take(i as int));
                assert(all.take(i + 1)[i as int] == all[i as int]);
            }
            let ghost before = out@;
            if !same_location(&e.subscription.file, file) || delivered[i] {
                out.push(e);
                proof {
                    assert(out@.map_values(|s: Subscriber| subscriber_view(s)) =~= before.map_values(
                        |s: Subscriber| subscriber_view(s),
                    ).push(all[i as int]));
                }
            }
            i += 1;
        }
        proof {
            assert(all.take(n as int) =~= all);
        }
        self.entries = out;
        keeps
    }
}

/// Unsubscribing takes nothing from another session.
pub proof fn lemma_unsubscribe_keeps_other_sessions<K>(
    s: Seq<(u64, K)>,
    session: u64,
    file: K,
    other: u64,
)
    requires
        other != session,
    ensures
        unsubscribed(s, session, file).filter(|e: (u64, K)| e.0 == other) == s.filter(
            |e: (u64, K)| e.0 == other,
        ),
    decreases s.len(),
{
    let p = |e: (u64, K)| e.0 == other;
    if s.len() > 0 {
        lemma_unsubscribe_keeps_other_sessions(s.drop_last(), session, file, other);
        let rest = unsubscribed(s.drop_last(), session, file);
        assert(s =~= s.drop_last().push(s.last()));
        s.drop_last().lemma_filter_push(s.last(), p);
        if !(s.last().0 == session && s.last().1 == file) {
            rest.lemma_filter_push(s.last(), p);
        }
    }
}

/// After unsubscribing, the session holds no subscription to that file.
pub proof fn lemma_unsubscribe_removes_own<K>(s: Seq<(u64, K)>, session: u64, file: K)
    ensures
        forall|i: int|
            0 <= i < unsubscribed(s, session, file).len() ==> !(#[trigger] unsubscribed(
                s,
                session,
                file,
            )[i] == (session, file)),
    decreases s.len(),
{
    if s.len() > 0 {
        lemma_unsubscribe_removes_own(s.drop_last(), session, file);
        let rest = unsubscribed(s.drop_last(), session, file);
        let r = unsubscribed(s, session, file);
        if !(s.last().0 == session && s.last().1 == file) {
            assert forall|i: int| 0 <= i < r.len() implies !(#[trigger] r[i] == (session, file)) by {
                if i < rest.len() {
                    assert(r[i] == rest[i]);
                }
            }
        }
    }
}

// ===========================================================================
// Meta subscribers
// ===========================================================================

/// What a meta subscriber observes.
#[derive(Clone, Copy, Debug, PartialEq, Eq, Structural)]
pub enum MetaSelection {
    Configuration,
    Sources,
}

/// A session's subscription on the meta socket.
#[derive(Debug)]
pub struct MetaSubscriber {
    pub session: u64,
    pub selection: MetaSelection,
}

pub open spec fn meta_subscriber_view(s: MetaSubscriber) -> (u64, MetaSelection) {
    (s.session, s.selection)
}

/// The meta socket's subscribers, in the order they subscribed.
#[derive(Debug)]
pub struct MetaSubscribers {
    pub entries: Vec<MetaSubscriber>,
}

impl View for MetaSubscribers {
    type V = Seq<(u64, MetaSelection)>;

    open spec fn view(&self) -> Seq<(u64, MetaSelection)> {
        self.entries@.map_values(|s: MetaSubscriber| meta_subscriber_view(s))
    }
}

impl MetaSubscribers {
    /// No subscribers.
    pub fn new() -> (r: MetaSubscribers)
        ensures
            r@ == Seq::<(u64, MetaSelection)>::empty(),
    {
        MetaSubscribers { entries: Vec::new() }
    }

    /// A session subscribes to a selection.
    pub fn subscribe(&mut self, session: u64, selection: MetaSelection)
        ensures
            final(self)@ == old(self)@.push((session, selection)),
    {
        let entry = MetaSubscriber { session, selection };
        self.entries.push(entry);
        proof {
            assert(self@ =~= old(self)@.push((session, selection)));
        }
    }

    /// A session unsubscribes: its own subscriptions to that selection go,
    /// every other subscriber stays in order. For each subscriber before,
    /// whether it stayed.
    pub fn unsubscribe(&mut self, session: u64, selection: MetaSelection) -> (r: Vec<bool>)
        ensures
            final(self)@ == unsubscribed(old(self)@, session, selection),
            r@ == staying(old(self)@, session, selection),
            final(self)@ == marked(old(self)@, r@),
    {
        let ghost file = selection;
        let ghost all = self@;
        let mut stays: Vec<bool> = Vec::new();
        let mut k: usize = 0;
        while k < self.entries.len()
            invariant
                k <= self.entries@.len(),
                all == self@,
                file == selection,
                stays@.len() == k,
                forall|j: int|
                    0 <= j < k ==> stays@[j] == !(all[j].0 == session && all[j].1 == file),
            decreases self.entries@.len() - k,
        {
            proof {
                assert(meta_subscriber_view(self.entries@[k as int]) == all[k as int]);
            }
            let e = &self.entries[k];
            stays.push(!(e.session == session && e.selection == selection));
            k += 1;
        }
        proof {
            assert(stays@ =~= staying(all, session, file));
            lemma_unsubscribed_marked(all, session, file);
        }
        let mut entries: Vec<MetaSubscriber> = Vec::new();
        std::mem::swap(&mut entries, &mut self.entries);
        let mut out: Vec<MetaSubscriber> = Vec::new();
        let mut rest = entries;
        let ghost n = all.len();
        while rest.len() > 0
            invariant
                file == selection,
                all.len() == n,
                rest@.len() <= n,
                out@.map_values(|s: MetaSubscriber| meta_subscriber_view(s)) == unsubscribed(
                    all.take(n - rest@.len()),
                    session,
                    file,
                ),
                forall|j: int|
                    0 <= j < rest@.len() ==> meta_subscriber_view(#[trigger] rest@[j]) == all[n
                        - rest@.len() + j],
            decreases rest@.len(),
        {
            let ghost k = n - rest@.len();
            let e = rest.remove(0);
            proof {
                assert(meta_subscriber_view(e) == all[k]);
                lemma_unsubscribed_take(all, k, session, file);
            }
            let ghost before = out@;
            if !(e.session == session && e.selection == selection) {
                out.push(e);
                proof {
                    assert(out@.map_values(|s: MetaSubscriber| meta_subscriber_view(s)) =~= before.map_values(
                        |s: MetaSubscriber| meta_subscriber_view(s),
                    ).push(all[k]));
                }
            }
        }
        proof {
            assert(all.take(n as int) =~= all);
        }
        self.entries = out;
        stays
    }

    /// For each subscriber, whether it hears the events of a selection.
    pub fn listening(&self, selection: MetaSelection) -> (r: Vec<bool>)
        ensures
            r@.len() == self@.len(),
            forall|i: int| 0 <= i < r@.len() ==> r@[i] == (self@[i].1 == selection),
    {
        let mut r: Vec<bool> = Vec::new();
        let mut i: usize = 0;
        while i < self.entries.len()
            invariant
                i <= self.entries@.len(),
                r@.len() == i,
                forall|j: int|
                    0 <= j < i ==> r@[j] == (meta_subscriber_view(self.entries@[j]).1 == selection),
            decreases self.entries@.len() - i,
        {
            r.push(self.entries[i].selection == selection);
            i += 1;
        }
        r
    }

    /// After an event of a selection was sent to its listeners: those whose
    /// delivery failed leave, every other subscriber stays in order. For
    /// each subscriber before, whether it stayed.
    pub fn retain_delivered(&mut self, selection: MetaSelection, delivered: &Vec<bool>) -> (r: Vec<
        bool,
    >)
        requires
            delivered@.len() == old(self)@.len(),
        ensures
            final(self)@ == kept(old(self)@, selection, delivered@),
            r@ == keeping(old(self)@, selection, delivered@),
            final(self)@ == marked(old(self)@, r@),
    {
        let ghost f = selection;
        let ghost all = self@;
        let mut keeps: Vec<bool> = Vec::new();
        let mut k: usize = 0;
        while k < self.entries.len()
            invariant
                k <= self.entries@.len(),
                all == self@,
                f == selection,
                delivered@.len() == all.len(),
                keeps@.len() == k,
                forall|j: int| 0 <= j < k ==> keeps@[j] == (all[j].1 != f || delivered@[j]),
            decreases self.entries@.len() - k,
        {
            proof {
                assert(meta_subscriber_view(self.entries@[k as int]) == all[k as int]);
            }
            keeps.push(self.entries[k].selection != selection || delivered[k]);
            k += 1;
        }
        proof {
            assert(keeps@ =~= keeping(all, f, delivered@));
            lemma_kept_marked(all, f, delivered@);
        }
        let mut entries: Vec<MetaSubscriber> = Vec::new();
        std::mem::swap(&mut entries, &mut self.entries);
        let mut out: Vec<MetaSubscriber> = Vec::new();
        let mut rest = entries;
        let ghost n = all.len();
        let total = rest.len();
        let mut i: usize = 0;
        while rest.len() > 0
            invariant
                f == selection,
                n == total,
                all.len() == n,
                delivered@.len() == n,
                i == n - rest@.len(),
                rest@.len() <= n,
                out@.map_values(|s: MetaSubscriber| meta_subscriber_view(s)) == kept(
                    all.take(i as int),
                    f,
                    delivered@,
                ),
                forall|j: int|
                    0 <= j < rest@.len() ==> meta_subscriber_view(#[trigger] rest@[j]) == all[n
                        - rest@.len() + j],
            decreases rest@.len(),
        {
            let e = rest.remove(0);
            proof {
                assert(meta_subscriber_view(e) == all[i as int]);
                assert(all.take(i + 1).drop_last() =~= all.take(i as int));
                assert(all.take(i + 1)[i as int] == all[i as int]);
            }
            let ghost before = out@;
            if e.selection != selection || delivered[i] {
                out.push(e);
                proof {
                    assert(out@.map_values(|s: MetaSubscriber| meta_subscriber_view(s)) =~= before.map_values(
                        |s: MetaSubscriber| meta_subscriber_view(s),
                    ).push(all[i as int]));
                }
            }
            i += 1;
        }
        proof {
            assert(all.take(n as int) =~= all);
        }
        self.entries = out;
        keeps
    }
}

// ===========================================================================
// Generation requests
// ===========================================================================

/// A fresh copy of a generation request.
pub fn copy_request(r: &GenerationRequest) -> (c: GenerationRequest)
    ensures
        location(c.file) == location(r.file),
{
    GenerationRequest { file: copy_location(&r.file) }
}

/// The start of a generation: a path that leaves its root is refused before
/// anything else; otherwise the started event the file's subscribers hear.
pub fn begin_generation(request: &GenerationRequest) -> (r: Result<Stream, Refusal>)
    ensures
        !contained(request.file.relative_path@) ==> (r matches Err(Refusal::InvalidRelativePath(p))
            && p@ == request.file.relative_path@),
        contained(request.file.relative_path@) ==> (r matches Ok(Stream::GenerationStarted(g))
            && location(g.file) == location(request.file)),
{
    match contained_relative(&request.file.relative_path) {
        None => Err(Refusal::InvalidRelativePath(copy_text(&request.file.relative_path))),
        Some(_) => Ok(Stream::GenerationStarted(copy_request(request))),
    }
}

/// The event a generation's reply is told to the file's subscribers as.
pub fn generation_event(reply: Reply) -> (r: Stream)
    requires
        !(reply is Observed),
    ensures
        reply matches Reply::Generated(g) ==> r == Stream::GenerationCompleted(g),
        reply matches Reply::GenerationRejected(e) ==> r == Stream::GenerationRefused(e),
{
    match reply {
        Reply::Generated(g) => Stream::GenerationCompleted(g),
        Reply::GenerationRejected(e) => Stream::GenerationRefused(e),
        Reply::Observed(_) => Stream::GenerationRefused(
            GenerationRefusal::InvalidRelativePath(String::new()),
        ),
    }
}

/// Where a generation's outside work stopped, or what it wrote.
#[derive(Debug)]
pub enum GenerationOutcome {
    /// The source manifest could not be read as a map.
    ManifestUnreadable,
    /// The manifest names no root for the source.
    UnknownSource,
    /// The source file is not inside its root.
    SourceNotContained,
    /// The source file could not be read.
    SourceUnreadable,
    /// The source is not valid Ethos, for this reason.
    InvalidEthos(String),
    /// The Rust projection refused the file, for this reason.
    ProjectionRejected(String),
    /// The artifact's destination is not inside the root.
    DestinationNotContained,
    /// The artifact was written at this path, relative to the root, and
    /// its assembly stored.
    Written(String),
    /// A filesystem, storage or string failure.
    Failed(RuntimeError),
}

/// The reply a generation earns at the point its outside work stopped.
pub open spec fn generation_reply(request: GenerationRequest, outcome: GenerationOutcome) -> Result<
    Reply,
    RuntimeError,
> {
    match outcome {
        GenerationOutcome::ManifestUnreadable => Ok(
            Reply::GenerationRejected(GenerationRefusal::ImportUnresolved(request.file)),
        ),
        GenerationOutcome::UnknownSource => Ok(
            Reply::GenerationRejected(GenerationRefusal::UnknownSource(request.file.source_name)),
        ),
        GenerationOutcome::SourceNotContained => Ok(
            Reply::GenerationRejected(
                GenerationRefusal::InvalidRelativePath(request.file.relative_path),
            ),
        ),
        GenerationOutcome::SourceUnreadable => Ok(
            Reply::GenerationRejected(GenerationRefusal::FileAbsent(request.file)),
        ),
        GenerationOutcome::InvalidEthos(reason) => Ok(
            Reply::GenerationRejected(
                GenerationRefusal::InvalidEthos(
                    SyntaxFault { extent_start: 0, extent_end: 0, reason },
                ),
            ),
        ),
        GenerationOutcome::ProjectionRejected(reason) => Ok(
            Reply::GenerationRejected(
                GenerationRefusal::RustProjectionRejected(ProjectionFault { reason }),
            ),
        ),
        GenerationOutcome::DestinationNotContained => Ok(
            Reply::GenerationRejected(
                GenerationRefusal::InvalidRelativePath(request.file.relative_path),
            ),
        ),
        GenerationOutcome::Written(artifact) => Ok(
            Reply::Generated(Generation { file: request.file, artifact }),
        ),
        GenerationOutcome::Failed(e) => Err(e),
    }
}

/// Answer a generation from where its outside work stopped.
pub fn answer_generation(request: GenerationRequest, outcome: GenerationOutcome) -> (r: Result<
    Reply,
    RuntimeError,
>)
    ensures
        r == generation_reply(request, outcome),
{
    match outcome {
        GenerationOutcome::ManifestUnreadable => Ok(
            Reply::GenerationRejected(GenerationRefusal::ImportUnresolved(request.file)),
        ),
        GenerationOutcome::UnknownSource => Ok(
            Reply::GenerationRejected(GenerationRefusal::UnknownSource(request.file.source_name)),
        ),
        GenerationOutcome::SourceNotContained => Ok(
            Reply::GenerationRejected(
                GenerationRefusal::InvalidRelativePath(request.file.relative_path),
            ),
        ),
        GenerationOutcome::SourceUnreadable => Ok(
            Reply::GenerationRejected(GenerationRefusal::FileAbsent(request.file)),
        ),
        GenerationOutcome::InvalidEthos(reason) => Ok(
            Reply::GenerationRejected(
                GenerationRefusal::InvalidEthos(
                    SyntaxFault { extent_start: 0, extent_end: 0, reason },
                ),
            ),
        ),
        GenerationOutcome::ProjectionRejected(reason) => Ok(
            Reply::GenerationRejected(
                GenerationRefusal::RustProjectionRejected(ProjectionFault { reason }),
            ),
        ),
        GenerationOutcome::DestinationNotContained => Ok(
            Reply::GenerationRejected(
                GenerationRefusal::InvalidRelativePath(request.file.relative_path),
            ),
        ),
        GenerationOutcome::Written(artifact) => Ok(
            Reply::Generated(Generation { file: request.file, artifact }),
        ),
        GenerationOutcome::Failed(e) => Err(e),
    }
}

/// The key an assembly is stored under: `source_name:relative_path`.
pub open spec fn assembly_key_text(f: FileLocation) -> Seq<char> {
    f.source_name@ + ":"@ + f.relative_path@
}

/// The key of a generated file's stored assembly.
pub fn assembly_key(f: &FileLocation) -> (r: String)
    ensures
        r@ == assembly_key_text(*f),
{
    let mut out = copy_text(&f.source_name);
    put(&mut out, ":");
    put_text(&mut out, &f.relative_path);
    out
}


// ===========================================================================
// Meta replies
// ===========================================================================

/// One source root a manifest names.
#[derive(Debug, PartialEq, Eq)]
pub struct Source {
    pub source_name: String,
    pub relative_path: String,
}

/// A reply on the meta socket.
#[derive(Debug)]
pub enum MetaReply {
    Configured(Configuration),
    ConfigurationRejected(ConfigurationRefusal),
    ObservedConfiguration(Configuration),
    ObservedSources(Vec<Source>),
}

pub open spec fn configuration_view(c: Configuration) -> (Seq<char>, Seq<char>, Seq<char>) {
    (c.ordinary_socket_path@, c.meta_socket_path@, c.source_manifest_path@)
}

/// A fresh copy of a configuration.
pub fn copy_configuration(c: &Configuration) -> (r: Configuration)
    ensures
        configuration_view(r) == configuration_view(*c),
{
    Configuration {
        ordinary_socket_path: copy_text(&c.ordinary_socket_path),
        meta_socket_path: copy_text(&c.meta_socket_path),
        source_manifest_path: copy_text(&c.source_manifest_path),
    }
}

/// The reply to a requested configuration: the refusal it earns, or the
/// configuration itself once it is accepted.
pub fn configuration_reply(current: &Configuration, value: Configuration) -> (r: MetaReply)
    ensures
        match configuration_refusal(*current, value) {
            Some(e) => r matches MetaReply::ConfigurationRejected(x) && x == e,
            None => r matches MetaReply::Configured(c) && configuration_view(c)
                == configuration_view(value),
        },
{
    match configure(current, &value) {
        Some(e) => MetaReply::ConfigurationRejected(e),
        None => MetaReply::Configured(value),
    }
}

/// The reply to observing a selection: the current configuration, or the
/// sources the manifest names; an unreadable manifest is refused.
pub fn meta_observation(
    selection: MetaSelection,
    current: &Configuration,
    sources: Option<Vec<Source>>,
) -> (r: MetaReply)
    ensures
        selection == MetaSelection::Configuration ==> (r matches MetaReply::ObservedConfiguration(c)
            && configuration_view(c) == configuration_view(*current)),
        selection == MetaSelection::Sources ==> match sources {
            Some(v) => r == MetaReply::ObservedSources(v),
            None => r == MetaReply::ConfigurationRejected(
                ConfigurationRefusal::UnreadableSourceManifest,
            ),
        },
{
    match selection {
        MetaSelection::Configuration => MetaReply::ObservedConfiguration(
            copy_configuration(current),
        ),
        MetaSelection::Sources => match sources {
            Some(v) => MetaReply::ObservedSources(v),
            None => MetaReply::ConfigurationRejected(ConfigurationRefusal::UnreadableSourceManifest),
        },
    }
}


// ===========================================================================
// Observed assemblies, in order
// ===========================================================================

/// Lexicographic order of texts by character: a proper prefix comes first.
pub open spec fn text_lt(a: Seq<char>, b: Seq<char>) -> bool
    decreases a.len(),
{
    if a.len() == 0 {
        b.len() > 0
    } else if b.len() == 0 {
        false
    } else if a[0] != b[0] {
        a[0] < b[0]
    } else {
        text_lt(a.drop_first(), b.drop_first())
    }
}

/// An assembly as its source name, relative path and artifact.
pub open spec fn summary_view(a: AssemblySummary) -> (Seq<char>, Seq<char>, Seq<char>) {
    (a.file.source_name@, a.file.relative_path@, a.artifact@)
}

pub open spec fn summary_views(s: Seq<AssemblySummary>) -> Seq<(Seq<char>, Seq<char>, Seq<char>)> {
    s.map_values(|a: AssemblySummary| summary_view(a))
}

/// Assemblies are ordered by source name, then by relative path.
pub open spec fn summary_lt(x: (Seq<char>, Seq<char>, Seq<char>), y: (Seq<char>, Seq<char>, Seq<char>)) -> bool {
    text_lt(x.0, y.0) || (x.0 == y.0 && text_lt(x.1, y.1))
}

/// No assembly comes before one listed ahead of it.
pub open spec fn summaries_sorted(s: Seq<(Seq<char>, Seq<char>, Seq<char>)>) -> bool {
    forall|i: int, j: int| 0 <= i < j < s.len() ==> !summary_lt(#[trigger] s[j], #[trigger] s[i])
}

proof fn lemma_text_lt_transitive(a: Seq<char>, b: Seq<char>, c: Seq<char>)
    requires
        text_lt(a, b),
        text_lt(b, c),
    ensures
        text_lt(a, c),
    decreases a.len(),
{
    if a.len() > 0 && b.len() > 0 && c.len() > 0 && a[0] == b[0] && b[0] == c[0] {
        lemma_text_lt_transitive(a.drop_first(), b.drop_first(), c.drop_first());
    }
}

proof fn lemma_text_lt_irreflexive(a: Seq<char>)
    ensures
        !text_lt(a, a),
    decreases a.len(),
{
    if a.len() > 0 {
        lemma_text_lt_irreflexive(a.drop_first());
    }
}

proof fn lemma_summary_lt_transitive(
    x: (Seq<char>, Seq<char>, Seq<char>),
    y: (Seq<char>, Seq<char>, Seq<char>),
    z: (Seq<char>, Seq<char>, Seq<char>),
)
    requires
        summary_lt(x, y),
        summary_lt(y, z),
    ensures
        summary_lt(x, z),
{
    if text_lt(x.0, y.0) && text_lt(y.0, z.0) {
        lemma_text_lt_transitive(x.0, y.0, z.0);
    } else if text_lt(x.1, y.1) && text_lt(y.1, z.1) {
        lemma_text_lt_transitive(x.1, y.1, z.1);
    }
}

/// Whether one text comes before another.
fn text_less(a: &String, b: &String) -> (r: bool)
    ensures
        r == text_lt(a@, b@),
{
    let x = crate::canonical::chars_of(a.as_str());
    let y = crate::canonical::chars_of(b.as_str());
    let mut i: usize = 0;
    proof {
        assert(x@.skip(0) =~= x@);
        assert(y@.skip(0) =~= y@);
    }
    while i < x.len() && i < y.len() && x[i] == y[i]
        invariant
            x@ == a@,
            y@ == b@,
            i <= x@.len(),
            i <= y@.len(),
            text_lt(a@, b@) == text_lt(x@.skip(i as int), y@.skip(i as int)),
        decreases x@.len() - i,
    {
        proof {
            assert(x@.skip(i as int).drop_first() =~= x@.skip(i + 1));
            assert(y@.skip(i as int).drop_first() =~= y@.skip(i + 1));
        }
        i += 1;
    }
    if i == x.len() {
        i < y.len()
    } else if i == y.len() {
        false
    } else {
        x[i] < y[i]
    }
}

fn summary_less(x: &AssemblySummary, y: &AssemblySummary) -> (r: bool)
    ensures
        r == summary_lt(summary_view(*x), summary_view(*y)),
{
    text_less(&x.file.source_name, &y.file.source_name) || (x.file.source_name
        == y.file.source_name && text_less(&x.file.relative_path, &y.file.relative_path))
}

/// Where an assembly goes among sorted ones: before the first that comes
/// after it, so that equal ones keep the order they came in.
pub open spec fn insertion_point(
    s: Seq<(Seq<char>, Seq<char>, Seq<char>)>,
    x: (Seq<char>, Seq<char>, Seq<char>),
    p: int,
) -> bool {
    &&& 0 <= p <= s.len()
    &&& forall|i: int| 0 <= i < p ==> !summary_lt(x, #[trigger] s[i])
    &&& (p < s.len() ==> summary_lt(x, s[p]))
}

/// Insert an assembly among sorted ones after all that do not come after it.
pub open spec fn insert_sorted(
    s: Seq<(Seq<char>, Seq<char>, Seq<char>)>,
    x: (Seq<char>, Seq<char>, Seq<char>),
) -> Seq<(Seq<char>, Seq<char>, Seq<char>)> {
    s.insert(choose|p: int| insertion_point(s, x, p), x)
}

/// The assemblies in order, equal ones in the order they came in: each
/// inserted in turn after all that do not come after it.
pub open spec fn stably_sorted(s: Seq<(Seq<char>, Seq<char>, Seq<char>)>) -> Seq<
    (Seq<char>, Seq<char>, Seq<char>),
>
    decreases s.len(),
{
    if s.len() == 0 {
        s
    } else {
        insert_sorted(stably_sorted(s.drop_last()), s.last())
    }
}

/// Among sorted assemblies there is one insertion point.
proof fn lemma_insertion_point_unique(
    s: Seq<(Seq<char>, Seq<char>, Seq<char>)>,
    x: (Seq<char>, Seq<char>, Seq<char>),
    p: int,
    q: int,
)
    requires
        insertion_point(s, x, p),
        insertion_point(s, x, q),
    ensures
        p == q,
{
    if p < q {
        assert(!summary_lt(x, s[p]));
    } else if q < p {
        assert(!summary_lt(x, s[q]));
    }
}

/// The stored assemblies as an observation lists them: ordered by source
/// name, then by relative path.
pub fn sort_assemblies(rows: Vec<AssemblySummary>) -> (r: Vec<AssemblySummary>)
    ensures
        summary_views(r@) == stably_sorted(summary_views(rows@)),
        summaries_sorted(summary_views(r@)),
        summary_views(r@).to_multiset() == summary_views(rows@).to_multiset(),
{
    let ghost all = summary_views(rows@);
    let ghost n = all.len();
    let mut out: Vec<AssemblySummary> = Vec::new();
    let mut rest = rows;
    proof {
        assert(summary_views(out@) =~= Seq::empty());
        assert(all.take(0) =~= Seq::empty());
    }
    while rest.len() > 0
        invariant
            all.len() == n,
            rest@.len() <= n,
            summaries_sorted(summary_views(out@)),
            summary_views(out@) == stably_sorted(all.take(n - rest@.len())),
            summary_views(out@).to_multiset() == all.take(n - rest@.len()).to_multiset(),
            forall|j: int|
                0 <= j < rest@.len() ==> summary_view(#[trigger] rest@[j]) == all[n - rest@.len()
                    + j],
        decreases rest@.len(),
    {
        let ghost k = n - rest@.len();
        let x = rest.remove(0);
        proof {
            assert(summary_view(x) == all[k]);
        }
        let mut p: usize = 0;
        while p < out.len() && !summary_less(&x, &out[p])
            invariant
                p <= out@.len(),
                forall|i: int|
                    0 <= i < p ==> !summary_lt(summary_view(x), #[trigger] summary_views(out@)[i]),
            decreases out@.len() - p,
        {
            p += 1;
        }
        let ghost before = summary_views(out@);
        out.insert(p, x);
        proof {
            let v = summary_view(x);
            let after = summary_views(out@);
            assert(after =~= before.insert(p as int, v));
            assert forall|i: int, j: int| 0 <= i < j < after.len() implies !summary_lt(
                #[trigger] after[j],
                #[trigger] after[i],
            ) by {
                if j < p {
                    assert(after[i] == before[i] && after[j] == before[j]);
                } else if j == p {
                    assert(after[i] == before[i]);
                    assert(after[j] == v);
                } else if i == p {
                    assert(after[i] == v);
                    assert(after[j] == before[j - 1]);
                    if p < before.len() {
                        assert(summary_lt(v, before[p as int]));
                        if summary_lt(before[j - 1], v) {
                            lemma_summary_lt_transitive(before[j - 1], v, before[p as int]);
                            lemma_text_lt_irreflexive(before[p as int].0);
                            lemma_text_lt_irreflexive(before[p as int].1);
                        }
                    }
                } else if i < p {
                    assert(after[i] == before[i] && after[j] == before[j - 1]);
                } else {
                    assert(after[i] == before[i - 1] && after[j] == before[j - 1]);
                }
            }
            vstd::seq_lib::to_multiset_insert(before, p as int, v);
            assert(all.take(k + 1) =~= all.take(k).push(all[k]));
            assert(all.take(k + 1).drop_last() =~= all.take(k));
            assert(insertion_point(before, v, p as int));
            let q = choose|q: int| insertion_point(before, v, q);
            lemma_insertion_point_unique(before, v, p as int, q);
            assert(after == insert_sorted(before, v));
            vstd::seq_lib::to_multiset_build(all.take(k), all[k]);
        }
    }
    proof {
        assert(all.take(n as int) =~= all);
    }
    out
}


// ===========================================================================
// Opening the store
// ===========================================================================

/// The configuration a store opens with, from the rows of its configuration
/// family: none means the defaults are asserted, one is the configuration,
/// more break the singleton.
pub fn opened_configuration(rows: Vec<Configuration>, defaults: Configuration) -> (r: Result<
    Configuration,
    RuntimeError,
>)
    ensures
        rows@.len() == 0 ==> (r matches Ok(c) && configuration_view(c) == configuration_view(
            defaults,
        )),
        rows@.len() == 1 ==> (r matches Ok(c) && configuration_view(c) == configuration_view(
            rows@[0],
        )),
        rows@.len() > 1 ==> r == Err::<Configuration, RuntimeError>(
            RuntimeError::ConfigurationInvariant(rows@.len() as usize),
        ),
{
    let n = rows.len();
    if n == 0 {
        Ok(defaults)
    } else if n == 1 {
        let mut rows = rows;
        Ok(rows.remove(0))
    } else {
        Err(RuntimeError::ConfigurationInvariant(n))
    }
}

} // verus!
