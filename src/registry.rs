use vstd::prelude::*;

verus! {

/// One registered subscription as the contracts see it.
pub struct SubscriptionView {
    pub id: u64,
    pub topic: Seq<char>,
    pub flagged: bool,
}

/// The ids of a list of subscriptions, in order.
pub open spec fn ids_of(s: Seq<SubscriptionView>) -> Seq<u64> {
    s.map_values(|e: SubscriptionView| e.id)
}

pub open spec fn has_id(s: Seq<SubscriptionView>, id: u64) -> bool {
    exists|i: int| 0 <= i < s.len() && #[trigger] s[i].id == id
}

/// `s` with the subscription `id`, if there is one, marked as flagged.
pub open spec fn flag_id(s: Seq<SubscriptionView>, id: u64) -> Seq<SubscriptionView> {
    s.map_values(
        |e: SubscriptionView|
            if e.id == id {
                SubscriptionView { flagged: true, ..e }
            } else {
                e
            },
    )
}

/// No id occurs twice.
pub open spec fn ids_unique(s: Seq<SubscriptionView>) -> bool {
    forall|i: int, j: int| 0 <= i < s.len() && 0 <= j < s.len() && #[trigger] s[i].id == #[trigger] s[j].id
        ==> i == j
}

struct Subscription {
    id: u64,
    topic: String,
    flagged: bool,
}

/// The active subscriptions of a session, in the order they were made, each
/// id at most once.
pub struct SubscriptionRegistry {
    entries: Vec<Subscription>,
}

impl View for SubscriptionRegistry {
    type V = Seq<SubscriptionView>;

    closed spec fn view(&self) -> Seq<SubscriptionView> {
        self.entries@.map_values(
            |e: Subscription| SubscriptionView { id: e.id, topic: e.topic@, flagged: e.flagged },
        )
    }
}

impl SubscriptionRegistry {
    pub open spec fn wf(&self) -> bool {
        ids_unique(self@)
    }

    /// A registry with no subscription.
    pub fn new() -> (r: SubscriptionRegistry)
        ensures
            r.wf(),
            r@ == Seq::<SubscriptionView>::empty(),
    {
        let r = SubscriptionRegistry { entries: Vec::new() };
        assert(r@ =~= Seq::<SubscriptionView>::empty());
        r
    }

    /// The number of active subscriptions.
    pub fn len(&self) -> (r: usize)
        ensures
            r == self@.len(),
    {
        self.entries.len()
    }

    /// Adds a subscription with a fresh id at the end.
    pub fn register(&mut self, id: u64, topic: &str)
        requires
            old(self).wf(),
            !has_id(old(self)@, id),
        ensures
            final(self).wf(),
            final(self)@ == old(self)@.push(SubscriptionView { id, topic: topic@, flagged: false }),
    {
        self.entries.push(Subscription { id, topic: topic.to_owned(), flagged: false });
        assert(self@ =~= old(self)@.push(SubscriptionView { id, topic: topic@, flagged: false }));
    }

    /// The position of the subscription with `id`, if there is one.
    pub fn find(&self, id: u64) -> (r: Option<usize>)
        ensures
            r is None <==> !has_id(self@, id),
            r matches Some(i) ==> i < self@.len() && self@[i as int].id == id,
    {
        let mut i: usize = 0;
        while i < self.entries.len()
            invariant
                i <= self@.len(),
                self@.len() == self.entries@.len(),
                forall|j: int| 0 <= j < i ==> self@[j].id != id,
            decreases self.entries@.len() - i,
        {
            if self.entries[i].id == id {
                assert(self@[i as int].id == id);
                return Some(i);
            }
            i += 1;
        }
        None
    }

    /// Removes the subscription with `id`; true when there was one. Removing
    /// an id that is not there changes nothing.
    pub fn unsubscribe(&mut self, id: u64) -> (r: bool)
        requires
            old(self).wf(),
        ensures
            final(self).wf(),
            r == has_id(old(self)@, id),
            !has_id(final(self)@, id),
            !r ==> final(self)@ == old(self)@,
            r ==> exists|i: int| 0 <= i < old(self)@.len() && old(self)@[i].id == id
                && final(self)@ == old(self)@.remove(i),
    {
        match self.find(id) {
            Some(i) => {
                self.entries.remove(i);
                assert(self@ =~= old(self)@.remove(i as int));
                assert(old(self)@[i as int].id == id);
                true
            },
            None => false,
        }
    }

    /// Marks the subscription with `id` as misbehaving; true when there was one.
    pub fn flag(&mut self, id: u64) -> (r: bool)
        requires
            old(self).wf(),
        ensures
            final(self).wf(),
            r == has_id(old(self)@, id),
            final(self)@ == flag_id(old(self)@, id),
    {
        match self.find(id) {
            Some(i) => {
                let mut e = self.entries.remove(i);
                e.flagged = true;
                self.entries.insert(i, e);
                assert(self@ =~= flag_id(old(self)@, id)) by {
                    assert forall|j: int| 0 <= j < self@.len() && j != i implies old(self)@[j].id != id by {
                        assert(old(self)@[i as int].id == id);
                    }
                }
                true
            },
            None => {
                assert(self@ =~= flag_id(old(self)@, id));
                false
            },
        }
    }

    /// Removes every subscription and returns their ids in the order they were made.
    pub fn close_all(&mut self) -> (r: Vec<u64>)
        requires
            old(self).wf(),
        ensures
            final(self).wf(),
            final(self)@ == Seq::<SubscriptionView>::empty(),
            r@ == ids_of(old(self)@),
    {
        let mut ids: Vec<u64> = Vec::new();
        let mut i: usize = 0;
        while i < self.entries.len()
            invariant
                i <= self@.len(),
                self@.len() == self.entries@.len(),
                self@ == old(self)@,
                ids@ == ids_of(self@).subrange(0, i as int),
            decreases self.entries@.len() - i,
        {
            ids.push(self.entries[i].id);
            i += 1;
            assert(ids@ =~= ids_of(self@).subrange(0, i as int));
        }
        assert(ids@ =~= ids_of(old(self)@));
        self.entries.clear();
        assert(self@ =~= Seq::<SubscriptionView>::empty());
        ids
    }
}

} // verus!
