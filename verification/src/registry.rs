//! The sessions that are tracked, one entry for each session id.

use crate::event::Status;
use crate::text::{compare_text, same_text, text_order, Order};
use crate::text::{lemma_text_order_equal, lemma_text_order_flip, lemma_text_order_transitive};
use vstd::prelude::*;

verus! {

/// What is known of a session.
#[derive(Debug)]
pub struct Instance {
    /// The session's id, by which it is tracked.
    pub session_id: String,
    pub status: Status,
    /// Working directory.
    pub cwd: String,
    /// Model in use, from the start of the session.
    pub model: String,
    /// Title of the session, from its start.
    pub title: String,
    pub permission_mode: String,
    pub transcript_path: String,
    pub agent_type: String,
    /// Zellij session, empty outside Zellij.
    pub zellij_session: String,
    /// Zellij pane, `None` outside Zellij.
    pub zellij_pane: Option<u32>,
    /// When the last report came, in milliseconds since the Unix epoch.
    pub updated_at: u128,
}

/// What is known of a session, as mathematical values.
#[verifier::ext_equal]
pub struct InstanceView {
    pub session_id: Seq<char>,
    pub status: Status,
    pub cwd: Seq<char>,
    pub model: Seq<char>,
    pub title: Seq<char>,
    pub permission_mode: Seq<char>,
    pub transcript_path: Seq<char>,
    pub agent_type: Seq<char>,
    pub zellij_session: Seq<char>,
    pub zellij_pane: Option<u32>,
    pub updated_at: nat,
}

impl View for Instance {
    type V = InstanceView;

    open spec fn view(&self) -> InstanceView {
        InstanceView {
            session_id: self.session_id@,
            status: self.status,
            cwd: self.cwd@,
            model: self.model@,
            title: self.title@,
            permission_mode: self.permission_mode@,
            transcript_path: self.transcript_path@,
            agent_type: self.agent_type@,
            zellij_session: self.zellij_session@,
            zellij_pane: self.zellij_pane,
            updated_at: self.updated_at as nat,
        }
    }
}

impl Clone for Instance {
    fn clone(&self) -> (copy: Self)
        ensures
            copy@ == self@,
    {
        Instance {
            session_id: self.session_id.clone(),
            status: self.status,
            cwd: self.cwd.clone(),
            model: self.model.clone(),
            title: self.title.clone(),
            permission_mode: self.permission_mode.clone(),
            transcript_path: self.transcript_path.clone(),
            agent_type: self.agent_type.clone(),
            zellij_session: self.zellij_session.clone(),
            zellij_pane: self.zellij_pane,
            updated_at: self.updated_at,
        }
    }
}

/// The values of a row of instances.
pub open spec fn instance_views(v: Seq<Instance>) -> Seq<InstanceView> {
    Seq::new(v.len(), |i: int| v[i]@)
}

/// Order of optional panes: none first, then by number.
pub open spec fn pane_order(a: Option<u32>, b: Option<u32>) -> Order {
    match (a, b) {
        (None, None) => Order::Equal,
        (None, Some(_)) => Order::Less,
        (Some(_), None) => Order::Greater,
        (Some(x), Some(y)) => if x < y {
            Order::Less
        } else if x > y {
            Order::Greater
        } else {
            Order::Equal
        },
    }
}

/// Order in a listing: by Zellij session, then by pane, then by session id.
pub open spec fn instance_order(a: InstanceView, b: InstanceView) -> Order {
    if text_order(a.zellij_session, b.zellij_session) != Order::Equal {
        text_order(a.zellij_session, b.zellij_session)
    } else if pane_order(a.zellij_pane, b.zellij_pane) != Order::Equal {
        pane_order(a.zellij_pane, b.zellij_pane)
    } else {
        text_order(a.session_id, b.session_id)
    }
}

/// Whether one instance is listed before another.
pub open spec fn precedes(a: InstanceView, b: InstanceView) -> bool {
    instance_order(a, b) == Order::Less
}

proof fn lemma_precedes_flip(a: InstanceView, b: InstanceView)
    ensures
        instance_order(a, b) == Order::Less <==> instance_order(b, a) == Order::Greater,
        instance_order(a, b) == Order::Equal ==> a.session_id == b.session_id,
{
    lemma_text_order_flip(a.zellij_session, b.zellij_session);
    lemma_text_order_flip(b.zellij_session, a.zellij_session);
    lemma_text_order_flip(a.session_id, b.session_id);
    lemma_text_order_flip(b.session_id, a.session_id);
    lemma_text_order_equal(a.session_id, b.session_id);
}

/// Nothing is listed before itself.
pub proof fn lemma_not_before_itself(a: InstanceView)
    ensures
        !precedes(a, a),
{
    lemma_text_order_equal(a.zellij_session, a.zellij_session);
    lemma_text_order_equal(a.session_id, a.session_id);
}

proof fn lemma_precedes_transitive(a: InstanceView, b: InstanceView, c: InstanceView)
    requires
        precedes(a, b),
        precedes(b, c),
    ensures
        precedes(a, c),
{
    lemma_text_order_equal(a.zellij_session, b.zellij_session);
    lemma_text_order_equal(b.zellij_session, c.zellij_session);
    lemma_text_order_equal(a.zellij_session, c.zellij_session);
    if text_order(a.zellij_session, b.zellij_session) == Order::Less && text_order(
        b.zellij_session,
        c.zellij_session,
    ) == Order::Less {
        lemma_text_order_transitive(a.zellij_session, b.zellij_session, c.zellij_session);
    }
    if text_order(a.session_id, b.session_id) == Order::Less && text_order(
        b.session_id,
        c.session_id,
    ) == Order::Less {
        lemma_text_order_transitive(a.session_id, b.session_id, c.session_id);
    }
}

fn compare_panes(a: Option<u32>, b: Option<u32>) -> (order: Order)
    ensures
        order == pane_order(a, b),
{
    match (a, b) {
        (None, None) => Order::Equal,
        (None, Some(_)) => Order::Less,
        (Some(_), None) => Order::Greater,
        (Some(x), Some(y)) => if x < y {
            Order::Less
        } else if x > y {
            Order::Greater
        } else {
            Order::Equal
        },
    }
}

/// Compares two instances by their place in a listing.
pub fn compare_instances(a: &Instance, b: &Instance) -> (order: Order)
    ensures
        order == instance_order(a@, b@),
{
    match compare_text(a.zellij_session.as_str(), b.zellij_session.as_str()) {
        Order::Equal => match compare_panes(a.zellij_pane, b.zellij_pane) {
            Order::Equal => compare_text(a.session_id.as_str(), b.session_id.as_str()),
            order => order,
        },
        order => order,
    }
}

/// Where an instance goes in a list: before the first one that it precedes.
fn place_in(list: &Vec<Instance>, instance: &Instance) -> (at: usize)
    ensures
        at <= list@.len(),
        forall|i: int| 0 <= i < at ==> !precedes(instance@, (#[trigger] list@[i])@),
        at < list@.len() ==> precedes(instance@, list@[at as int]@),
{
    let mut at: usize = 0;
    while at < list.len()
        invariant
            at <= list@.len(),
            forall|i: int| 0 <= i < at ==> !precedes(instance@, (#[trigger] list@[i])@),
        decreases list@.len() - at,
    {
        match compare_instances(instance, &list[at]) {
            Order::Less => return at,
            _ => {},
        }
        at = at + 1;
    }
    at
}

/// Whether a list is in order, without repetition.
pub open spec fn sorted(list: Seq<InstanceView>) -> bool {
    forall|i: int, j: int|
        0 <= i < j < list.len() ==> precedes(#[trigger] list[i], #[trigger] list[j])
}

/// Whether two lists hold the same instances.
spec fn same_members(a: Seq<InstanceView>, b: Seq<InstanceView>) -> bool {
    forall|x: InstanceView| #[trigger] a.contains(x) <==> b.contains(x)
}

/// Inserting an instance in its place keeps a list in order.
proof fn lemma_insert_in_order(
    list: Seq<InstanceView>,
    done: Seq<InstanceView>,
    value: InstanceView,
    at: int,
)
    requires
        sorted(list),
        same_members(list, done),
        forall|i: int|
            0 <= i < done.len() ==> (#[trigger] done[i]).session_id != value.session_id,
        0 <= at <= list.len(),
        forall|i: int| 0 <= i < at ==> !precedes(value, #[trigger] list[i]),
        at < list.len() ==> precedes(value, list[at]),
    ensures
        sorted(list.insert(at, value)),
        same_members(list.insert(at, value), done.push(value)),
{
    let now = list.insert(at, value);
    assert forall|i: int| 0 <= i < at implies precedes(#[trigger] list[i], value) by {
        assert(list.contains(list[i]));
        assert(done.contains(list[i]));
        lemma_precedes_flip(list[i], value);
        lemma_precedes_flip(value, list[i]);
    }
    assert forall|j: int| at <= j < list.len() implies precedes(value, #[trigger] list[j]) by {
        if j > at {
            lemma_precedes_transitive(value, list[at], list[j]);
        }
    }
    assert forall|i: int, j: int| 0 <= i < j < now.len() implies precedes(
        #[trigger] now[i],
        #[trigger] now[j],
    ) by {
        let p = if i < at { i } else { i - 1 };
        let q = if j < at { j } else { j - 1 };
        if i != at {
            assert(now[i] == list[p]);
        }
        if j != at {
            assert(now[j] == list[q]);
        }
    }
    assert forall|x: InstanceView| #[trigger] now.contains(x) <==> done.push(value).contains(x) by {
        if now.contains(x) {
            let i = now.index_of(x);
            if i == at {
                assert(done.push(value)[done.len() as int] == x);
            } else {
                let p = if i < at { i } else { i - 1 };
                assert(list[p] == x);
                assert(list.contains(x));
                let e = done.index_of(x);
                assert(done.push(value)[e] == x);
            }
        }
        if done.push(value).contains(x) {
            let e = done.push(value).index_of(x);
            if e == done.len() {
                assert(now[at] == x);
            } else {
                assert(done[e] == x);
                assert(list.contains(x));
                let p = list.index_of(x);
                let i = if p < at { p } else { p + 1 };
                assert(now[i] == x);
            }
        }
    }
}

/// Whether `list` lists the instances of `m`: all of them, nothing else, each
/// once and in order.
pub open spec fn is_listing(m: Map<Seq<char>, InstanceView>, list: Seq<InstanceView>) -> bool {
    &&& sorted(list)
    &&& forall|i: int|
        0 <= i < list.len() ==> m.contains_key((#[trigger] list[i]).session_id)
            && m[list[i].session_id] == list[i]
    &&& forall|id: Seq<char>| #[trigger] m.contains_key(id) ==> list.contains(m[id])
}

/// The listing of tracked instances.
pub open spec fn listing_of(m: Map<Seq<char>, InstanceView>) -> Seq<InstanceView> {
    choose|list: Seq<InstanceView>| is_listing(m, list)
}

/// A set of tracked instances has one listing only: the order in which they were
/// reported leaves no trace in it.
pub proof fn law_listing_unique(
    m: Map<Seq<char>, InstanceView>,
    a: Seq<InstanceView>,
    b: Seq<InstanceView>,
)
    requires
        is_listing(m, a),
        is_listing(m, b),
    ensures
        a == b,
{
    assert forall|x: InstanceView| #[trigger] a.contains(x) <==> b.contains(x) by {
        if a.contains(x) {
            let i = a.index_of(x);
            assert(m.contains_key(a[i].session_id));
        }
        if b.contains(x) {
            let i = b.index_of(x);
            assert(m.contains_key(b[i].session_id));
        }
    }
    lemma_sorted_same(a, b);
}

proof fn lemma_sorted_same(a: Seq<InstanceView>, b: Seq<InstanceView>)
    requires
        sorted(a),
        sorted(b),
        same_members(a, b),
    ensures
        a == b,
    decreases a.len(),
{
    if a.len() == 0 {
        if b.len() > 0 {
            assert(b.contains(b[0]));
            assert(a.contains(b[0]));
        }
        assert(a =~= b);
    } else {
        assert(a.contains(a[0]));
        assert(b.contains(a[0]));
        assert(b.contains(b[0]));
        assert(a.contains(b[0]));
        let i = a.index_of(b[0]);
        let j = b.index_of(a[0]);
        lemma_precedes_flip(a[0], b[0]);
        assert(a[0] == b[0]);
        let a1 = a.drop_first();
        let b1 = b.drop_first();
        assert forall|x: InstanceView| #[trigger] a1.contains(x) <==> b1.contains(x) by {
            if a1.contains(x) {
                let k = a1.index_of(x);
                assert(a[k + 1] == x);
                assert(a.contains(x));
                assert(b.contains(x));
                let l = b.index_of(x);
                lemma_precedes_flip(a[0], x);
                assert(precedes(a[0], a[k + 1]));
                assert(l != 0);
                assert(b1[l - 1] == x);
            }
            if b1.contains(x) {
                let k = b1.index_of(x);
                assert(b[k + 1] == x);
                assert(b.contains(x));
                assert(a.contains(x));
                let l = a.index_of(x);
                lemma_precedes_flip(b[0], x);
                assert(precedes(b[0], b[k + 1]));
                assert(l != 0);
                assert(a1[l - 1] == x);
            }
        }
        lemma_sorted_same(a1, b1);
        assert(a =~= seq![a[0]] + a1);
        assert(b =~= seq![b[0]] + b1);
    }
}

/// Whether an entry of a session id is there.
spec fn has_entry(entries: Seq<Instance>, id: Seq<char>) -> bool {
    exists|i: int| 0 <= i < entries.len() && (#[trigger] entries[i]).session_id@ == id
}

/// The entry of a session id.
spec fn entry_of(entries: Seq<Instance>, id: Seq<char>) -> Instance {
    entries[choose|i: int| 0 <= i < entries.len() && (#[trigger] entries[i]).session_id@ == id]
}

/// No two entries have the same session id.
spec fn distinct(entries: Seq<Instance>) -> bool {
    forall|i: int, j: int|
        0 <= i < j < entries.len() ==> (#[trigger] entries[i]).session_id@ != (
        #[trigger] entries[j]).session_id@
}

/// The tracked sessions.
#[derive(Debug)]
pub struct Registry {
    entries: Vec<Instance>,
}

impl View for Registry {
    type V = Map<Seq<char>, InstanceView>;

    closed spec fn view(&self) -> Map<Seq<char>, InstanceView> {
        Map::new(
            |id: Seq<char>| has_entry(self.entries@, id),
            |id: Seq<char>| entry_of(self.entries@, id)@,
        )
    }
}

impl Registry {
    /// Each session has one entry.
    pub closed spec fn wf(&self) -> bool {
        distinct(self.entries@)
    }

    proof fn lemma_entry(&self, i: int)
        requires
            self.wf(),
            0 <= i < self.entries@.len(),
        ensures
            self@.contains_key(self.entries@[i].session_id@),
            self@[self.entries@[i].session_id@] == self.entries@[i]@,
    {
        let id = self.entries@[i].session_id@;
        assert(has_entry(self.entries@, id));
        let k = choose|k: int|
            0 <= k < self.entries@.len() && (#[trigger] self.entries@[k]).session_id@ == id;
        assert(k == i);
    }

    /// Every tracked instance stands under its own session id.
    pub proof fn lemma_keyed_by_id(&self, id: Seq<char>)
        requires
            self.wf(),
            self@.contains_key(id),
        ensures
            self@[id].session_id == id,
    {
        let i = choose|i: int|
            0 <= i < self.entries@.len() && (#[trigger] self.entries@[i]).session_id@ == id;
        self.lemma_entry(i);
    }

    /// A registry that tracks nothing.
    pub fn new() -> (r: Registry)
        ensures
            r.wf(),
            r@ == Map::<Seq<char>, InstanceView>::empty(),
    {
        let r: Registry = Registry { entries: Vec::new() };
        assert(r@ =~= Map::<Seq<char>, InstanceView>::empty());
        r
    }

    fn find(&self, id: &str) -> (place: Option<usize>)
        requires
            self.wf(),
        ensures
            match place {
                Some(i) => i < self.entries@.len() && self.entries@[i as int].session_id@ == id@,
                None => !has_entry(self.entries@, id@),
            },
    {
        let mut i: usize = 0;
        while i < self.entries.len()
            invariant
                i <= self.entries@.len(),
                forall|j: int| 0 <= j < i ==> (#[trigger] self.entries@[j]).session_id@ != id@,
            decreases self.entries@.len() - i,
        {
            if same_text(self.entries[i].session_id.as_str(), id) {
                return Some(i);
            }
            i = i + 1;
        }
        None
    }

    /// The instance of a session, if it is tracked.
    pub fn get(&self, id: &str) -> (instance: Option<&Instance>)
        requires
            self.wf(),
        ensures
            match instance {
                Some(x) => self@.contains_key(id@) && self@[id@] == x@,
                None => !self@.contains_key(id@),
            },
    {
        match self.find(id) {
            Some(i) => {
                proof {
                    self.lemma_entry(i as int);
                }
                Some(&self.entries[i])
            },
            None => None,
        }
    }

    /// Tracks an instance under its session id, in place of an earlier one.
    pub fn insert(&mut self, instance: Instance)
        requires
            old(self).wf(),
        ensures
            final(self).wf(),
            final(self)@ == old(self)@.insert(instance.session_id@, instance@),
    {
        let ghost before = *self;
        let ghost id = instance.session_id@;
        let ghost value = instance@;
        let place: Option<usize> = self.find(instance.session_id.as_str());
        let ghost at: int = match place {
            Some(i) => i as int,
            None => self.entries@.len() as int,
        };
        match place {
            Some(i) => {
                self.entries.set(i, instance);
            },
            None => {
                self.entries.push(instance);
            },
        }
        proof {
            let now = self.entries@;
            assert(now[at].session_id@ == id);
            assert forall|i: int, j: int| 0 <= i < j < now.len() implies (
            #[trigger] now[i]).session_id@ != (#[trigger] now[j]).session_id@ by {
                if i != at && j != at {
                    assert(now[i] == before.entries@[i]);
                    assert(now[j] == before.entries@[j]);
                } else if i == at {
                    assert(now[j] == before.entries@[j]);
                } else {
                    assert(now[i] == before.entries@[i]);
                }
            }
            assert(self.wf());
            let m = before@.insert(id, value);
            assert forall|k: Seq<char>|
                #![trigger self@.dom().contains(k)]
                #![trigger m.dom().contains(k)]
                self@.dom().contains(k) == m.dom().contains(k) && (self@.dom().contains(k)
                    ==> self@[k] == m[k]) by {
                if has_entry(now, k) {
                    let i = choose|i: int|
                        0 <= i < now.len() && (#[trigger] now[i]).session_id@ == k;
                    self.lemma_entry(i);
                    if i != at {
                        assert(now[i] == before.entries@[i]);
                        before.lemma_entry(i);
                    }
                }
                if has_entry(before.entries@, k) {
                    let i = choose|i: int|
                        0 <= i < before.entries@.len() && (
                        #[trigger] before.entries@[i]).session_id@ == k;
                    if i != at {
                        assert(now[i] == before.entries@[i]);
                    }
                }
                self.lemma_entry(at);
            }
            assert(self@ =~= m);
        }
    }

    /// Forgets a session.
    pub fn remove(&mut self, id: &str)
        requires
            old(self).wf(),
        ensures
            final(self).wf(),
            final(self)@ == old(self)@.remove(id@),
    {
        let ghost before = *self;
        match self.find(id) {
            Some(at) => {
                self.entries.remove(at);
                proof {
                    let now = self.entries@;
                    assert forall|i: int| 0 <= i < now.len() implies #[trigger] now[i]
                        == before.entries@[if i < at { i } else { i + 1 }] by {}
                    assert(self.wf());
                    let m = before@.remove(id@);
                    assert forall|k: Seq<char>|
                        #![trigger self@.dom().contains(k)]
                        #![trigger m.dom().contains(k)]
                        self@.dom().contains(k) == m.dom().contains(k) && (self@.dom().contains(k)
                            ==> self@[k] == m[k]) by {
                        if has_entry(now, k) {
                            let i = choose|i: int|
                                0 <= i < now.len() && (#[trigger] now[i]).session_id@ == k;
                            self.lemma_entry(i);
                            let p = if i < at { i } else { i + 1 };
                            assert(now[i] == before.entries@[p]);
                            before.lemma_entry(p);
                            assert(before.entries@[at as int].session_id@ == id@);
                        }
                        if k != id@ && has_entry(before.entries@, k) {
                            let p = choose|p: int|
                                0 <= p < before.entries@.len() && (
                                #[trigger] before.entries@[p]).session_id@ == k;
                            let i = if p < at { p } else { p - 1 };
                            assert(now[i] == before.entries@[p]);
                        }
                    }
                    assert(self@ =~= m);
                }
            },
            None => {
                assert(self@ =~= before@.remove(id@));
            },
        }
    }

    /// The tracked instances by Zellij session, pane and session id.
    pub fn listing(&self) -> (list: Vec<Instance>)
        requires
            self.wf(),
        ensures
            is_listing(self@, listing_of(self@)),
            instance_views(list@) == listing_of(self@),
    {
        let mut list: Vec<Instance> = Vec::new();
        let mut k: usize = 0;
        let ghost all = instance_views(self.entries@);
        while k < self.entries.len()
            invariant
                self.wf(),
                all == instance_views(self.entries@),
                k <= self.entries@.len(),
                sorted(instance_views(list@)),
                same_members(instance_views(list@), all.take(k as int)),
            decreases self.entries@.len() - k,
        {
            let instance: Instance = self.entries[k].clone();
            let at: usize = place_in(&list, &instance);
            proof {
                let views = instance_views(list@);
                let done = all.take(k as int);
                assert forall|i: int| 0 <= i < done.len() implies (
                #[trigger] done[i]).session_id != instance@.session_id by {
                    assert(self.entries@[i].session_id@ != self.entries@[k as int].session_id@);
                }
                assert forall|i: int| 0 <= i < at implies !precedes(
                    instance@,
                    #[trigger] views[i],
                ) by {
                    assert(views[i] == list@[i]@);
                }
                lemma_insert_in_order(views, done, instance@, at as int);
                assert(done.push(instance@) =~= all.take(k + 1));
                assert(instance_views(list@.insert(at as int, instance)) =~= views.insert(
                    at as int,
                    instance@,
                ));
            }
            list.insert(at, instance);
            k = k + 1;
        }
        proof {
            let views = instance_views(list@);
            assert(all.take(k as int) =~= all);
            assert forall|i: int| 0 <= i < views.len() implies self@.contains_key(
                (#[trigger] views[i]).session_id,
            ) && self@[views[i].session_id] == views[i] by {
                assert(views.contains(views[i]));
                assert(all.contains(views[i]));
                self.lemma_entry(all.index_of(views[i]));
            }
            assert forall|id: Seq<char>| #[trigger] self@.contains_key(id) implies views.contains(
                self@[id],
            ) by {
                let e = choose|e: int|
                    0 <= e < self.entries@.len() && (
                    #[trigger] self.entries@[e]).session_id@ == id;
                self.lemma_entry(e);
                assert(all[e] == self@[id]);
                assert(all.contains(self@[id]));
            }
            assert(is_listing(self@, views));
            law_listing_unique(self@, views, listing_of(self@));
        }
        list
    }
}

/// The value of an instance holds every field of it.
pub proof fn law_instance_view(i: Instance, v: Seq<Instance>)
    ensures
        i@.session_id == i.session_id@,
        i@.status == i.status,
        i@.cwd == i.cwd@,
        i@.model == i.model@,
        i@.title == i.title@,
        i@.permission_mode == i.permission_mode@,
        i@.transcript_path == i.transcript_path@,
        i@.agent_type == i.agent_type@,
        i@.zellij_session == i.zellij_session@,
        i@.zellij_pane == i.zellij_pane,
        i@.updated_at == i.updated_at,
        instance_views(v).len() == v.len(),
        forall|k: int| 0 <= k < v.len() ==> #[trigger] instance_views(v)[k] == v[k]@,
{
}

/// In a listing the Zellij sessions ascend; within one, what has no pane comes
/// first and then the panes ascend; within a pane, the session ids ascend.
pub proof fn law_listing_ascends(
    m: Map<Seq<char>, InstanceView>,
    list: Seq<InstanceView>,
    i: int,
    j: int,
)
    requires
        is_listing(m, list),
        0 <= i < j < list.len(),
    ensures
        ({
            let a = list[i];
            let b = list[j];
            ||| text_order(a.zellij_session, b.zellij_session) == Order::Less
            ||| a.zellij_session == b.zellij_session && a.zellij_pane is None
                && b.zellij_pane is Some
            ||| a.zellij_session == b.zellij_session && a.zellij_pane is Some
                && b.zellij_pane is Some && a.zellij_pane->0 < b.zellij_pane->0
            ||| a.zellij_session == b.zellij_session && a.zellij_pane == b.zellij_pane
                && text_order(a.session_id, b.session_id) == Order::Less
        }),
{
    assert(precedes(list[i], list[j]));
    lemma_text_order_equal(list[i].zellij_session, list[j].zellij_session);
}

/// A listing holds what is tracked and nothing else, each session in one place.
pub proof fn law_listing_holds_what_is_tracked(
    m: Map<Seq<char>, InstanceView>,
    list: Seq<InstanceView>,
    id: Seq<char>,
    i: int,
    j: int,
)
    requires
        is_listing(m, list),
    ensures
        m.contains_key(id) ==> exists|k: int| 0 <= k < list.len() && #[trigger] list[k] == m[id],
        0 <= i < list.len() ==> m.contains_key(list[i].session_id) && m[list[i].session_id]
            == list[i],
        0 <= i < j < list.len() ==> list[i].session_id != list[j].session_id,
{
    if m.contains_key(id) {
        assert(list.contains(m[id]));
    }
    if 0 <= i < j < list.len() {
        assert(precedes(list[i], list[j]));
        lemma_not_before_itself(list[i]);
    }
}

/// How two instances stand to each other in a listing: by their Zellij sessions;
/// where these are the same, by their panes, no pane before any; where these are
/// the same too, by their ids. They stand equal only with all three the same.
pub proof fn law_order_of_instances(a: InstanceView, b: InstanceView)
    ensures
        a.zellij_session != b.zellij_session ==> instance_order(a, b) == text_order(
            a.zellij_session,
            b.zellij_session,
        ),
        a.zellij_session == b.zellij_session && a.zellij_pane is None && b.zellij_pane is Some
            ==> instance_order(a, b) == Order::Less && instance_order(b, a) == Order::Greater,
        a.zellij_session == b.zellij_session && a.zellij_pane is Some && b.zellij_pane is Some
            && a.zellij_pane->0 < b.zellij_pane->0 ==> instance_order(a, b) == Order::Less
            && instance_order(b, a) == Order::Greater,
        a.zellij_session == b.zellij_session && a.zellij_pane == b.zellij_pane ==> instance_order(
            a,
            b,
        ) == text_order(a.session_id, b.session_id),
        instance_order(a, b) == Order::Equal <==> a.zellij_session == b.zellij_session
            && a.zellij_pane == b.zellij_pane && a.session_id == b.session_id,
{
    lemma_text_order_equal(a.zellij_session, b.zellij_session);
    lemma_text_order_equal(b.zellij_session, a.zellij_session);
    lemma_text_order_equal(a.session_id, b.session_id);
}

} // verus!
