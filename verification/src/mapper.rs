//! The signalling state: offers published by senders, answers submitted by
//! receivers, and the counter that hands out offer ids.

use std::collections::HashMap;
use vstd::prelude::*;

use crate::bean::{Answer, Offer, ReqAnswer, ReqGetAnswer, ReqGetOffer, ReqOffer};
use crate::reply::{Fault, Reply};
use crate::route::Request;

verus! {

broadcast use {vstd::std_specs::hash::group_hash_axioms, vstd::seq_lib::lemma_seq_contains_after_push};

/// Seconds for which a stored offer or answer is kept.
pub const ENTRY_LIFETIME_SECS: u64 = 30;

/// The abstract state of a [`Mapper`].
pub struct MapperState {
    pub offers: Map<u32, Offer>,
    pub answers: Map<u32, Answer>,
    /// The last offer id handed out (0 before the first).
    pub last_id: u32,
}

impl MapperState {
    /// Every stored offer has an id that was already handed out.
    pub open spec fn wf(self) -> bool {
        forall|id: u32| #[trigger] self.offers.contains_key(id) ==> 1 <= id <= self.last_id
    }

    /// No entry was added after second `now`.
    pub open spec fn added_no_later_than(self, now: u64) -> bool {
        &&& forall|id: u32| #[trigger] self.offers.contains_key(id) ==> self.offers[id].stamp() <= now
        &&& forall|id: u32| #[trigger] self.answers.contains_key(id) ==> self.answers[id].stamp() <= now
    }
}

/// An entry added at second `add_time` is still kept at second `now`.
pub open spec fn is_fresh(add_time: u64, now: u64) -> bool {
    now - add_time < ENTRY_LIFETIME_SECS
}

/// Publishing an offer: a body that does not parse is refused; otherwise the
/// next id is taken, and, when the clock could be read, the offer is stored
/// under it and the id is returned.
pub open spec fn spec_pub_offer(s: MapperState, body: Option<ReqOffer>, now: Option<u64>) -> (MapperState, Reply) {
    match body {
        None => (s, Reply::Failed(Fault::NotOfferBody)),
        Some(req) => {
            let id = (s.last_id + 1) as u32;
            match now {
                None => (MapperState { last_id: id, ..s }, Reply::Failed(Fault::ClockFailed)),
                Some(t) => (
                    MapperState {
                        offers: s.offers.insert(id, Offer { sdp: req.sdp, add_time: t }),
                        last_id: id,
                        ..s
                    },
                    Reply::Id(id),
                ),
            }
        },
    }
}

/// Fetching an offer takes it out of the state and returns its SDP.
pub open spec fn spec_sub_get_offer(s: MapperState, body: Option<ReqGetOffer>) -> (MapperState, Reply) {
    match body {
        None => (s, Reply::Failed(Fault::NotOfferBody)),
        Some(req) => if s.offers.contains_key(req.id) {
            (MapperState { offers: s.offers.remove(req.id), ..s }, Reply::Sdp(s.offers[req.id].sdp))
        } else {
            (s, Reply::Failed(Fault::UnknownOffer))
        },
    }
}

/// Submitting an answer: refused for an id that holds an offer or when the
/// clock cannot be read; otherwise the answer is stored, and the reply is a
/// failure when it replaced an earlier answer under the same id.
pub open spec fn spec_sub_answer(s: MapperState, body: Option<ReqAnswer>, now: Option<u64>) -> (MapperState, Reply) {
    match body {
        None => (s, Reply::Failed(Fault::NotAnswerBody)),
        Some(req) => if s.offers.contains_key(req.id) {
            (s, Reply::Failed(Fault::IdMapsToOffer))
        } else {
            match now {
                None => (s, Reply::Failed(Fault::ClockFailed)),
                Some(t) => {
                    let s2 = MapperState {
                        answers: s.answers.insert(req.id, Answer { sdp: req.sdp, add_time: t }),
                        ..s
                    };
                    if s.answers.contains_key(req.id) {
                        (s2, Reply::Failed(Fault::AnswerAddFailed))
                    } else {
                        (s2, Reply::Id(req.id))
                    }
                },
            }
        },
    }
}

/// Fetching an answer takes it out of the state and returns its SDP.
pub open spec fn spec_pub_get_answer(s: MapperState, body: Option<ReqGetAnswer>) -> (MapperState, Reply) {
    match body {
        None => (s, Reply::Failed(Fault::NotAnswerBody)),
        Some(req) => if s.answers.contains_key(req.id) {
            (MapperState { answers: s.answers.remove(req.id), ..s }, Reply::Sdp(s.answers[req.id].sdp))
        } else {
            (s, Reply::Failed(Fault::UnknownAnswer))
        },
    }
}

/// Dropping every offer and answer that is no longer fresh at second `now`.
pub open spec fn spec_expire(s: MapperState, now: u64) -> MapperState {
    MapperState {
        offers: s.offers.filter_keys(|id: u32| is_fresh(s.offers[id].stamp(), now)),
        answers: s.answers.filter_keys(|id: u32| is_fresh(s.answers[id].stamp(), now)),
        last_id: s.last_id,
    }
}

/// A stored entry that records when it was added.
pub trait Stamped {
    spec fn stamp(&self) -> u64;

    fn added_at(&self) -> (t: u64)
        ensures
            t == self.stamp(),
    ;
}

impl Stamped for Offer {
    open spec fn stamp(&self) -> u64 {
        self.add_time
    }

    fn added_at(&self) -> (t: u64) {
        self.add_time
    }
}

impl Stamped for Answer {
    open spec fn stamp(&self) -> u64 {
        self.add_time
    }

    fn added_at(&self) -> (t: u64) {
        self.add_time
    }
}

/// The ids of the entries of `m` that are no longer fresh at second `now`.
fn stale_ids<V: Stamped>(m: &HashMap<u32, V>, now: u64) -> (ids: Vec<u32>)
    requires
        forall|id: u32| #[trigger] m@.contains_key(id) ==> m@[id].stamp() <= now,
    ensures
        forall|id: u32| #[trigger] ids@.contains(id) <==> (m@.contains_key(id) && !is_fresh(m@[id].stamp(), now)),
{
    let ghost keys = vstd::std_specs::iter::IteratorSpec::remaining(&vstd::std_specs::hash::spec_keys_iter(m));
    let ghost mut seen: Seq<u32> = Seq::empty();
    let mut ids: Vec<u32> = Vec::new();
    for id in it: m.keys()
        invariant
            it.seq() == keys,
            seen == it.seq().take(it.index()).unref(),
            forall|id: u32| #[trigger] m@.contains_key(id) ==> m@[id].stamp() <= now,
            forall|k: u32| #[trigger] ids@.contains(k) ==> m@.contains_key(k) && !is_fresh(m@[k].stamp(), now),
            forall|k: u32| #[trigger] seen.contains(k) && m@.contains_key(k) && !is_fresh(m@[k].stamp(), now) ==> ids@.contains(k),
    {
        let v = m.get(id).unwrap();
        if now - v.added_at() >= ENTRY_LIFETIME_SECS {
            ids.push(*id);
        }
        proof {
            seen = seen.push(*id);
        }
    }
    proof {
        assert(seen =~= keys.unref());
        assert forall|k: u32| m@.contains_key(k) && !is_fresh(m@[k].stamp(), now) implies #[trigger] ids@.contains(k) by {
            assert(keys.unref().to_set().contains(k));
        }
    }
    ids
}

/// Removes the entries under `ids` from `m`.
fn remove_ids<V>(m: &mut HashMap<u32, V>, ids: &Vec<u32>)
    ensures
        final(m)@ == old(m)@.remove_keys(ids@.to_set()),
{
    let ghost start = m@;
    let mut i: usize = 0;
    while i < ids.len()
        invariant
            i <= ids.len(),
            m@ == start.remove_keys(ids@.take(i as int).to_set()),
        decreases ids.len() - i,
    {
        m.remove(&ids[i]);
        proof {
            assert(ids@.take(i + 1) =~= ids@.take(i as int).push(ids@[i as int]));
            ids@.take(i as int).lemma_push_to_set_commute(ids@[i as int]);
            assert(m@ =~= start.remove_keys(ids@.take(i + 1).to_set()));
        }
        i = i + 1;
    }
    assert(ids@.take(ids@.len() as int) =~= ids@);
}

/// Whether every entry of `m` was added no later than second `now`.
fn all_stamped_by<V: Stamped>(m: &HashMap<u32, V>, now: u64) -> (r: bool)
    ensures
        r == forall|id: u32| #[trigger] m@.contains_key(id) ==> m@[id].stamp() <= now,
{
    let ghost keys = vstd::std_specs::iter::IteratorSpec::remaining(&vstd::std_specs::hash::spec_keys_iter(m));
    let ghost mut seen: Seq<u32> = Seq::empty();
    for id in it: m.keys()
        invariant
            it.seq() == keys,
            seen == it.seq().take(it.index()).unref(),
            forall|k: u32| #[trigger] seen.contains(k) ==> m@.contains_key(k) && m@[k].stamp() <= now,
    {
        let v = m.get(id).unwrap();
        if v.added_at() > now {
            return false;
        }
        proof {
            seen = seen.push(*id);
        }
    }
    proof {
        assert(seen =~= keys.unref());
        assert forall|k: u32| #[trigger] m@.contains_key(k) implies m@[k].stamp() <= now by {
            assert(keys.unref().to_set().contains(k));
        }
    }
    true
}

/// One request handled against the state.
pub open spec fn spec_handle(s: MapperState, req: Request, now: Option<u64>) -> (MapperState, Reply) {
    match req {
        Request::PubOffer(body) => spec_pub_offer(s, body, now),
        Request::SubGetOffer(body) => spec_sub_get_offer(s, body),
        Request::SubAnswer(body) => spec_sub_answer(s, body, now),
        Request::PubGetAnswer(body) => spec_pub_get_answer(s, body),
        Request::NotFound => (s, Reply::NotFound),
    }
}

/// The signalling state.
pub struct Mapper {
    id_to_offer: HashMap<u32, Offer>,
    id_to_answer: HashMap<u32, Answer>,
    counter: u32,
}

impl View for Mapper {
    type V = MapperState;

    closed spec fn view(&self) -> MapperState {
        MapperState { offers: self.id_to_offer@, answers: self.id_to_answer@, last_id: self.counter }
    }
}

impl Mapper {
    /// Every stored offer sits under an id that was already handed out.
    #[verifier::type_invariant]
    spec fn offers_under_handed_out_ids(&self) -> bool {
        forall|id: u32| #[trigger] self.id_to_offer@.contains_key(id) ==> 1 <= id <= self.counter
    }

    /// An empty state that has handed out no id yet.
    pub fn new() -> (m: Mapper)
        ensures
            m@.offers == Map::<u32, Offer>::empty(),
            m@.answers == Map::<u32, Answer>::empty(),
            m@.last_id == 0,
            m@.wf(),
    {
        Mapper { id_to_offer: HashMap::new(), id_to_answer: HashMap::new(), counter: 0 }
    }

    /// Hands out the next id.
    pub fn create_id(&mut self) -> (id: u32)
        requires
            old(self)@.last_id < u32::MAX,
        ensures
            id == old(self)@.last_id + 1,
            final(self)@ == (MapperState { last_id: id, ..old(self)@ }),
            final(self)@.wf(),
    {
        proof {
            use_type_invariant(&*self);
        }
        self.counter = self.counter + 1;
        self.counter
    }

    /// Stores `offer` under `id`, an id already handed out.
    fn store_offer(&mut self, id: u32, offer: Offer)
        requires
            1 <= id <= old(self)@.last_id,
        ensures
            final(self)@ == (MapperState { offers: old(self)@.offers.insert(id, offer), ..old(self)@ }),
    {
        proof {
            use_type_invariant(&*self);
        }
        let mut offers: HashMap<u32, Offer> = HashMap::new();
        std::mem::swap(&mut offers, &mut self.id_to_offer);
        offers.insert(id, offer);
        self.id_to_offer = offers;
    }

    /// Takes the offer under `id` out of the state.
    fn take_offer(&mut self, id: u32) -> (o: Option<Offer>)
        ensures
            final(self)@ == (MapperState { offers: old(self)@.offers.remove(id), ..old(self)@ }),
            o == (if old(self)@.offers.contains_key(id) { Some(old(self)@.offers[id]) } else { None::<Offer> }),
    {
        proof {
            use_type_invariant(&*self);
        }
        let mut offers: HashMap<u32, Offer> = HashMap::new();
        std::mem::swap(&mut offers, &mut self.id_to_offer);
        let o = offers.remove(&id);
        self.id_to_offer = offers;
        o
    }

    /// Whether no stored entry was added after second `now`.
    pub fn added_no_later_than(&self, now: u64) -> (r: bool)
        ensures
            r == self@.added_no_later_than(now),
            self@.wf(),
    {
        proof {
            use_type_invariant(self);
        }
        assert(self@.offers == self.id_to_offer@ && self@.answers == self.id_to_answer@);
        all_stamped_by(&self.id_to_answer, now) && all_stamped_by(&self.id_to_offer, now)
    }

    /// Drops every offer and answer added `ENTRY_LIFETIME_SECS` or more
    /// seconds before second `now`.
    pub fn expire(&mut self, now: u64)
        requires
            old(self)@.added_no_later_than(now),
        ensures
            final(self)@ == spec_expire(old(self)@, now),
            final(self)@.wf(),
    {
        proof {
            use_type_invariant(&*self);
        }
        let ghost s = self@;
        assert(s.offers == self.id_to_offer@ && s.answers == self.id_to_answer@);
        let stale_answers = stale_ids(&self.id_to_answer, now);
        let mut answers: HashMap<u32, Answer> = HashMap::new();
        std::mem::swap(&mut answers, &mut self.id_to_answer);
        remove_ids(&mut answers, &stale_answers);
        self.id_to_answer = answers;
        let stale_offers = stale_ids(&self.id_to_offer, now);
        let mut offers: HashMap<u32, Offer> = HashMap::new();
        std::mem::swap(&mut offers, &mut self.id_to_offer);
        remove_ids(&mut offers, &stale_offers);
        self.id_to_offer = offers;
        proof {
            let e = spec_expire(s, now);
            assert(self@.answers =~= e.answers);
            assert(self@.offers =~= e.offers);
        }
    }

    /// Handles one routed request; `now` is the current second, `None`
    /// where the clock could not be read.
    pub fn handler(&mut self, req: Request, now: Option<u64>) -> (r: Reply)
        requires
            req matches Request::PubOffer(Some(_)) ==> old(self)@.last_id < u32::MAX,
        ensures
            (final(self)@, r) == spec_handle(old(self)@, req, now),
            req matches Request::PubOffer(b) ==> (final(self)@, r) == spec_pub_offer(old(self)@, b, now),
            req matches Request::SubGetOffer(b) ==> (final(self)@, r) == spec_sub_get_offer(old(self)@, b),
            req matches Request::SubAnswer(b) ==> (final(self)@, r) == spec_sub_answer(old(self)@, b, now),
            req matches Request::PubGetAnswer(b) ==> (final(self)@, r) == spec_pub_get_answer(old(self)@, b),
            req is NotFound ==> final(self)@ == old(self)@ && r == Reply::NotFound,
            final(self)@.wf(),
    {
        proof {
            use_type_invariant(&*self);
        }
        match req {
            Request::PubOffer(body) => pub_offer(self, body, now),
            Request::SubGetOffer(body) => sub_get_offer(self, body),
            Request::SubAnswer(body) => sub_answer(self, body, now),
            Request::PubGetAnswer(body) => pub_get_answer(self, body),
            Request::NotFound => Reply::NotFound,
        }
    }

    /// Number of stored offers.
    pub fn offer_count(&self) -> (n: usize)
        ensures
            n == self@.offers.len(),
            self@.wf(),
    {
        proof {
            use_type_invariant(self);
        }
        self.id_to_offer.len()
    }

    /// Number of stored answers.
    pub fn answer_count(&self) -> (n: usize)
        ensures
            n == self@.answers.len(),
            self@.wf(),
    {
        proof {
            use_type_invariant(self);
        }
        self.id_to_answer.len()
    }

    /// The last id handed out.
    pub fn last_id(&self) -> (id: u32)
        ensures
            id == self@.last_id,
            self@.wf(),
    {
        proof {
            use_type_invariant(self);
        }
        self.counter
    }
}

/// Publishes an offer (`POST /pub/offer`).
pub fn pub_offer(m: &mut Mapper, body: Option<ReqOffer>, now: Option<u64>) -> (r: Reply)
    requires
        body is Some ==> old(m)@.last_id < u32::MAX,
    ensures
        (final(m)@, r) == spec_pub_offer(old(m)@, body, now),
        final(m)@.wf(),
{
    proof {
        use_type_invariant(&*m);
    }
    match body {
        None => Reply::Failed(Fault::NotOfferBody),
        Some(req) => {
            let id = m.create_id();
            match now {
                None => Reply::Failed(Fault::ClockFailed),
                Some(t) => {
                    m.store_offer(id, Offer { sdp: req.sdp, add_time: t });
                    Reply::Id(id)
                },
            }
        },
    }
}

/// Fetches and removes an offer (`POST /sub/get/offer`).
pub fn sub_get_offer(m: &mut Mapper, body: Option<ReqGetOffer>) -> (r: Reply)
    ensures
        (final(m)@, r) == spec_sub_get_offer(old(m)@, body),
        final(m)@.wf(),
{
    proof {
        use_type_invariant(&*m);
    }
    match body {
        None => Reply::Failed(Fault::NotOfferBody),
        Some(req) => {
            let ghost before = m@.offers;
            let op = m.take_offer(req.id);
            match op {
                None => {
                    assert(before.remove(req.id) =~= before);
                    Reply::Failed(Fault::UnknownOffer)
                },
                Some(of) => Reply::Sdp(of.sdp),
            }
        },
    }
}

/// Stores the answer of a receiver (`POST /sub/answer`).
pub fn sub_answer(m: &mut Mapper, body: Option<ReqAnswer>, now: Option<u64>) -> (r: Reply)
    ensures
        (final(m)@, r) == spec_sub_answer(old(m)@, body, now),
        final(m)@.wf(),
{
    proof {
        use_type_invariant(&*m);
    }
    match body {
        None => Reply::Failed(Fault::NotAnswerBody),
        Some(req) => {
            if m.id_to_offer.contains_key(&req.id) {
                return Reply::Failed(Fault::IdMapsToOffer);
            }
            match now {
                None => Reply::Failed(Fault::ClockFailed),
                Some(t) => {
                    let id = req.id;
                    let mut answers: HashMap<u32, Answer> = HashMap::new();
                    std::mem::swap(&mut answers, &mut m.id_to_answer);
                    let prev = answers.insert(id, Answer { sdp: req.sdp, add_time: t });
                    m.id_to_answer = answers;
                    if prev.is_some() {
                        Reply::Failed(Fault::AnswerAddFailed)
                    } else {
                        Reply::Id(id)
                    }
                },
            }
        },
    }
}

/// Fetches and removes an answer (`POST /sub/get/answer`).
pub fn pub_get_answer(m: &mut Mapper, body: Option<ReqGetAnswer>) -> (r: Reply)
    ensures
        (final(m)@, r) == spec_pub_get_answer(old(m)@, body),
        final(m)@.wf(),
{
    proof {
        use_type_invariant(&*m);
    }
    match body {
        None => Reply::Failed(Fault::NotAnswerBody),
        Some(req) => {
            let ghost before = m@.answers;
            let mut answers: HashMap<u32, Answer> = HashMap::new();
            std::mem::swap(&mut answers, &mut m.id_to_answer);
            let o = answers.remove(&req.id);
            m.id_to_answer = answers;
            match o {
                None => {
                    assert(before.remove(req.id) =~= before);
                    Reply::Failed(Fault::UnknownAnswer)
                },
                Some(answer) => Reply::Sdp(answer.sdp),
            }
        },
    }
}

} // verus!
