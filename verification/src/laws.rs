//! Properties of the signalling state that span several requests.

use vstd::prelude::*;

use crate::bean::{Offer, ReqAnswer, ReqGetAnswer, ReqGetOffer, ReqOffer};
use crate::capture::{leftover, whole_frames, FRAME_SAMPLES};
use crate::mapper::{
    is_fresh, spec_expire, spec_handle, spec_pub_get_answer, spec_pub_offer, spec_sub_answer,
    spec_sub_get_offer, MapperState, Stamped,
};
use crate::reply::{Fault, Reply};
use crate::route::Request;

verus! {

/// An offer that is published can be fetched once under the id the publish
/// returned: the fetch gives back its SDP, and a second fetch of that id is
/// refused. The fetch leaves the offers as they were before the publish
/// (in a well-formed state, which holds nothing under the new id).
pub proof fn lemma_offer_fetched_once(s: MapperState, sdp: String, t: u64)
    requires
        s.last_id < u32::MAX,
    ensures
        ({
            let (s1, r1) = spec_pub_offer(s, Some(ReqOffer { sdp }), Some(t));
            let id = (s.last_id + 1) as u32;
            let (s2, r2) = spec_sub_get_offer(s1, Some(ReqGetOffer { id }));
            let (s3, r3) = spec_sub_get_offer(s2, Some(ReqGetOffer { id }));
            &&& r1 == Reply::Id(id)
            &&& r2 == Reply::Sdp(sdp)
            &&& s2.offers == s.offers.remove(id)
            &&& s.wf() ==> s2.offers == s.offers
            &&& s2.answers == s.answers
            &&& r3 == Reply::Failed(Fault::UnknownOffer)
            &&& s3 == s2
        }),
{
    let s1 = spec_pub_offer(s, Some(ReqOffer { sdp }), Some(t)).0;
    let id = (s.last_id + 1) as u32;
    assert(s1.offers == s.offers.insert(id, Offer { sdp, add_time: t }));
    assert(s1.offers.remove(id) =~= s.offers.remove(id));
    if s.wf() {
        assert(!s.offers.contains_key(id));
        assert(s.offers.remove(id) =~= s.offers);
    }
}

/// Publishing never replaces or drops a stored offer: the id it takes is
/// larger than every stored id, and every other offer stays as it was.
pub proof fn lemma_publish_keeps_offers(s: MapperState, body: Option<ReqOffer>, now: Option<u64>)
    requires
        s.wf(),
        body is Some ==> s.last_id < u32::MAX,
    ensures
        ({
            let (s1, r) = spec_pub_offer(s, body, now);
            &&& forall|id: u32| #[trigger] s.offers.contains_key(id) ==> s1.offers.contains_key(id)
                && s1.offers[id] == s.offers[id]
            &&& r matches Reply::Id(new_id) ==> (forall|id: u32| #[trigger] s.offers.contains_key(id) ==> id < new_id)
                && s1.offers.contains_key(new_id) && !s.offers.contains_key(new_id)
        }),
{
}

/// Every request keeps the state well formed, and the last id handed out
/// never decreases.
pub proof fn lemma_handle_keeps_wf(s: MapperState, req: Request, now: Option<u64>)
    requires
        s.wf(),
        req matches Request::PubOffer(Some(_)) ==> s.last_id < u32::MAX,
    ensures
        spec_handle(s, req, now).0.wf(),
        spec_handle(s, req, now).0.last_id >= s.last_id,
{
}

/// Expiry keeps the state well formed and does not touch the id counter.
pub proof fn lemma_expire_keeps_wf(s: MapperState, now: u64)
    requires
        s.wf(),
    ensures
        spec_expire(s, now).wf(),
        spec_expire(s, now).last_id == s.last_id,
{
}

/// After expiry at second `now` exactly the fresh entries remain, each with
/// its value unchanged, and expiring again at the same second changes
/// nothing.
pub proof fn lemma_expire_keeps_exactly_fresh(s: MapperState, now: u64)
    ensures
        ({
            let e = spec_expire(s, now);
            &&& forall|id: u32| #[trigger] e.offers.contains_key(id) <==> s.offers.contains_key(id)
                && is_fresh(s.offers[id].stamp(), now)
            &&& forall|id: u32| #[trigger] e.offers.contains_key(id) ==> e.offers[id] == s.offers[id]
            &&& forall|id: u32| #[trigger] e.answers.contains_key(id) <==> s.answers.contains_key(id)
                && is_fresh(s.answers[id].stamp(), now)
            &&& forall|id: u32| #[trigger] e.answers.contains_key(id) ==> e.answers[id] == s.answers[id]
            &&& spec_expire(e, now) == e
        }),
{
    let e = spec_expire(s, now);
    let e2 = spec_expire(e, now);
    assert(e2.offers =~= e.offers);
    assert(e2.answers =~= e.answers);
}

/// An answer submitted for an id that holds neither an offer nor an answer
/// is accepted, can be fetched once with its SDP, and the fetch leaves the
/// answers as they were before.
pub proof fn lemma_answer_fetched_once(s: MapperState, id: u32, sdp: String, t: u64)
    requires
        !s.offers.contains_key(id),
        !s.answers.contains_key(id),
    ensures
        ({
            let (s1, r1) = spec_sub_answer(s, Some(ReqAnswer { id, sdp }), Some(t));
            let (s2, r2) = spec_pub_get_answer(s1, Some(ReqGetAnswer { id }));
            let (s3, r3) = spec_pub_get_answer(s2, Some(ReqGetAnswer { id }));
            &&& r1 == Reply::Id(id)
            &&& r2 == Reply::Sdp(sdp)
            &&& s2 == s
            &&& r3 == Reply::Failed(Fault::UnknownAnswer)
        }),
{
    let s1 = spec_sub_answer(s, Some(ReqAnswer { id, sdp }), Some(t)).0;
    assert(s1.answers.remove(id) =~= s.answers);
}

/// An answer for an id that still holds an offer is refused and changes
/// nothing.
pub proof fn lemma_answer_refused_while_offered(s: MapperState, body: ReqAnswer, now: Option<u64>)
    requires
        s.offers.contains_key(body.id),
    ensures
        spec_sub_answer(s, Some(body), now) == (s, Reply::Failed(Fault::IdMapsToOffer)),
{
}

/// A request whose body did not parse, or that no route matches, changes
/// nothing.
pub proof fn lemma_refused_request_changes_nothing(s: MapperState, req: Request, now: Option<u64>)
    requires
        req matches Request::PubOffer(None) || req matches Request::SubGetOffer(None)
            || req matches Request::SubAnswer(None) || req matches Request::PubGetAnswer(None)
            || req matches Request::NotFound,
    ensures
        spec_handle(s, req, now).0 == s,
{
}

/// Handling a routed request does what the operation of its route does, at
/// every clock reading: a publish or an answer sees the reading, the two
/// fetches ignore it, and a request no route matches changes nothing and is
/// answered "not found".
pub proof fn lemma_handle_dispatches(s: MapperState, req: Request, now: Option<u64>)
    ensures
        req matches Request::PubOffer(b) ==> spec_handle(s, req, now) == spec_pub_offer(s, b, now),
        req matches Request::SubGetOffer(b) ==> spec_handle(s, req, now) == spec_sub_get_offer(s, b),
        req matches Request::SubAnswer(b) ==> spec_handle(s, req, now) == spec_sub_answer(s, b, now),
        req matches Request::PubGetAnswer(b) ==> spec_handle(s, req, now) == spec_pub_get_answer(s, b),
        req is NotFound ==> spec_handle(s, req, now) == (s, Reply::NotFound),
{
}

/// A handled fetch of a stored offer, at any clock reading, replies with its
/// SDP and removes exactly that offer; a fetch of an id without an offer is
/// refused and changes nothing.
pub proof fn lemma_handled_offer_fetch(s: MapperState, id: u32, now: Option<u64>)
    ensures
        s.offers.contains_key(id) ==> spec_handle(s, Request::SubGetOffer(Some(ReqGetOffer { id })), now) == (
            MapperState { offers: s.offers.remove(id), ..s },
            Reply::Sdp(s.offers[id].sdp),
        ),
        !s.offers.contains_key(id) ==> spec_handle(s, Request::SubGetOffer(Some(ReqGetOffer { id })), now) == (
            s,
            Reply::Failed(Fault::UnknownOffer),
        ),
{
}

/// A handled fetch of a stored answer, at any clock reading, replies with
/// its SDP and removes exactly that answer; a fetch of an id without an
/// answer is refused and changes nothing.
pub proof fn lemma_handled_answer_fetch(s: MapperState, id: u32, now: Option<u64>)
    ensures
        s.answers.contains_key(id) ==> spec_handle(s, Request::PubGetAnswer(Some(ReqGetAnswer { id })), now) == (
            MapperState { answers: s.answers.remove(id), ..s },
            Reply::Sdp(s.answers[id].sdp),
        ),
        !s.answers.contains_key(id) ==> spec_handle(s, Request::PubGetAnswer(Some(ReqGetAnswer { id })), now) == (
            s,
            Reply::Failed(Fault::UnknownAnswer),
        ),
{
}

/// Through the handler, at any clock readings: an offer published with a
/// readable clock is handed to the next fetch of the id the publish
/// returned, with its SDP, and is gone afterwards.
pub proof fn lemma_handled_offer_round_trip(s: MapperState, sdp: String, t: u64, later: Option<u64>)
    requires
        s.last_id < u32::MAX,
    ensures
        ({
            let id = (s.last_id + 1) as u32;
            let (s1, r1) = spec_handle(s, Request::PubOffer(Some(ReqOffer { sdp })), Some(t));
            let (s2, r2) = spec_handle(s1, Request::SubGetOffer(Some(ReqGetOffer { id })), later);
            &&& r1 == Reply::Id(id)
            &&& r2 == Reply::Sdp(sdp)
            &&& !s2.offers.contains_key(id)
        }),
{
}

/// Through the handler, at any clock readings: an answer accepted for an id
/// is handed to the next fetch of that id, with its SDP, and is gone
/// afterwards.
pub proof fn lemma_handled_answer_round_trip(s: MapperState, id: u32, sdp: String, t: u64, later: Option<u64>)
    requires
        !s.offers.contains_key(id),
        !s.answers.contains_key(id),
    ensures
        ({
            let (s1, r1) = spec_handle(s, Request::SubAnswer(Some(ReqAnswer { id, sdp })), Some(t));
            let (s2, r2) = spec_handle(s1, Request::PubGetAnswer(Some(ReqGetAnswer { id })), later);
            &&& r1 == Reply::Id(id)
            &&& r2 == Reply::Sdp(sdp)
            &&& !s2.answers.contains_key(id)
        }),
{
}

/// Cutting frames out of a stream in two pushes gives the same frames, in
/// the same order, and the same leftover samples as cutting them in one
/// push: what `p + a` leaves over is carried into the push of `b`.
pub proof fn lemma_framing_in_pieces(p: Seq<i16>, a: Seq<i16>, b: Seq<i16>)
    ensures
        whole_frames(p + a + b) == whole_frames(p + a) + whole_frames(leftover(p + a) + b),
        leftover(p + a + b) == leftover(leftover(p + a) + b),
{
    let x = p + a;
    let z = x + b;
    let y = leftover(x) + b;
    let f = FRAME_SAMPLES as int;
    let n = x.len() as int;
    let k = n / f;
    let t = y.len() as int;
    assert(0 <= n - f * k < f) by (nonlinear_arith)
        requires
            k == n / f,
            f == 960,
            n >= 0,
    ;
    assert(leftover(x).len() == n - f * k);
    assert(z.len() == f * k + t);
    assert(z.len() / (FRAME_SAMPLES as nat) == k + t / f) by (nonlinear_arith)
        requires
            z.len() == f * k + t,
            f == 960,
            t >= 0,
            k >= 0,
    ;
    assert(t / f >= 0 && k >= 0) by (nonlinear_arith)
        requires
            f == 960,
            t >= 0,
            n >= 0,
            k == n / f,
    ;
    assert forall|i: int| 0 <= i < t implies z[f * k + i] == #[trigger] y[i] by {
        if i < n - f * k {
            assert(y[i] == x[f * k + i]);
        } else {
            assert(y[i] == b[i - (n - f * k)]);
        }
    }
    let wz = whole_frames(z);
    let wx = whole_frames(x);
    let wy = whole_frames(y);
    assert forall|j: int| 0 <= j < wz.len() implies #[trigger] wz[j] == (wx + wy)[j] by {
        if j < k {
            assert(f * j + f <= f * k) by (nonlinear_arith)
                requires
                    j < k,
                    f == 960,
            ;
            assert(wz[j] =~= wx[j]);
        } else {
            let jj = j - k;
            assert(f * j == f * k + f * jj) by (nonlinear_arith)
                requires
                    jj == j - k,
            ;
            assert(0 <= jj < t / f);
            assert(f * jj + f <= t) by (nonlinear_arith)
                requires
                    0 <= jj < t / f,
                    f == 960,
                    t >= 0,
            ;
            assert forall|i: int| 0 <= i < f implies #[trigger] wz[j][i] == wy[jj][i] by {
                assert(wz[j][i] == z[f * k + (f * jj + i)]);
                assert(wy[jj][i] == y[f * jj + i]);
            }
            assert(wz[j] =~= wy[jj]);
        }
    }
    assert(wz =~= wx + wy);
    let q = t / f;
    assert(f * (k + q) == f * k + f * q) by (nonlinear_arith);
    assert(f * q <= t) by (nonlinear_arith)
        requires
            q == t / f,
            f == 960,
            t >= 0,
    ;
    assert forall|i: int| 0 <= i < t - f * q implies #[trigger] leftover(z)[i] == leftover(y)[i] by {
        assert(leftover(z)[i] == z[f * k + (f * q + i)]);
    }
    assert(leftover(z) =~= leftover(y));
}

/// One step of the signalling server: a request handled at a clock reading,
/// an expiry sweep at a second, or an id handed out on its own.
pub enum Step {
    Handle(Request, Option<u64>),
    Expire(u64),
    CreateId,
}

/// The state after one step.
pub open spec fn spec_step(s: MapperState, step: Step) -> MapperState {
    match step {
        Step::Handle(req, now) => spec_handle(s, req, now).0,
        Step::Expire(now) => spec_expire(s, now),
        Step::CreateId => MapperState { last_id: (s.last_id + 1) as u32, ..s },
    }
}

/// The step meets the precondition of the function that performs it.
pub open spec fn step_allowed(s: MapperState, step: Step) -> bool {
    match step {
        Step::Handle(req, _) => req matches Request::PubOffer(Some(_)) ==> s.last_id < u32::MAX,
        Step::Expire(now) => s.added_no_later_than(now),
        Step::CreateId => s.last_id < u32::MAX,
    }
}

/// The state after a sequence of steps.
pub open spec fn spec_run(s: MapperState, steps: Seq<Step>) -> MapperState
    decreases steps.len(),
{
    if steps.len() == 0 {
        s
    } else {
        spec_run(spec_step(s, steps[0]), steps.drop_first())
    }
}

/// Every step of the sequence meets its precondition when it is taken.
pub open spec fn run_allowed(s: MapperState, steps: Seq<Step>) -> bool
    decreases steps.len(),
{
    if steps.len() == 0 {
        true
    } else {
        step_allowed(s, steps[0]) && run_allowed(spec_step(s, steps[0]), steps.drop_first())
    }
}

/// The state of a new `Mapper`.
pub open spec fn initial_state() -> MapperState {
    MapperState { offers: Map::empty(), answers: Map::empty(), last_id: 0 }
}

/// The step fetches the offer stored under `id`.
pub open spec fn fetches_offer(step: Step, id: u32) -> bool {
    step matches Step::Handle(Request::SubGetOffer(Some(b)), _) && b.id == id
}

/// The step submits or fetches an answer under `id`.
pub open spec fn touches_answer(step: Step, id: u32) -> bool {
    ||| step matches Step::Handle(Request::SubAnswer(Some(b)), _) && b.id == id
    ||| step matches Step::Handle(Request::PubGetAnswer(Some(b)), _) && b.id == id
}

/// The step submits an answer under `id`.
pub open spec fn submits_answer(step: Step, id: u32) -> bool {
    step matches Step::Handle(Request::SubAnswer(Some(b)), _) && b.id == id
}

/// The step is an expiry sweep at a second where an entry added at
/// `add_time` is no longer fresh.
pub open spec fn expires_stamp(step: Step, add_time: u64) -> bool {
    step matches Step::Expire(now) && !is_fresh(add_time, now)
}

/// An allowed step never lowers the last id handed out, and the only id it
/// may store a new offer under is the last id handed out after the step.
pub proof fn lemma_step_raises_last_id(s: MapperState, step: Step)
    requires
        step_allowed(s, step),
    ensures
        spec_step(s, step).last_id >= s.last_id,
        spec_step(s, step).offers.dom().subset_of(s.offers.dom().insert(spec_step(s, step).last_id)),
{
}

/// Any sequence of allowed steps keeps the state well formed, and never
/// lowers the last id handed out.
pub proof fn lemma_run_keeps_wf(s: MapperState, steps: Seq<Step>)
    requires
        s.wf(),
        run_allowed(s, steps),
    ensures
        spec_run(s, steps).wf(),
        spec_run(s, steps).last_id >= s.last_id,
    decreases steps.len(),
{
    if steps.len() > 0 {
        match steps[0] {
            Step::Handle(req, now) => lemma_handle_keeps_wf(s, req, now),
            Step::Expire(now) => lemma_expire_keeps_wf(s, now),
            Step::CreateId => {},
        }
        lemma_run_keeps_wf(spec_step(s, steps[0]), steps.drop_first());
    }
}

/// Every state reached from a new `Mapper` by allowed steps is well formed:
/// every stored offer sits under an id already handed out, so a publish
/// never replaces a stored offer.
pub proof fn lemma_reachable_states_wf(steps: Seq<Step>)
    requires
        run_allowed(initial_state(), steps),
    ensures
        spec_run(initial_state(), steps).wf(),
{
    lemma_run_keeps_wf(initial_state(), steps);
}

/// A stored offer under an id already handed out stays stored, unchanged,
/// through any allowed steps that do not fetch it and whose expiry sweeps
/// find it fresh.
pub proof fn lemma_offer_kept(s: MapperState, id: u32, steps: Seq<Step>)
    requires
        id <= s.last_id,
        run_allowed(s, steps),
        s.offers.contains_key(id),
        forall|i: int| 0 <= i < steps.len() ==> !fetches_offer(#[trigger] steps[i], id),
        forall|i: int| 0 <= i < steps.len() ==> !expires_stamp(#[trigger] steps[i], s.offers[id].stamp()),
    ensures
        spec_run(s, steps).offers.contains_key(id),
        spec_run(s, steps).offers[id] == s.offers[id],
    decreases steps.len(),
{
    if steps.len() > 0 {
        let s1 = spec_step(s, steps[0]);
        assert(!fetches_offer(steps[0], id));
        assert(!expires_stamp(steps[0], s.offers[id].stamp()));
        lemma_step_raises_last_id(s, steps[0]);
        assert(s1.offers.contains_key(id) && s1.offers[id] == s.offers[id]);
        let rest = steps.drop_first();
        assert forall|i: int| 0 <= i < rest.len() implies !fetches_offer(#[trigger] rest[i], id) by {
            assert(rest[i] == steps[i + 1]);
        }
        assert forall|i: int| 0 <= i < rest.len() implies !expires_stamp(#[trigger] rest[i], s1.offers[id].stamp()) by {
            assert(rest[i] == steps[i + 1]);
        }
        lemma_offer_kept(s1, id, rest);
    }
}

/// A published offer can be fetched with its SDP under the id the publish
/// returned, after any allowed steps in between that do not fetch that id
/// and whose expiry sweeps find it fresh; the fetch removes it.
pub proof fn lemma_offer_fetched_after_steps(s: MapperState, sdp: String, t: u64, steps: Seq<Step>)
    requires
        s.last_id < u32::MAX,
        run_allowed(spec_pub_offer(s, Some(ReqOffer { sdp }), Some(t)).0, steps),
        forall|i: int| 0 <= i < steps.len() ==> !fetches_offer(#[trigger] steps[i], (s.last_id + 1) as u32),
        forall|i: int| 0 <= i < steps.len() ==> !expires_stamp(#[trigger] steps[i], t),
    ensures
        ({
            let id = (s.last_id + 1) as u32;
            let (s1, r1) = spec_pub_offer(s, Some(ReqOffer { sdp }), Some(t));
            let (s3, r3) = spec_sub_get_offer(spec_run(s1, steps), Some(ReqGetOffer { id }));
            &&& r1 == Reply::Id(id)
            &&& r3 == Reply::Sdp(sdp)
            &&& !s3.offers.contains_key(id)
        }),
{
    let id = (s.last_id + 1) as u32;
    let s1 = spec_pub_offer(s, Some(ReqOffer { sdp }), Some(t)).0;
    assert(s1.offers.contains_key(id) && s1.offers[id].stamp() == t && id <= s1.last_id);
    lemma_offer_kept(s1, id, steps);
}

/// An id whose offer is gone stays without an offer through any allowed
/// steps: ids are handed out only upwards, so no later publish reuses it.
pub proof fn lemma_missing_offer_stays_missing(s: MapperState, id: u32, steps: Seq<Step>)
    requires
        run_allowed(s, steps),
        !s.offers.contains_key(id),
        id <= s.last_id,
    ensures
        !spec_run(s, steps).offers.contains_key(id),
    decreases steps.len(),
{
    if steps.len() > 0 {
        let s1 = spec_step(s, steps[0]);
        lemma_step_raises_last_id(s, steps[0]);
        assert(!s1.offers.contains_key(id));
        lemma_missing_offer_stays_missing(s1, id, steps.drop_first());
    }
}

/// An offer is handed out at most once: after a successful fetch of `id`,
/// an id already handed out, every later fetch of `id`, after any allowed
/// steps, is refused.
pub proof fn lemma_offer_handed_out_once(s: MapperState, id: u32, steps: Seq<Step>)
    requires
        id <= s.last_id,
        s.offers.contains_key(id),
        run_allowed(spec_sub_get_offer(s, Some(ReqGetOffer { id })).0, steps),
    ensures
        spec_sub_get_offer(s, Some(ReqGetOffer { id })).1 matches Reply::Sdp(_),
        spec_sub_get_offer(
            spec_run(spec_sub_get_offer(s, Some(ReqGetOffer { id })).0, steps),
            Some(ReqGetOffer { id }),
        ).1 == Reply::Failed(Fault::UnknownOffer),
{
    let s1 = spec_sub_get_offer(s, Some(ReqGetOffer { id })).0;
    lemma_missing_offer_stays_missing(s1, id, steps);
}

/// A stored answer stays stored, unchanged, through any steps that neither
/// submit nor fetch an answer under its id and whose expiry sweeps find it
/// fresh.
pub proof fn lemma_answer_kept(s: MapperState, id: u32, steps: Seq<Step>)
    requires
        s.answers.contains_key(id),
        forall|i: int| 0 <= i < steps.len() ==> !touches_answer(#[trigger] steps[i], id),
        forall|i: int| 0 <= i < steps.len() ==> !expires_stamp(#[trigger] steps[i], s.answers[id].stamp()),
    ensures
        spec_run(s, steps).answers.contains_key(id),
        spec_run(s, steps).answers[id] == s.answers[id],
    decreases steps.len(),
{
    if steps.len() > 0 {
        let s1 = spec_step(s, steps[0]);
        assert(!touches_answer(steps[0], id));
        assert(!expires_stamp(steps[0], s.answers[id].stamp()));
        assert(s1.answers.contains_key(id) && s1.answers[id] == s.answers[id]);
        let rest = steps.drop_first();
        assert forall|i: int| 0 <= i < rest.len() implies !touches_answer(#[trigger] rest[i], id) by {
            assert(rest[i] == steps[i + 1]);
        }
        assert forall|i: int| 0 <= i < rest.len() implies !expires_stamp(#[trigger] rest[i], s1.answers[id].stamp()) by {
            assert(rest[i] == steps[i + 1]);
        }
        lemma_answer_kept(s1, id, rest);
    }
}

/// An id without an answer stays without one through any steps that do not
/// submit an answer under it.
pub proof fn lemma_missing_answer_stays_missing(s: MapperState, id: u32, steps: Seq<Step>)
    requires
        !s.answers.contains_key(id),
        forall|i: int| 0 <= i < steps.len() ==> !submits_answer(#[trigger] steps[i], id),
    ensures
        !spec_run(s, steps).answers.contains_key(id),
    decreases steps.len(),
{
    if steps.len() > 0 {
        let s1 = spec_step(s, steps[0]);
        assert(!submits_answer(steps[0], id));
        assert(!s1.answers.contains_key(id));
        let rest = steps.drop_first();
        assert forall|i: int| 0 <= i < rest.len() implies !submits_answer(#[trigger] rest[i], id) by {
            assert(rest[i] == steps[i + 1]);
        }
        lemma_missing_answer_stays_missing(s1, id, rest);
    }
}

/// An accepted answer can be fetched with its SDP after any steps in
/// between that neither submit nor fetch an answer under its id and whose
/// expiry sweeps find it fresh; after further steps that submit no answer
/// under the id, fetching again is refused.
pub proof fn lemma_answer_fetched_after_steps(
    s: MapperState,
    id: u32,
    sdp: String,
    t: u64,
    steps: Seq<Step>,
    later: Seq<Step>,
)
    requires
        !s.offers.contains_key(id),
        !s.answers.contains_key(id),
        forall|i: int| 0 <= i < steps.len() ==> !touches_answer(#[trigger] steps[i], id),
        forall|i: int| 0 <= i < steps.len() ==> !expires_stamp(#[trigger] steps[i], t),
        forall|i: int| 0 <= i < later.len() ==> !submits_answer(#[trigger] later[i], id),
    ensures
        ({
            let (s1, r1) = spec_sub_answer(s, Some(ReqAnswer { id, sdp }), Some(t));
            let (s2, r2) = spec_pub_get_answer(spec_run(s1, steps), Some(ReqGetAnswer { id }));
            let (s3, r3) = spec_pub_get_answer(spec_run(s2, later), Some(ReqGetAnswer { id }));
            &&& r1 == Reply::Id(id)
            &&& r2 == Reply::Sdp(sdp)
            &&& r3 == Reply::Failed(Fault::UnknownAnswer)
        }),
{
    let s1 = spec_sub_answer(s, Some(ReqAnswer { id, sdp }), Some(t)).0;
    assert(s1.answers.contains_key(id) && s1.answers[id].stamp() == t);
    lemma_answer_kept(s1, id, steps);
    let s2 = spec_pub_get_answer(spec_run(s1, steps), Some(ReqGetAnswer { id })).0;
    lemma_missing_answer_stays_missing(s2, id, later);
}

/// `n` ids handed out one after another, each on its own.
pub open spec fn create_id_steps(n: nat) -> Seq<Step> {
    Seq::new(n, |i: int| Step::CreateId)
}

/// The ids that `n` successive `create_id` calls return, in order, starting
/// from state `s`: each call returns the last id handed out before it, plus
/// one.
pub open spec fn created_ids(s: MapperState, n: nat) -> Seq<u32>
    decreases n,
{
    if n == 0 {
        Seq::empty()
    } else {
        seq![(s.last_id + 1) as u32] + created_ids(spec_step(s, Step::CreateId), (n - 1) as nat)
    }
}

/// `n` successive `create_id` calls from a last id `c0`, with `c0 + n` within
/// `u32`, are all allowed, return exactly `c0 + 1` through `c0 + n` in that
/// order (so no two of them are equal), leave the last id at `c0 + n`, and
/// change nothing else.
pub proof fn lemma_successive_ids(s: MapperState, n: nat)
    requires
        s.last_id + n <= u32::MAX,
    ensures
        run_allowed(s, create_id_steps(n)),
        spec_run(s, create_id_steps(n)) == (MapperState { last_id: (s.last_id + n) as u32, ..s }),
        created_ids(s, n).len() == n,
        forall|i: int| 0 <= i < n ==> #[trigger] created_ids(s, n)[i] == s.last_id + 1 + i,
        forall|i: int, j: int| 0 <= i < j < n ==> created_ids(s, n)[i] != created_ids(s, n)[j],
    decreases n,
{
    if n > 0 {
        let s1 = spec_step(s, Step::CreateId);
        let n1 = (n - 1) as nat;
        lemma_successive_ids(s1, n1);
        assert(create_id_steps(n).drop_first() =~= create_id_steps(n1));
        assert(create_id_steps(n)[0] == Step::CreateId);
        let c = created_ids(s, n);
        let c1 = created_ids(s1, n1);
        assert forall|i: int| 0 <= i < n implies #[trigger] c[i] == s.last_id + 1 + i by {
            if i > 0 {
                assert(c[i] == c1[i - 1]);
            }
        }
        assert forall|i: int, j: int| 0 <= i < j < n implies c[i] != c[j] by {
            assert(c[i] == s.last_id + 1 + i);
            assert(c[j] == s.last_id + 1 + j);
        }
    }
}

/// What happens to the capture queue: captured bytes appended at its back,
/// or a `next_chunk` call with the chunk length at hand.
pub enum QueueEvent {
    Append(Seq<u8>),
    Take,
}

/// The queue after one event, with chunk length `n`: a take removes the
/// first `n` bytes where the queue holds more than `n`.
pub open spec fn queue_step(q: Seq<u8>, n: nat, e: QueueEvent) -> Seq<u8> {
    match e {
        QueueEvent::Append(bytes) => q + bytes,
        QueueEvent::Take => if q.len() > n {
            q.skip(n as int)
        } else {
            q
        },
    }
}

/// The chunk that one event hands out, if any.
pub open spec fn chunk_of_step(q: Seq<u8>, n: nat, e: QueueEvent) -> Seq<Seq<u8>> {
    match e {
        QueueEvent::Append(_) => Seq::empty(),
        QueueEvent::Take => if q.len() > n {
            seq![q.take(n as int)]
        } else {
            Seq::empty()
        },
    }
}

/// The queue after a sequence of events.
pub open spec fn queue_after(q: Seq<u8>, n: nat, events: Seq<QueueEvent>) -> Seq<u8>
    decreases events.len(),
{
    if events.len() == 0 {
        q
    } else {
        queue_after(queue_step(q, n, events[0]), n, events.drop_first())
    }
}

/// The chunks handed out by a sequence of events, in order.
pub open spec fn chunks_taken(q: Seq<u8>, n: nat, events: Seq<QueueEvent>) -> Seq<Seq<u8>>
    decreases events.len(),
{
    if events.len() == 0 {
        Seq::empty()
    } else {
        chunk_of_step(q, n, events[0]) + chunks_taken(queue_step(q, n, events[0]), n, events.drop_first())
    }
}

/// The bytes appended by a sequence of events, in order.
pub open spec fn appended(events: Seq<QueueEvent>) -> Seq<u8>
    decreases events.len(),
{
    if events.len() == 0 {
        Seq::empty()
    } else {
        match events[0] {
            QueueEvent::Append(bytes) => bytes + appended(events.drop_first()),
            QueueEvent::Take => appended(events.drop_first()),
        }
    }
}

/// However captured bytes and chunk takes interleave, nothing is lost,
/// duplicated or reordered: the chunks handed out, followed by what is left
/// in the queue, are the bytes that were queued at the start followed by
/// every byte appended since; and every chunk holds exactly `n` bytes.
pub proof fn lemma_chunks_follow_the_stream(q: Seq<u8>, n: nat, events: Seq<QueueEvent>)
    ensures
        chunks_taken(q, n, events).flatten() + queue_after(q, n, events) == q + appended(events),
        forall|i: int| 0 <= i < chunks_taken(q, n, events).len() ==> (#[trigger] chunks_taken(q, n, events)[i]).len() == n,
    decreases events.len(),
{
    if events.len() > 0 {
        let e = events[0];
        let rest = events.drop_first();
        let q1 = queue_step(q, n, e);
        let c = chunk_of_step(q, n, e);
        let ct1 = chunks_taken(q1, n, rest);
        let ct = chunks_taken(q, n, events);
        lemma_chunks_follow_the_stream(q1, n, rest);
        assert(ct == c + ct1);
        match e {
            QueueEvent::Append(bytes) => {
                assert(c + ct1 =~= ct1);
                assert(q1 + appended(rest) =~= q + (bytes + appended(rest)));
            },
            QueueEvent::Take => {
                if q.len() > n {
                    let c0 = q.take(n as int);
                    assert((c + ct1).first() == c0);
                    assert((c + ct1).drop_first() =~= ct1);
                    assert(ct.flatten() == c0 + ct1.flatten());
                    assert(q.take(n as int) + q.skip(n as int) =~= q);
                    assert(ct.flatten() + queue_after(q, n, events) =~= c0 + (ct1.flatten() + queue_after(q1, n, rest)));
                    assert forall|i: int| 0 <= i < ct.len() implies (#[trigger] ct[i]).len() == n by {
                        if i > 0 {
                            assert(ct[i] == ct1[i - 1]);
                        }
                    }
                } else {
                    assert(c + ct1 =~= ct1);
                }
            },
        }
    }
}

} // verus!
