use audio_relay::bean::{ReqAnswer, ReqGetAnswer, ReqGetOffer, ReqOffer};
use audio_relay::mapper::{pub_get_answer, pub_offer, sub_answer, sub_get_offer, Mapper};
use audio_relay::reply::{not_found_message, success_message, Fault, Reply, SUCCESS_STAT};
use audio_relay::route::{text_eq, Method, Request, Route};

fn offer(sdp: &str) -> Option<ReqOffer> {
    Some(ReqOffer { sdp: sdp.to_string() })
}

#[test]
fn new_mapper_hands_out_ids_from_one() {
    let mut m = Mapper::new();
    assert_eq!(m.last_id(), 0);
    assert_eq!(m.create_id(), 1);
    assert_eq!(m.create_id(), 2);
    assert_eq!(m.last_id(), 2);
}

#[test]
fn published_offer_is_fetched_once() {
    let mut m = Mapper::new();
    assert_eq!(pub_offer(&mut m, offer("v=0 offer"), Some(1000)), Reply::Id(1));
    assert_eq!(
        sub_get_offer(&mut m, Some(ReqGetOffer { id: 1 })),
        Reply::Sdp("v=0 offer".to_string())
    );
    assert_eq!(
        sub_get_offer(&mut m, Some(ReqGetOffer { id: 1 })),
        Reply::Failed(Fault::UnknownOffer)
    );
}

#[test]
fn offers_get_increasing_ids() {
    let mut m = Mapper::new();
    assert_eq!(pub_offer(&mut m, offer("a"), Some(1)), Reply::Id(1));
    assert_eq!(pub_offer(&mut m, offer("b"), Some(2)), Reply::Id(2));
    assert_eq!(sub_get_offer(&mut m, Some(ReqGetOffer { id: 2 })), Reply::Sdp("b".to_string()));
    assert_eq!(sub_get_offer(&mut m, Some(ReqGetOffer { id: 1 })), Reply::Sdp("a".to_string()));
}

#[test]
fn unparsed_offer_body_is_refused_without_taking_an_id() {
    let mut m = Mapper::new();
    assert_eq!(pub_offer(&mut m, None, Some(5)), Reply::Failed(Fault::NotOfferBody));
    assert_eq!(m.last_id(), 0);
    assert_eq!(sub_get_offer(&mut m, None), Reply::Failed(Fault::NotOfferBody));
}

#[test]
fn clock_failure_takes_an_id_but_stores_nothing() {
    let mut m = Mapper::new();
    assert_eq!(pub_offer(&mut m, offer("a"), None), Reply::Failed(Fault::ClockFailed));
    assert_eq!(m.last_id(), 1);
    assert_eq!(sub_get_offer(&mut m, Some(ReqGetOffer { id: 1 })), Reply::Failed(Fault::UnknownOffer));
    assert_eq!(pub_offer(&mut m, offer("b"), Some(3)), Reply::Id(2));
}

#[test]
fn answer_for_an_offered_id_is_refused() {
    let mut m = Mapper::new();
    assert_eq!(pub_offer(&mut m, offer("o"), Some(10)), Reply::Id(1));
    let ans = Some(ReqAnswer { id: 1, sdp: "ans".to_string() });
    assert_eq!(sub_answer(&mut m, ans.clone(), Some(11)), Reply::Failed(Fault::IdMapsToOffer));
    assert_eq!(pub_get_answer(&mut m, Some(ReqGetAnswer { id: 1 })), Reply::Failed(Fault::UnknownAnswer));
    // once the offer is taken, the answer is accepted and can be fetched once
    assert_eq!(sub_get_offer(&mut m, Some(ReqGetOffer { id: 1 })), Reply::Sdp("o".to_string()));
    assert_eq!(sub_answer(&mut m, ans, Some(12)), Reply::Id(1));
    assert_eq!(pub_get_answer(&mut m, Some(ReqGetAnswer { id: 1 })), Reply::Sdp("ans".to_string()));
    assert_eq!(pub_get_answer(&mut m, Some(ReqGetAnswer { id: 1 })), Reply::Failed(Fault::UnknownAnswer));
}

#[test]
fn second_answer_replaces_the_first_and_is_reported() {
    let mut m = Mapper::new();
    assert_eq!(sub_answer(&mut m, Some(ReqAnswer { id: 7, sdp: "one".to_string() }), Some(1)), Reply::Id(7));
    assert_eq!(
        sub_answer(&mut m, Some(ReqAnswer { id: 7, sdp: "two".to_string() }), Some(2)),
        Reply::Failed(Fault::AnswerAddFailed)
    );
    assert_eq!(pub_get_answer(&mut m, Some(ReqGetAnswer { id: 7 })), Reply::Sdp("two".to_string()));
}

#[test]
fn answer_body_and_clock_failures() {
    let mut m = Mapper::new();
    assert_eq!(sub_answer(&mut m, None, Some(1)), Reply::Failed(Fault::NotAnswerBody));
    assert_eq!(pub_get_answer(&mut m, None), Reply::Failed(Fault::NotAnswerBody));
    assert_eq!(
        sub_answer(&mut m, Some(ReqAnswer { id: 3, sdp: "x".to_string() }), None),
        Reply::Failed(Fault::ClockFailed)
    );
    assert_eq!(pub_get_answer(&mut m, Some(ReqGetAnswer { id: 3 })), Reply::Failed(Fault::UnknownAnswer));
}

#[test]
fn handler_dispatches_by_request() {
    let mut m = Mapper::new();
    assert_eq!(m.handler(Request::PubOffer(offer("s")), Some(4)), Reply::Id(1));
    assert_eq!(m.handler(Request::NotFound, Some(4)), Reply::NotFound);
    assert_eq!(m.handler(Request::SubGetOffer(Some(ReqGetOffer { id: 1 })), None), Reply::Sdp("s".to_string()));
    assert_eq!(
        m.handler(Request::SubAnswer(Some(ReqAnswer { id: 1, sdp: "a".to_string() })), Some(5)),
        Reply::Id(1)
    );
    assert_eq!(
        m.handler(Request::PubGetAnswer(Some(ReqGetAnswer { id: 1 })), None),
        Reply::Sdp("a".to_string())
    );
}

#[test]
fn entries_expire_after_thirty_seconds() {
    let mut m = Mapper::new();
    assert_eq!(pub_offer(&mut m, offer("old"), Some(100)), Reply::Id(1));
    assert_eq!(pub_offer(&mut m, offer("new"), Some(110)), Reply::Id(2));
    assert_eq!(sub_answer(&mut m, Some(ReqAnswer { id: 9, sdp: "a".to_string() }), Some(100)), Reply::Id(9));
    assert!(m.added_no_later_than(129));
    m.expire(129);
    assert!(m.offer_count() == 2 && m.answer_count() == 1);
    m.expire(130);
    assert_eq!(m.offer_count(), 1);
    assert_eq!(m.answer_count(), 0);
    assert_eq!(sub_get_offer(&mut m, Some(ReqGetOffer { id: 1 })), Reply::Failed(Fault::UnknownOffer));
    assert_eq!(sub_get_offer(&mut m, Some(ReqGetOffer { id: 2 })), Reply::Sdp("new".to_string()));
    assert_eq!(m.last_id(), 2);
}

#[test]
fn entries_added_later_than_now_are_detected() {
    let mut m = Mapper::new();
    assert!(m.added_no_later_than(0));
    assert_eq!(pub_offer(&mut m, offer("x"), Some(50)), Reply::Id(1));
    assert!(!m.added_no_later_than(49));
    assert!(m.added_no_later_than(50));
}

#[test]
fn fault_codes_and_messages() {
    assert_eq!(Fault::NotOfferBody.stat(), 1);
    assert_eq!(Fault::NotOfferBody.message(), "request body is not offer");
    assert_eq!(Fault::UnknownOffer.stat(), 1);
    assert_eq!(Fault::UnknownOffer.message(), "do not exit this offer id");
    assert_eq!(Fault::NotAnswerBody.stat(), 1);
    assert_eq!(Fault::NotAnswerBody.message(), "request body is not answer");
    assert_eq!(Fault::IdMapsToOffer.stat(), 1);
    assert_eq!(Fault::IdMapsToOffer.message(), "id is duplicate, id maps to offer");
    assert_eq!(Fault::ClockFailed.stat(), 2);
    assert_eq!(Fault::ClockFailed.message(), "server error, get time fail");
    assert_eq!(Fault::AnswerAddFailed.stat(), 2);
    assert_eq!(Fault::AnswerAddFailed.message(), "server error, add answer fail");
    assert_eq!(Fault::UnknownAnswer.stat(), 2);
    assert_eq!(Fault::UnknownAnswer.message(), "do not exit this answer id");
    assert_eq!(success_message(), "success");
    assert_eq!(SUCCESS_STAT, 0);
    assert_eq!(not_found_message(), "not found");
}

#[test]
fn routes_match_post_paths_exactly() {
    assert_eq!(Route::from_request(Method::Post, "/pub/offer"), Route::PubOffer);
    assert_eq!(Route::from_request(Method::Post, "/sub/get/offer"), Route::SubGetOffer);
    assert_eq!(Route::from_request(Method::Post, "/sub/answer"), Route::SubAnswer);
    assert_eq!(Route::from_request(Method::Post, "/sub/get/answer"), Route::PubGetAnswer);
    assert_eq!(Route::from_request(Method::Post, "/pub/get/answer"), Route::NotFound);
    assert_eq!(Route::from_request(Method::Other, "/pub/offer"), Route::NotFound);
    assert_eq!(Route::from_request(Method::Post, "/pub/offer/"), Route::NotFound);
    assert_eq!(Route::from_request(Method::Post, "/"), Route::NotFound);
    assert_eq!(Route::from_request(Method::Post, ""), Route::NotFound);
}

#[test]
fn text_comparison() {
    assert!(text_eq("abc", "abc"));
    assert!(text_eq("", ""));
    assert!(!text_eq("abc", "abd"));
    assert!(!text_eq("abc", "ab"));
    assert!(text_eq("héllo", "héllo"));
    assert!(!text_eq("héllo", "hello"));
}

#[test]
fn offer_survives_other_requests_and_is_handed_out_once() {
    let mut m = Mapper::new();
    assert_eq!(pub_offer(&mut m, offer("first"), Some(100)), Reply::Id(1));
    assert_eq!(pub_offer(&mut m, offer("second"), Some(101)), Reply::Id(2));
    assert_eq!(sub_answer(&mut m, Some(ReqAnswer { id: 5, sdp: "a".to_string() }), Some(102)), Reply::Id(5));
    assert_eq!(sub_get_offer(&mut m, Some(ReqGetOffer { id: 2 })), Reply::Sdp("second".to_string()));
    m.expire(110);
    assert_eq!(sub_get_offer(&mut m, Some(ReqGetOffer { id: 1 })), Reply::Sdp("first".to_string()));
    assert_eq!(pub_offer(&mut m, offer("third"), Some(111)), Reply::Id(3));
    assert_eq!(pub_offer(&mut m, offer("fourth"), Some(112)), Reply::Id(4));
    assert_eq!(sub_get_offer(&mut m, Some(ReqGetOffer { id: 1 })), Reply::Failed(Fault::UnknownOffer));
    assert_eq!(sub_get_offer(&mut m, Some(ReqGetOffer { id: 2 })), Reply::Failed(Fault::UnknownOffer));
}

#[test]
fn answer_survives_other_requests_and_is_handed_out_once() {
    let mut m = Mapper::new();
    assert_eq!(sub_answer(&mut m, Some(ReqAnswer { id: 4, sdp: "ans".to_string() }), Some(200)), Reply::Id(4));
    assert_eq!(pub_offer(&mut m, offer("o"), Some(201)), Reply::Id(1));
    assert_eq!(sub_answer(&mut m, Some(ReqAnswer { id: 6, sdp: "b".to_string() }), Some(202)), Reply::Id(6));
    m.expire(229);
    assert_eq!(pub_get_answer(&mut m, Some(ReqGetAnswer { id: 4 })), Reply::Sdp("ans".to_string()));
    assert_eq!(pub_offer(&mut m, offer("p"), Some(203)), Reply::Id(2));
    assert_eq!(pub_get_answer(&mut m, Some(ReqGetAnswer { id: 6 })), Reply::Sdp("b".to_string()));
    assert_eq!(pub_get_answer(&mut m, Some(ReqGetAnswer { id: 4 })), Reply::Failed(Fault::UnknownAnswer));
}

#[test]
fn offer_survives_ids_handed_out_on_their_own() {
    let mut m = Mapper::new();
    assert_eq!(pub_offer(&mut m, offer("kept"), Some(10)), Reply::Id(1));
    assert_eq!(m.create_id(), 2);
    assert_eq!(m.create_id(), 3);
    assert_eq!(pub_offer(&mut m, offer("next"), Some(11)), Reply::Id(4));
    assert_eq!(m.last_id(), 4);
    assert_eq!(m.offer_count(), 2);
    assert_eq!(sub_get_offer(&mut m, Some(ReqGetOffer { id: 1 })), Reply::Sdp("kept".to_string()));
    assert_eq!(sub_get_offer(&mut m, Some(ReqGetOffer { id: 2 })), Reply::Failed(Fault::UnknownOffer));
    assert_eq!(sub_get_offer(&mut m, Some(ReqGetOffer { id: 4 })), Reply::Sdp("next".to_string()));
    assert_eq!(m.offer_count(), 0);
}

#[test]
fn successive_ids_are_consecutive_and_distinct() {
    let mut m = Mapper::new();
    assert_eq!(pub_offer(&mut m, offer("x"), Some(1)), Reply::Id(1));
    let c0 = m.last_id();
    let ids: Vec<u32> = (0..5).map(|_| m.create_id()).collect();
    assert_eq!(ids, vec![c0 + 1, c0 + 2, c0 + 3, c0 + 4, c0 + 5]);
    assert_eq!(m.last_id(), c0 + 5);
    assert_eq!(m.offer_count(), 1);
}
