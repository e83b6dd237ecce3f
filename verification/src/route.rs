//! Which operation of the signalling server a request asks for.

use vstd::prelude::*;

use crate::bean::{ReqAnswer, ReqGetAnswer, ReqGetOffer, ReqOffer};

verus! {

/// The HTTP method of a request, as far as routing tells them apart.
#[derive(Debug, Clone, Copy, PartialEq, Eq)]
pub enum Method {
    Post,
    Other,
}

/// The operation a request is routed to.
#[derive(Debug, Clone, Copy, PartialEq, Eq)]
pub enum Route {
    /// `POST /pub/offer`
    PubOffer,
    /// `POST /sub/get/offer`
    SubGetOffer,
    /// `POST /sub/answer`
    SubAnswer,
    /// `POST /sub/get/answer`: a publisher fetching the answer to its offer.
    PubGetAnswer,
    /// Anything else.
    NotFound,
}

/// A routed request with its body, which is `None` where the body did not
/// parse as the route's request type.
#[derive(Debug, Clone, PartialEq, Eq)]
pub enum Request {
    PubOffer(Option<ReqOffer>),
    SubGetOffer(Option<ReqGetOffer>),
    SubAnswer(Option<ReqAnswer>),
    PubGetAnswer(Option<ReqGetAnswer>),
    NotFound,
}

/// The route of a request with the given method and path.
pub open spec fn spec_route(method: Method, path: Seq<char>) -> Route {
    if method != Method::Post {
        Route::NotFound
    } else if path == "/pub/offer"@ {
        Route::PubOffer
    } else if path == "/sub/get/offer"@ {
        Route::SubGetOffer
    } else if path == "/sub/answer"@ {
        Route::SubAnswer
    } else if path == "/sub/get/answer"@ {
        Route::PubGetAnswer
    } else {
        Route::NotFound
    }
}

/// Only a POST request is routed to an operation: a request with any other
/// method is answered "not found", whatever its path; and a path other than
/// the four of the server is "not found" whatever the method. Each of the
/// four paths, requested with POST, reaches its own operation.
pub proof fn lemma_routes(method: Method, path: Seq<char>)
    ensures
        method != Method::Post ==> spec_route(method, path) == Route::NotFound,
        path != "/pub/offer"@ && path != "/sub/get/offer"@ && path != "/sub/answer"@ && path != "/sub/get/answer"@
            ==> spec_route(method, path) == Route::NotFound,
        spec_route(Method::Post, "/pub/offer"@) == Route::PubOffer,
        spec_route(Method::Post, "/sub/get/offer"@) == Route::SubGetOffer,
        spec_route(Method::Post, "/sub/answer"@) == Route::SubAnswer,
        spec_route(Method::Post, "/sub/get/answer"@) == Route::PubGetAnswer,
{
    reveal_strlit("/pub/offer");
    reveal_strlit("/sub/get/offer");
    reveal_strlit("/sub/answer");
    reveal_strlit("/sub/get/answer");
    assert("/pub/offer"@.len() == 10);
    assert("/sub/get/offer"@.len() == 14);
    assert("/sub/answer"@.len() == 11);
    assert("/sub/get/answer"@.len() == 15);
}

/// Whether two texts hold the same characters.
pub fn text_eq(a: &str, b: &str) -> (r: bool)
    ensures
        r == (a@ == b@),
{
    let n = a.unicode_len();
    if n != b.unicode_len() {
        return false;
    }
    let mut i: usize = 0;
    while i < n
        invariant
            n == a@.len(),
            n == b@.len(),
            i <= n,
            forall|j: int| 0 <= j < i ==> a@[j] == b@[j],
        decreases n - i,
    {
        if a.get_char(i) != b.get_char(i) {
            return false;
        }
        i = i + 1;
    }
    assert(a@ =~= b@);
    true
}

impl Route {
    /// Routes a request by its method and path.
    pub fn from_request(method: Method, path: &str) -> (r: Route)
        ensures
            r == spec_route(method, path@),
            method != Method::Post ==> r == Route::NotFound,
            method == Method::Post && path@ == "/pub/offer"@ ==> r == Route::PubOffer,
            method == Method::Post && path@ == "/sub/get/offer"@ ==> r == Route::SubGetOffer,
            method == Method::Post && path@ == "/sub/answer"@ ==> r == Route::SubAnswer,
            method == Method::Post && path@ == "/sub/get/answer"@ ==> r == Route::PubGetAnswer,
            path@ != "/pub/offer"@ && path@ != "/sub/get/offer"@ && path@ != "/sub/answer"@ && path@
                != "/sub/get/answer"@ ==> r == Route::NotFound,
    {
        proof {
            lemma_routes(method, path@);
        }
        match method {
            Method::Other => Route::NotFound,
            Method::Post => {
                if text_eq(path, "/pub/offer") {
                    Route::PubOffer
                } else if text_eq(path, "/sub/get/offer") {
                    Route::SubGetOffer
                } else if text_eq(path, "/sub/answer") {
                    Route::SubAnswer
                } else if text_eq(path, "/sub/get/answer") {
                    Route::PubGetAnswer
                } else {
                    Route::NotFound
                }
            },
        }
    }
}

} // verus!
