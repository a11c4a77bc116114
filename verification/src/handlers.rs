//! The handlers of the service: listing the questions, whole or by window,
//! filing a question, and wording the reply to a request that was refused.

use vstd::prelude::*;
use vstd::hash_map::StringHashMap;
use vstd::string::*;
use crate::error::Error;
use crate::pagination::{extract_pagination, requested_window};
use crate::question::{views, Question, QuestionView};
use crate::store::{filed, is_listing_of, Store};

verus! {

/// The status of a reply to a request that was served.
pub const STATUS_OK: u16 = 200;

/// The status of a reply to a request that the cross-origin policy refused.
pub const STATUS_FORBIDDEN: u16 = 403;

/// The status of a reply to a request that nothing recognises.
pub const STATUS_NOT_FOUND: u16 = 404;

/// The status of a reply to a request whose pagination window cannot be read.
pub const STATUS_RANGE_NOT_SATISFIABLE: u16 = 416;

/// A reply in plain text.
#[derive(Debug)]
pub struct Reply {
    pub status: u16,
    pub body: String,
}

/// The reply to a listing request that was served: the questions are its
/// body.
#[derive(Debug)]
pub struct Listing {
    pub status: u16,
    pub questions: Vec<Question>,
}

/// Why a request was refused.
#[derive(Debug)]
pub enum Refusal {
    /// Its pagination window cannot be read.
    Pagination(Error),
    /// The cross-origin policy forbids it; the payload is the policy's own
    /// wording.
    Cors(String),
    /// Anything else, such as a path that no route serves.
    Unrecognized,
}

/// What a listing request is answered with: the whole `listing` where there
/// are no parameters, else the window of it that the parameters ask for.
pub open spec fn requested_page(
    params: Map<Seq<char>, String>,
    listing: Seq<QuestionView>,
) -> Result<Seq<QuestionView>, Error> {
    if params.is_empty() {
        Ok(listing)
    } else {
        match requested_window(params) {
            Ok(window) => Ok(listing.subrange(window.start as int, window.end as int)),
            Err(e) => Err(e),
        }
    }
}

/// Whether the window that `params` ask for, if they ask for one, lies
/// within a listing of `len` questions.
pub open spec fn window_in_range(params: Map<Seq<char>, String>, len: nat) -> bool {
    !params.is_empty() ==> match requested_window(params) {
        Ok(window) => window.fits(len),
        Err(_) => true,
    }
}

/// Lists the questions of `store`: all of them where `params` is empty, else
/// those at the positions that `params` ask for. Parameters that ask for no
/// readable window are an error, whatever the store holds.
pub fn get_questions(params: StringHashMap<String>, store: &Store) -> (r: Result<Listing, Error>)
    requires
        window_in_range(params@, store.listing().len()),
    ensures
        r is Ok ==> is_listing_of(store.listing(), store@),
        match r {
            Ok(reply) => reply.status == STATUS_OK && requested_page(params@, store.listing())
                == Ok::<Seq<QuestionView>, Error>(views(reply.questions@)),
            Err(e) => requested_page(params@, store.listing()) == Err::<Seq<QuestionView>, Error>(
                e,
            ),
        },
{
    if !params.is_empty() {
        let window = match extract_pagination(params) {
            Ok(window) => window,
            Err(e) => {
                return Err(e);
            },
        };
        let all = store.list_all();
        let page = window.slice(all);
        assert(views(page@) =~= store.listing().subrange(window.start as int, window.end as int));
        Ok(Listing { status: STATUS_OK, questions: page })
    } else {
        Ok(Listing { status: STATUS_OK, questions: store.list_all() })
    }
}

/// The body of the reply to a question that was filed.
pub open spec fn added_text() -> Seq<char> {
    "Question added"@
}

/// Files `question` in `store`, in place of any question with its
/// identifier, and confirms.
pub fn add_question(store: &mut Store, question: Question) -> (reply: Reply)
    ensures
        final(store)@ == old(store)@.insert(question.id@, question@),
        final(store).listing() == filed(old(store).listing(), question@),
        is_listing_of(final(store).listing(), final(store)@),
        reply.status == STATUS_OK,
        reply.body@ == added_text(),
{
    store.insert(question);
    Reply { status: STATUS_OK, body: String::from_str("Question added") }
}

/// The status of the reply to a refused request.
pub open spec fn refusal_status(refusal: Refusal) -> u16 {
    match refusal {
        Refusal::Pagination(_) => STATUS_RANGE_NOT_SATISFIABLE,
        Refusal::Cors(_) => STATUS_FORBIDDEN,
        Refusal::Unrecognized => STATUS_NOT_FOUND,
    }
}

/// The body of the reply to a refused request.
pub open spec fn refusal_text(refusal: Refusal) -> Seq<char> {
    match refusal {
        Refusal::Pagination(e) => e.text(),
        Refusal::Cors(wording) => wording@,
        Refusal::Unrecognized => "Route not found"@,
    }
}

/// Words the reply to a refused request.
pub fn return_error(refusal: Refusal) -> (reply: Reply)
    ensures
        reply.status == refusal_status(refusal),
        reply.body@ == refusal_text(refusal),
{
    match refusal {
        Refusal::Pagination(e) => Reply { status: STATUS_RANGE_NOT_SATISFIABLE, body: e.to_string() },
        Refusal::Cors(wording) => Reply { status: STATUS_FORBIDDEN, body: wording },
        Refusal::Unrecognized => Reply {
            status: STATUS_NOT_FOUND,
            body: String::from_str("Route not found"),
        },
    }
}

} // verus!
