//! How requests are answered.

use crate::document::{tells, Doc, Document, Fields};
use crate::text::{contains, has_text};
use vstd::prelude::*;
use vstd::string::*;

verus! {

/// An answer: the status of HTTP, the document, and whether it counts as an error
/// of the node.
#[derive(Debug)]
pub struct HttpReply {
    pub status: u16,
    pub body: Document,
    pub counts_error: bool,
}

/// The contents of an answer.
pub struct Answered {
    pub status: u16,
    pub body: Doc,
    pub counts_error: bool,
}

impl View for HttpReply {
    type V = Answered;

    open spec fn view(&self) -> Answered {
        Answered { status: self.status, body: self.body@, counts_error: self.counts_error }
    }
}

/// The request was carried out.
pub const OK: u16 = 200;

/// The request is being carried out.
pub const ACCEPTED: u16 = 202;

/// The request cannot be read.
pub const BAD_REQUEST: u16 = 400;

/// There is nothing of that name.
pub const NOT_FOUND: u16 = 404;

/// The request does not fit the state of the node.
pub const CONFLICT: u16 = 409;

/// The request is too large.
pub const PAYLOAD_TOO_LARGE: u16 = 413;

/// Something that the request needs is not there.
pub const SERVICE_UNAVAILABLE: u16 = 503;

/// An answer by its document; it counts as no error.
pub open spec fn fine(status: u16, body: Doc) -> Answered {
    Answered { status, body, counts_error: false }
}

/// The document for an error.
pub open spec fn error_doc(error: Seq<char>) -> Doc {
    Doc::Object(seq![("ok"@, Doc::Flag(false)), ("error"@, Doc::Text(error))])
}

/// An answer that tells of an error.
pub open spec fn refused(status: u16, error: Seq<char>, counts_error: bool) -> Answered {
    Answered { status, body: error_doc(error), counts_error }
}

/// An answer that tells of an error.
pub fn error_reply(status: u16, error: &str, counts_error: bool) -> (r: HttpReply)
    ensures
        r@ == refused(status, error@, counts_error),
{
    let f = Fields::new().flag("ok", false).text("error", error);
    assert(f@ =~= seq![("ok"@, Doc::Flag(false)), ("error"@, Doc::Text(error@))]);
    HttpReply { status, body: f.done(), counts_error }
}

/// An answer with a document.
pub fn reply(status: u16, body: Document) -> (r: HttpReply)
    ensures
        r@ == fine(status, body@),
{
    HttpReply { status, body, counts_error: false }
}

/// Whether an error says that another model is stored.
pub open spec fn tells_model_conflict(error: Seq<char>) -> bool {
    has_text(error, "already exists with a different model"@)
}

/// Whether an error says that another model is stored.
pub fn is_problem_model_conflict(error: &str) -> (r: bool)
    ensures
        r == tells_model_conflict(error@),
{
    contains(error, "already exists with a different model")
}

/// The status for an error of a solve: a conflict, something that is not there, or
/// a request that cannot be carried out.
pub open spec fn status_for(error: Seq<char>) -> u16 {
    if has_text(error, "already has running solve"@) || has_text(error, "coordination lock busy"@)
        || tells_model_conflict(error) {
        CONFLICT
    } else if has_text(error, "coordination"@) || has_text(error, "live-mutex"@) || has_text(
        error,
        "Redis"@,
    ) {
        SERVICE_UNAVAILABLE
    } else {
        BAD_REQUEST
    }
}

/// The status for an error of a solve.
pub fn solve_error_status(error: &str) -> (r: u16)
    ensures
        r == status_for(error@),
{
    if contains(error, "already has running solve") || contains(error, "coordination lock busy")
        || is_problem_model_conflict(error) {
        CONFLICT
    } else if contains(error, "coordination") || contains(error, "live-mutex") || contains(
        error,
        "Redis",
    ) {
        SERVICE_UNAVAILABLE
    } else {
        BAD_REQUEST
    }
}

/// The answer to a request whose solve failed.
pub fn solve_failed_reply(error: &str) -> (r: HttpReply)
    ensures
        r@ == refused(status_for(error@), error@, true),
{
    error_reply(solve_error_status(error), error, true)
}

/// An error is a conflict where it tells of a running solve, a held lock or another
/// model; a fault of the services where it names one of them; and a bad request else.
pub proof fn errors_have_statuses(error: Seq<char>)
    ensures
        CONFLICT == 409 && SERVICE_UNAVAILABLE == 503 && BAD_REQUEST == 400 && NOT_FOUND == 404
            && OK == 200 && ACCEPTED == 202 && PAYLOAD_TOO_LARGE == 413,
        has_text(error, "already has running solve"@) || has_text(
            error,
            "coordination lock busy"@,
        ) || has_text(error, "already exists with a different model"@) <==> status_for(error)
            == 409,
        status_for(error) == 503 ==> has_text(error, "coordination"@) || has_text(
            error,
            "live-mutex"@,
        ) || has_text(error, "Redis"@),
        status_for(error) == 409 || status_for(error) == 503 || status_for(error) == 400,
        !has_text(error, "already has running solve"@) && !has_text(error, "coordination"@)
            && !has_text(error, "live-mutex"@) && !has_text(error, "Redis"@) && !has_text(
            error,
            "already exists with a different model"@,
        ) && !has_text(error, "coordination lock busy"@) ==> status_for(error) == 400,
{
}

/// A refusal tells its error and that the request failed, with the status it is given;
/// what is fine is told as it is, and is counted as no error.
pub proof fn refusals_tell_the_error(status: u16, error: Seq<char>, counted: bool, body: Doc)
    ensures
        refused(status, error, counted).status == status,
        refused(status, error, counted).counts_error == counted,
        tells(refused(status, error, counted).body, "ok"@, Doc::Flag(false)),
        tells(refused(status, error, counted).body, "error"@, Doc::Text(error)),
        fine(status, body).status == status && fine(status, body).body == body && !fine(
            status,
            body,
        ).counts_error,
{
    let d = error_doc(error);
    assert(d->Object_0[0].0 == "ok"@);
    assert(d->Object_0[1].0 == "error"@);
}

}
