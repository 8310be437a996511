//! What a service answered to a request.
use crate::json::{read_json, Json, JsonTree};
use crate::text::joined;
use vstd::prelude::*;

verus! {

/// An answer: its status, the bytes of its body, and the text that they read
/// as.
#[derive(Clone, Debug)]
pub struct Answer {
    pub status: u16,
    pub body: Vec<u8>,
    pub text: String,
    /// What is said of a body that holds no document.
    pub unreadable: String,
}

/// A status that says that the request went well.
pub open spec fn succeeded(status: u16) -> bool {
    200 <= status < 300
}

/// A status that says that the request was not allowed.
pub open spec fn denied(status: u16) -> bool {
    status == 401 || status == 403
}

/// Whether a status says that the request went well.
pub fn is_success(status: u16) -> (r: bool)
    ensures
        r == succeeded(status),
{
    200 <= status && status < 300
}

/// Whether a status says that the request was not allowed.
pub fn is_denial(status: u16) -> (r: bool)
    ensures
        r == denied(status),
{
    status == 401 || status == 403
}

impl Answer {
    /// The document that the body holds.
    pub open spec fn document(self) -> Option<JsonTree> {
        match crate::json::json_document(self.body@) {
            Ok(tree) => Some(tree),
            Err(_) => None,
        }
    }

    /// The error for a body that holds no document.
    pub open spec fn undecodable(self, front: Seq<char>) -> Seq<char> {
        front + self.unreadable@
    }

    /// The document that the body holds, or the error where it holds none.
    pub fn read(&self, front: &str) -> (r: Result<Json, String>)
        ensures
            match r {
                Ok(doc) => self.document() == Some(doc@),
                Err(e) => self.document() is None && e@ == self.undecodable(front@),
            },
    {
        match read_json(self.body.as_slice()) {
            Ok(doc) => Ok(doc),
            Err(_) => Err(joined(front, self.unreadable.as_str())),
        }
    }
}

/// A request went well just where its status is in the two hundreds, and was not
/// allowed just where it is 401 or 403, which is never both.
pub proof fn statuses_tell_what_became_of_a_request(status: u16)
    ensures
        succeeded(status) <==> status as int / 100 == 2,
        denied(status) <==> (status == 401 || status == 403),
        !(succeeded(status) && denied(status)),
{
}

/// An answer holds the document that is read in its body, and no other; where
/// there is none, the error ends with what is said of the body.
pub proof fn body_holds_the_document(answer: Answer, doc: JsonTree, front: Seq<char>)
    ensures
        answer.document() == Some(doc) <==> crate::json::json_document(answer.body@) == Ok::<
            JsonTree,
            Seq<char>,
        >(doc),
        answer.undecodable(front) == front + answer.unreadable@,
{
}

} // verus!
