//! The replies of the signalling endpoint: a browser posts its session
//! description, the server answers with its own.
use vstd::prelude::*;

verus! {

/// Takes the `data` field of a posted offer, given as its text where it is a
/// JSON string and as `None` where it is another JSON value. A text is
/// forwarded to the peer connection (`Ok`); anything else is answered at once
/// with the reply in `Err`.
pub fn accept_offer(data_text: Option<String>) -> (r: Result<String, String>)
    ensures
        data_text is Some ==> r == Ok::<String, String>(data_text->0),
        data_text is None ==> r is Err && r->Err_0@ == "Invaild SDP"@,
{
    match data_text {
        Some(s) => Ok(s),
        None => Err("Invaild SDP".to_owned()),
    }
}

/// The reply to a posted offer, given the server's session description where
/// the peer connection produced one and `None` where it gave up.
pub fn reply_for_answer(answer: Option<String>) -> (r: String)
    ensures
        answer is Some ==> r == answer->0,
        answer is None ==> r@ == "can not get SDP"@,
{
    match answer {
        Some(data) => data,
        None => "can not get SDP".to_owned(),
    }
}

} // verus!
