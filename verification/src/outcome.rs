use vstd::prelude::*;

verus! {

/// The text reported when a directory call failed without saying why.
pub open spec fn unknown_error_text() -> Seq<char> {
    "Unknown error"@
}

/// The text of a failure: the error's own description where the directory
/// gave one, else the fixed "Unknown error".
pub open spec fn error_text(err: Option<Seq<char>>) -> Seq<char> {
    match err {
        Some(d) => d,
        None => unknown_error_text(),
    }
}

/// The view of an optional owned string.
pub open spec fn opt_view(o: Option<String>) -> Option<Seq<char>> {
    match o {
        Some(s) => Some(s@),
        None => None,
    }
}

/// Whether an owned string holds exactly the text of a literal.
pub fn same_text(s: &String, lit: &str) -> (res: bool)
    ensures
        res == (s@ == lit@),
{
    let t = String::from_str(lit);
    *s == t
}

/// Turns the error that a directory call may have left behind into the text
/// reported to the caller.
pub fn err_to_string(err: Option<String>) -> (res: String)
    ensures
        res@ == error_text(opt_view(err)),
{
    match err {
        Some(d) => d,
        None => String::from_str("Unknown error"),
    }
}

/// Reading of a directory call that answers with a success flag and, on
/// failure, may leave an error description: success is `Ok`, failure carries
/// the error's text.
pub fn call_outcome(ok: bool, err: Option<String>) -> (res: Result<(), String>)
    ensures
        ok ==> res is Ok,
        !ok ==> (res matches Err(e) && e@ == error_text(opt_view(err))),
{
    if ok {
        Ok(())
    } else {
        Err(err_to_string(err))
    }
}

/// A failure reports the directory's own description unchanged when it gave
/// one, and "Unknown error" when it gave none.
pub proof fn lemma_error_text(d: Seq<char>)
    ensures
        error_text(Some(d)) == d,
        error_text(None) == "Unknown error"@,
{
}

} // verus!
