//! Runtime half of the bridge: the safe creation operation for the solver's
//! opaque environment handle.
//!
//! The native creation call writes an integer status code through an output
//! slot and returns a raw handle whose validity is entirely conditioned on
//! that status. The functions here hold the decision logic: the caller that
//! performs the native call hands in the handle value and what the call wrote
//! to the status slot, and gets back either the exclusive owner of the handle
//! or a typed error.

use vstd::prelude::*;
use vstd::string::StringExecFns;
use crate::text::int_str;
use crate::text::i32_to_string;

verus! {

/// The single status code the native creation call uses for success.
pub const SUCCESS_STATUS: i32 = 0;

/// Out-of-band value the status slot is initialized to before the native
/// call runs. It differs from `SUCCESS_STATUS`, so a foreign call that fails
/// to write its output slot at all can never be mistaken for success.
pub const SENTINEL_STATUS: i32 = -10;

/// Exclusive owner of one live solver environment handle.
///
/// A value of this type exists only when a creation attempt reported the
/// success status; there is no other way to construct one, and no aliasing
/// accessor hands out a second owner of the same handle. Dropping the
/// wrapper ends that ownership; the paired native release call is left to
/// the embedding layer, because the vendor's release contract (idempotence,
/// ordering against other native calls) is unverified here and must not be
/// guessed at.
#[derive(Debug)]
pub struct Cplex {
    env: u64,
}

impl Cplex {
    /// The raw handle value this wrapper owns.
    pub closed spec fn handle(&self) -> u64 {
        self.env
    }

    /// Reads the owned handle value, for inspection only; the wrapper
    /// remains the sole owner of the underlying environment.
    pub fn raw_handle(&self) -> (h: u64)
        ensures
            h == self.handle(),
    {
        self.env
    }
}

/// Failure report of a creation attempt: the status code the native call
/// produced (or the untouched sentinel) and a message formatted from it.
#[derive(Debug)]
pub struct EnvironmentError {
    pub code: i32,
    pub message: String,
}

/// The message text reported for a failing status code.
pub open spec fn error_message(code: int) -> Seq<char> {
    "Could not open CPLEX - status "@ + int_str(code) + "."@
}

/// Maps the outcome of the native creation call to a typed result.
///
/// `handle` is the value the native call returned; `status` is what the
/// status slot holds after the call. Exactly the success status yields a
/// wrapper, and that wrapper owns exactly `handle`; every other status —
/// the untouched sentinel included — yields an error carrying the status
/// code and the message formatted from it.
pub fn get_cplex(handle: u64, status: i32) -> (r: Result<Cplex, EnvironmentError>)
    ensures
        r is Ok <==> status == SUCCESS_STATUS,
        r matches Ok(c) ==> c.handle() == handle,
        r matches Err(e) ==> e.code == status && e.message@ == error_message(status as int),
{
    if status == SUCCESS_STATUS {
        Ok(Cplex { env: handle })
    } else {
        let mut message = String::from_str("Could not open CPLEX - status ");
        message.append(i32_to_string(status).as_str());
        message.append(".");
        proof {
            reveal_strlit("Could not open CPLEX - status ");
            reveal_strlit(".");
            assert(message@ =~= error_message(status as int));
        }
        Err(EnvironmentError { code: status, message })
    }
}

/// The whole creation procedure, with the native call's observable effect
/// as its input: the status slot starts at `SENTINEL_STATUS`, the call
/// overwrites it with `written` when it writes at all, and the slot's final
/// value decides the outcome. A call that never wrote its output slot
/// (`written` absent) therefore reports failure with the sentinel code,
/// never silent success.
pub fn create(handle: u64, written: Option<i32>) -> (r: Result<Cplex, EnvironmentError>)
    ensures
        r is Ok <==> written == Some(SUCCESS_STATUS),
        r matches Ok(c) ==> c.handle() == handle,
        r matches Err(e) ==> e.code == (if written is Some {
            written->0
        } else {
            SENTINEL_STATUS
        }),
        r matches Err(e) ==> e.message@ == error_message(e.code as int),
{
    let status: i32 = match written {
        Some(s) => s,
        None => SENTINEL_STATUS,
    };
    get_cplex(handle, status)
}

} // verus!
