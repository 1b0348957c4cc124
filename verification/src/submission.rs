//! The checks a submission must pass before the transport collaborator
//! is handed its bytes; the transport itself lives outside this
//! library.

use vstd::prelude::*;

verus! {

use crate::error::{WaveError, validation_err, parse_err};
use crate::json::{json_of, parse_json};
use crate::text::concat_str;

/// Checks a submission before it goes to the transport: the bearer
/// token must be non-empty, and the payload must be valid JSON, so that
/// only validated bytes ever go over the wire.
pub fn validate_submission(payload_json: &str, token: &str) -> (r: Result<(), WaveError>)
    ensures
        token@.len() == 0 ==> validation_err(r, "token must not be empty"@),
        token@.len() > 0 ==> match json_of(payload_json@) {
            Some(_) => r is Ok,
            None => parse_err(r, "invalid JSON payload: "@),
        },
{
    if token.is_empty() {
        return Err(WaveError::Validation("token must not be empty".to_owned()));
    }
    match parse_json(payload_json) {
        Ok(_) => Ok(()),
        Err(detail) => {
            let m = concat_str("invalid JSON payload: ", detail.as_str());
            proof {
                assert(m@.subrange(0, "invalid JSON payload: "@.len() as int)
                    =~= "invalid JSON payload: "@);
            }
            Err(WaveError::Parse(m))
        },
    }
}

} // verus!
