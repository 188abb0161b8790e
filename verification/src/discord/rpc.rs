use vstd::prelude::*;
use crate::discord::c_string::{NulError, check_c_str, has_nul, is_nul_error_of, utf8_bytes};

verus! {

/// A handle on the Discord RPC connection of this process.
pub struct RPC;

impl RPC {
    /// Checks the arguments of the connection's initialisation: the application
    /// id, then the Steam id when there is one, must be free of NUL bytes.
    pub fn check_init_args(app_id: &str, steam_id: Option<&str>) -> (r: Result<(), NulError>)
        ensures
            r is Ok <==> !has_nul(utf8_bytes(app_id@)) && (steam_id matches Some(id) ==> !has_nul(
                utf8_bytes(id@),
            )),
            r matches Err(e) ==> if has_nul(utf8_bytes(app_id@)) {
                is_nul_error_of(utf8_bytes(app_id@), e)
            } else {
                steam_id matches Some(id) && is_nul_error_of(utf8_bytes(id@), e)
            },
    {
        check_c_str(app_id)?;
        match steam_id {
            Some(id) => check_c_str(id),
            None => Ok(()),
        }
    }
}

} // verus!
