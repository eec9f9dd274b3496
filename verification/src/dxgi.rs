//! Result codes of the Desktop Duplication calls.
use vstd::prelude::*;

verus! {

/// `DXGI_ERROR_INVALID_CALL`, 0x887A0001.
pub const INVALID_CALL: i32 = -0x7785_ffff;

/// `DXGI_ERROR_ACCESS_LOST`, 0x887A0026.
pub const ACCESS_LOST: i32 = -0x7785_ffda;

/// `DXGI_ERROR_WAIT_TIMEOUT`, 0x887A0027.
pub const WAIT_TIMEOUT: i32 = -0x7785_ffd9;

/// `DXGI_ERROR_ACCESS_DENIED`, 0x887A002B.
pub const ACCESS_DENIED: i32 = -0x7785_ffd5;

/// `E_NOTIMPL`, 0x80004001.
pub const NOT_IMPLEMENTED: i32 = -0x7fff_bfff;

/// `E_POINTER`, 0x80004003.
pub const NULL_POINTER: i32 = -0x7fff_bffd;

/// `E_FAIL`, 0x80004005.
pub const FAILED: i32 = -0x7fff_bffb;

/// Whether a code reports success.
pub open spec fn succeeded(code: i32) -> bool {
    code >= 0
}

/// Whether a code says that a duplication instance is dead and has to be replaced.
pub open spec fn is_loss(code: i32) -> bool {
    code == ACCESS_LOST || code == ACCESS_DENIED || code == INVALID_CALL
}

/// Tells whether a code reports success.
pub fn is_ok(code: i32) -> (ok: bool)
    ensures
        ok == succeeded(code),
{
    code >= 0
}

/// Tells whether a code says that a duplication instance is dead.
pub fn is_access_loss(code: i32) -> (lost: bool)
    ensures
        lost == is_loss(code),
{
    code == ACCESS_LOST || code == ACCESS_DENIED || code == INVALID_CALL
}

/// The codes, read without a sign, are those that the system documents, and a loss is one of the
/// three that say so: access lost, access denied, invalid call.
pub proof fn law_codes_are_the_documented_ones(code: i32, lost: bool, ok: bool)
    requires
        call_ensures(is_access_loss, (code,), lost),
        call_ensures(is_ok, (code,), ok),
    ensures
        INVALID_CALL + 0x1_0000_0000 == 0x887a_0001,
        ACCESS_LOST + 0x1_0000_0000 == 0x887a_0026,
        WAIT_TIMEOUT + 0x1_0000_0000 == 0x887a_0027,
        ACCESS_DENIED + 0x1_0000_0000 == 0x887a_002b,
        NOT_IMPLEMENTED + 0x1_0000_0000 == 0x8000_4001,
        NULL_POINTER + 0x1_0000_0000 == 0x8000_4003,
        FAILED + 0x1_0000_0000 == 0x8000_4005,
        lost <==> (code + 0x1_0000_0000 == 0x887a_0026 || code + 0x1_0000_0000 == 0x887a_002b
            || code + 0x1_0000_0000 == 0x887a_0001),
        ok <==> code >= 0,
        lost ==> !ok,
{
}

} // verus!
