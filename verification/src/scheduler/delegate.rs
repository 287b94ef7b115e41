//! Narrowing of capabilities.

use vstd::prelude::*;

use crate::bytecode::cap::{Cap, CapRights, NativeMask, RevocationCell};

verus! {

#[derive(Clone, Copy, Debug, PartialEq, Eq, Structural)]
pub enum DelegateError {
    SourceRevoked,
    /// A native mask was asked for, but the source may not call natives.
    SourceLacksNative,
}

impl DelegateError {
    pub open spec fn spec_text(self) -> &'static str {
        match self {
            DelegateError::SourceRevoked => "delegate: source capability revoked",
            DelegateError::SourceLacksNative => "delegate: source lacks NATIVE right",
        }
    }

    pub fn to_text(&self) -> (r: &'static str)
        ensures
            r == self.spec_text(),
    {
        match self {
            DelegateError::SourceRevoked => "delegate: source capability revoked",
            DelegateError::SourceLacksNative => "delegate: source lacks NATIVE right",
        }
    }
}

/// Narrow `src` to at most `want_rights` and `want_native`. Asking for more
/// than the source has yields what it has: there is no grant, only
/// intersection.
pub fn exec_delegate(
    src: &Cap,
    src_cell: &RevocationCell,
    want_rights: CapRights,
    want_native: Option<&NativeMask>,
) -> (r: Result<Cap, DelegateError>)
    ensures
        src_cell.is_revoked() ==> r == Err::<Cap, _>(DelegateError::SourceRevoked),
        !src_cell.is_revoked() && want_native is Some && !src.rights.includes(CapRights::native())
            ==> r == Err::<Cap, _>(DelegateError::SourceLacksNative),
        !src_cell.is_revoked() && (want_native is None || src.rights.includes(CapRights::native()))
            ==> r == Ok::<_, DelegateError>(
            src.attenuated(
                want_rights,
                match want_native {
                    Some(w) => Some(*w),
                    None => None,
                },
            ),
        ),
{
    if !src.is_valid(src_cell) {
        return Err(DelegateError::SourceRevoked);
    }
    if want_native.is_some() && !src.rights.contains(CapRights::native()) {
        return Err(DelegateError::SourceLacksNative);
    }
    Ok(src.attenuate(want_rights, want_native))
}

} // verus!
