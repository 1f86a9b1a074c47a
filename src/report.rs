use vstd::prelude::*;

verus! {

/// Reporting mode that streams core buttons, accelerometer and sixteen
/// extension bytes.
pub const STREAMING_MODE: u8 = 0x35;

/// Offset of the six angular-rate bytes inside the payload of a streaming
/// data report.
pub const RATE_BLOCK_OFFSET: usize = 5;

/// Length of the angular-rate block.
pub const RATE_BLOCK_LEN: usize = 6;

/// The angular-rate block of a streaming data report's payload.
pub fn rate_block(data: &[u8; 21]) -> (r: [u8; 6])
    ensures
        r@ == data@.subrange(RATE_BLOCK_OFFSET as int, RATE_BLOCK_OFFSET + RATE_BLOCK_LEN),
{
    let mut out: [u8; 6] = [0u8; 6];
    let mut k: usize = 0;
    while k < RATE_BLOCK_LEN
        invariant
            k <= RATE_BLOCK_LEN,
            out@.len() == RATE_BLOCK_LEN,
            forall|m: int| 0 <= m < k ==> out@[m] == data@[RATE_BLOCK_OFFSET + m],
        decreases RATE_BLOCK_LEN - k,
    {
        out[k] = data[RATE_BLOCK_OFFSET + k];
        k = k + 1;
    }
    assert(out@ =~= data@.subrange(RATE_BLOCK_OFFSET as int, RATE_BLOCK_OFFSET + RATE_BLOCK_LEN));
    out
}

/// The angular-rate extension a remote carries.
#[derive(Debug, Clone, Copy, PartialEq, Eq, Structural)]
pub enum MotionPlusKind {
    Builtin,
    External,
}

/// The design reported for a remote when it connects.
#[derive(Debug, Clone, Copy, PartialEq, Eq, Structural)]
pub enum RemoteDesign {
    Wiimote,
    WiimotePlus,
    WiimoteExternalMotionPlus,
}

/// The design that matches the extension found on a remote.
pub fn remote_design(kind: Option<MotionPlusKind>) -> (r: RemoteDesign)
    ensures
        kind is None ==> r == RemoteDesign::Wiimote,
        kind == Some(MotionPlusKind::Builtin) ==> r == RemoteDesign::WiimotePlus,
        kind == Some(MotionPlusKind::External) ==> r == RemoteDesign::WiimoteExternalMotionPlus,
{
    match kind {
        None => RemoteDesign::Wiimote,
        Some(MotionPlusKind::Builtin) => RemoteDesign::WiimotePlus,
        Some(MotionPlusKind::External) => RemoteDesign::WiimoteExternalMotionPlus,
    }
}

} // verus!
