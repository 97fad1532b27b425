//! Fields of the CC (Controller Configuration) register.

use vstd::prelude::*;

verus! {

/// The value of the CC register built by [`build`].
pub open spec fn cc_value(enable: bool, mps: u32, iosqes: u32, iocqes: u32) -> int {
    (if enable { 1int } else { 0int }) + (mps % 16) * 0x80 + (iosqes % 16) * 0x1_0000 + (iocqes % 16) * 0x10_0000
}

/// Builds the CC register value: NVM command set, round robin arbitration, no shutdown notification, the enable
/// bit, and the 4-bit memory page size and queue entry size fields.
pub fn build(enable: bool, mps: u32, iosqes: u32, iocqes: u32) -> (res: u32)
    ensures
        res == cc_value(enable, mps, iosqes, iocqes),
{
    let en: u32 = if enable { 1 } else { 0 };
    let a: u32 = mps & 0xF;
    let b: u32 = iosqes & 0xF;
    let c: u32 = iocqes & 0xF;
    let r: u32 = en | (a << 7u32) | (b << 16u32) | (c << 20u32);
    assert(r == en + (mps % 16) * 0x80 + (iosqes % 16) * 0x1_0000 + (iocqes % 16) * 0x10_0000) by (bit_vector)
        requires
            en <= 1,
            a == mps & 0xF,
            b == iosqes & 0xF,
            c == iocqes & 0xF,
            r == en | (a << 7u32) | (b << 16u32) | (c << 20u32),
    ;
    r
}

/// The CC register value that disables an enabled controller: the enable bit cleared, the other bits kept;
/// `None` when the enable bit is already clear and the register is left as it is.
pub fn disable_value(cc: u32) -> (res: Option<u32>)
    ensures
        cc % 2 == 0 ==> res is None,
        cc % 2 == 1 ==> res == Some((cc - 1) as u32),
{
    if cc & 1 != 0 {
        let r: u32 = cc & !1u32;
        assert(cc & 1 != 0 ==> cc % 2 == 1 && r == cc - 1) by (bit_vector)
            requires
                r == cc & !1u32,
        ;
        Some(r)
    } else {
        assert(cc & 1 == 0 ==> cc % 2 == 0) by (bit_vector);
        None
    }
}

/// The CC register value that asks for a normal shutdown: the shutdown notification field (bits 14 and 15) set
/// to 1, the other bits kept.
pub fn shutdown_value(cc: u32) -> (res: u32)
    ensures
        res == cc - ((cc / 0x4000) % 4) * 0x4000 + 0x4000,
{
    let r: u32 = (cc & !(3u32 << 14u32)) | (1u32 << 14u32);
    assert(r == cc - ((cc / 0x4000) % 4) * 0x4000 + 0x4000) by (bit_vector)
        requires
            r == (cc & !(3u32 << 14u32)) | (1u32 << 14u32),
    ;
    r
}

} // verus!
