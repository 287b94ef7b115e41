//! Rights, native masks and delegable capabilities.

use vstd::prelude::*;

verus! {

/// A set of rights, one bit each.
#[derive(Clone, Copy, Debug, PartialEq, Eq, Structural)]
pub struct CapRights {
    pub bits: u8,
}

/// The bits that stand for a right.
pub const ALL_RIGHTS: u8 = 0x0F;

impl CapRights {
    /// Deliver a message.
    #[verifier::allow_in_spec]
    pub fn send() -> CapRights
        returns
            (CapRights { bits: 0x01 }),
    {
        CapRights { bits: 0x01 }
    }

    /// Deliver a request and wait for the reply.
    #[verifier::allow_in_spec]
    pub fn ask() -> CapRights
        returns
            (CapRights { bits: 0x02 }),
    {
        CapRights { bits: 0x02 }
    }

    #[verifier::allow_in_spec]
    pub fn send_ask() -> CapRights
        returns
            (CapRights { bits: 0x03 }),
    {
        CapRights { bits: 0x03 }
    }

    /// Call native functions.
    #[verifier::allow_in_spec]
    pub fn native() -> CapRights
        returns
            (CapRights { bits: 0x04 }),
    {
        CapRights { bits: 0x04 }
    }

    /// Control the flow.
    #[verifier::allow_in_spec]
    pub fn admin() -> CapRights
        returns
            (CapRights { bits: 0x08 }),
    {
        CapRights { bits: 0x08 }
    }

    /// Every right of `other` is one of `self`.
    pub open spec fn includes(self, other: CapRights) -> bool {
        self.bits & other.bits == other.bits
    }

    pub fn contains(self, other: CapRights) -> (r: bool)
        ensures
            r == self.includes(other),
    {
        self.bits & other.bits == other.bits
    }

    pub fn bits(self) -> (b: u8)
        ensures
            b == self.bits,
    {
        self.bits
    }

    pub fn union(self, other: CapRights) -> (r: CapRights)
        ensures
            r.bits == self.bits | other.bits,
    {
        CapRights { bits: self.bits | other.bits }
    }

    /// The rights that both have.
    pub open spec fn common(self, other: CapRights) -> CapRights {
        CapRights { bits: self.bits & other.bits }
    }

    pub fn intersection(self, other: CapRights) -> (r: CapRights)
        ensures
            r == self.common(other),
    {
        CapRights { bits: self.bits & other.bits }
    }

    /// The rights among the bits; other bits are dropped.
    pub fn from_u8(bits: u8) -> (r: CapRights)
        ensures
            r.bits == bits & ALL_RIGHTS,
    {
        CapRights { bits: bits & ALL_RIGHTS }
    }

    /// The rights that an immediate asks for; bits above the lowest byte are
    /// dropped like every other bit that stands for no right.
    pub open spec fn from_bits_spec(bits: u32) -> CapRights {
        CapRights { bits: (bits & 0x0F) as u8 }
    }

    pub fn from_bits(bits: u32) -> (r: CapRights)
        ensures
            r == CapRights::from_bits_spec(bits),
    {
        CapRights { bits: (bits & 0x0F) as u8 }
    }
}

/// The union has every right of both.
pub proof fn union_includes_both(a: CapRights, b: CapRights)
    ensures
        (CapRights { bits: a.bits | b.bits }).includes(a),
        (CapRights { bits: a.bits | b.bits }).includes(b),
{
    let x = a.bits;
    let y = b.bits;
    assert((x | y) & x == x) by (bit_vector);
    assert((x | y) & y == y) by (bit_vector);
}

/// Narrowing never adds: what the intersection includes, both include.
pub proof fn intersection_never_escalates(a: CapRights, b: CapRights, x: CapRights)
    ensures
        a.common(b).includes(x) <==> a.includes(x) && b.includes(x),
{
    let p = a.bits;
    let q = b.bits;
    let r = x.bits;
    assert((p & q) & r == r <==> p & r == r && q & r == r) by (bit_vector);
}

/// Which native slots may be called: bit `i` for slot `i`.
#[derive(Clone, Copy, Debug, PartialEq, Eq, Structural)]
pub struct NativeMask {
    pub slots: u64,
}

impl NativeMask {
    pub open spec fn has(self, slot: u32) -> bool {
        slot < 64 && (self.slots >> (slot as u64)) & 1 == 1
    }

    pub fn new(slots: u64) -> (m: NativeMask)
        ensures
            m.slots == slots,
    {
        NativeMask { slots }
    }

    pub fn allows(self, slot: u32) -> (r: bool)
        ensures
            r == self.has(slot),
    {
        slot < 64 && (self.slots >> (slot as u64)) & 1 == 1
    }

    pub open spec fn common(self, other: NativeMask) -> NativeMask {
        NativeMask { slots: self.slots & other.slots }
    }

    pub fn intersection(self, other: NativeMask) -> (m: NativeMask)
        ensures
            m == self.common(other),
    {
        NativeMask { slots: self.slots & other.slots }
    }
}

/// The slots of an intersection are the slots of both masks.
pub proof fn mask_intersection_is_both(a: NativeMask, b: NativeMask, slot: u32)
    ensures
        a.common(b).has(slot) <==> a.has(slot) && b.has(slot),
{
    let p = a.slots;
    let q = b.slots;
    let s = slot as u64;
    if slot < 64 {
        assert(((p & q) >> s) & 1 == 1 <==> (p >> s) & 1 == 1 && (q >> s) & 1 == 1) by (bit_vector)
            requires
                s < 64,
        ;
    }
}

/// What a capability addresses.
#[derive(Clone, Copy, Debug, PartialEq, Eq, Structural)]
pub enum CapTarget {
    Flow(u64),
}

/// Says whether the capabilities that were issued under it still hold. A
/// revocation is final.
#[derive(Debug)]
pub struct RevocationCell {
    revoked: bool,
}

impl RevocationCell {
    pub closed spec fn is_revoked(&self) -> bool {
        self.revoked
    }

    pub fn new() -> (cell: RevocationCell)
        ensures
            !cell.is_revoked(),
    {
        RevocationCell { revoked: false }
    }

    pub fn revoke(&mut self)
        ensures
            final(self).is_revoked(),
    {
        self.revoked = true;
    }

    pub fn revoked(&self) -> (r: bool)
        ensures
            r == self.is_revoked(),
    {
        self.revoked
    }
}

/// A capability by value: a target, rights, and the native slots they extend
/// to (`None`: all of them).
#[derive(Clone, Copy, Debug, PartialEq, Eq, Structural)]
pub struct Cap {
    pub target: CapTarget,
    pub rights: CapRights,
    pub native: Option<NativeMask>,
}

impl Cap {
    /// A capability that is derived from no other. It holds as long as its
    /// cell is not revoked.
    pub fn root(
        target: CapTarget,
        rights: CapRights,
        native: Option<NativeMask>,
        _cell: &RevocationCell,
    ) -> (c: Cap)
        ensures
            c == (Cap { target, rights, native }),
    {
        Cap { target, rights, native }
    }

    pub fn is_valid(&self, cell: &RevocationCell) -> (r: bool)
        ensures
            r == !cell.is_revoked(),
    {
        !cell.revoked()
    }

    /// Whether the capability covers calls of native `slot`.
    pub open spec fn permits_native(self, slot: u32) -> bool {
        self.rights.includes(CapRights::native()) && match self.native {
            Some(m) => m.has(slot),
            None => true,
        }
    }

    /// The part of the capability that was asked for.
    pub open spec fn attenuated(self, rights: CapRights, native: Option<NativeMask>) -> Cap {
        Cap {
            target: self.target,
            rights: self.rights.common(rights),
            native: match (self.native, native) {
                (Some(m), Some(w)) => Some(m.common(w)),
                (None, Some(w)) => Some(w),
                (m, None) => m,
            },
        }
    }

    pub fn attenuate(&self, rights: CapRights, native: Option<&NativeMask>) -> (c: Cap)
        ensures
            c == self.attenuated(rights, match native {
                Some(w) => Some(*w),
                None => None,
            }),
    {
        let native = match (self.native, native) {
            (Some(m), Some(w)) => Some(m.intersection(*w)),
            (None, Some(w)) => Some(*w),
            (m, None) => m,
        };
        Cap { target: self.target, rights: self.rights.intersection(rights), native }
    }
}

/// A narrowed capability reaches the same flow, and has no right and no
/// native slot that its source does not have.
pub proof fn attenuation_never_escalates(
    src: Cap,
    rights: CapRights,
    native: Option<NativeMask>,
    r: CapRights,
    slot: u32,
)
    ensures
        src.attenuated(rights, native).target == src.target,
        src.attenuated(rights, native).rights.includes(r) ==> src.rights.includes(r)
            && rights.includes(r),
        src.attenuated(rights, native).permits_native(slot) ==> src.permits_native(slot),
{
    intersection_never_escalates(src.rights, rights, r);
    intersection_never_escalates(src.rights, rights, CapRights::native());
    if src.native is Some && native is Some {
        mask_intersection_is_both(src.native.unwrap(), native.unwrap(), slot);
    }
}

/// A set of rights includes a single right if and only if the bit of the right
/// is set in it. The rights are different bits, and a capability to send and ask
/// has these two and no other.
pub proof fn rights_are_bits(r: CapRights, k: u8)
    requires
        k < 8,
    ensures
        r.includes(CapRights { bits: 1u8 << k }) <==> (r.bits >> k) & 1 == 1,
        CapRights::send().bits == 1u8 << 0u8,
        CapRights::ask().bits == 1u8 << 1u8,
        CapRights::native().bits == 1u8 << 2u8,
        CapRights::admin().bits == 1u8 << 3u8,
        CapRights::send_ask().includes(CapRights { bits: 1u8 << k }) <==> k < 2,
{
    let b = r.bits;
    assert(b & (1u8 << k) == (1u8 << k) <==> (b >> k) & 1 == 1) by (bit_vector)
        requires
            k < 8,
    ;
    assert(0x03u8 & (1u8 << k) == (1u8 << k) <==> k < 2) by (bit_vector)
        requires
            k < 8,
    ;
    assert(1u8 << 0u8 == 1 && 1u8 << 1u8 == 2 && 1u8 << 2u8 == 4 && 1u8 << 3u8 == 8) by (bit_vector);
}

/// To include is to include right by right: `a` includes `b` if and only if it
/// has every bit that `b` has.
pub proof fn including_is_bitwise(a: CapRights, b: CapRights)
    ensures
        a.includes(b) <==> forall|k: u8|
            k < 8 && #[trigger] ((b.bits >> k) & 1u8) == 1 ==> (a.bits >> k) & 1u8 == 1,
{
    let (p, q) = (a.bits, b.bits);
    if a.includes(b) {
        assert forall|k: u8| k < 8 && #[trigger] ((b.bits >> k) & 1u8) == 1 implies (a.bits >> k)
            & 1u8 == 1 by {
            assert(p & q == q && k < 8 && (q >> k) & 1u8 == 1 ==> (p >> k) & 1u8 == 1) by (bit_vector);
        }
    }
    if forall|k: u8| k < 8 && #[trigger] ((b.bits >> k) & 1u8) == 1 ==> (a.bits >> k) & 1u8 == 1 {
        assert((q >> 0u8) & 1u8 == 1 ==> (p >> 0u8) & 1u8 == 1);
        assert((q >> 1u8) & 1u8 == 1 ==> (p >> 1u8) & 1u8 == 1);
        assert((q >> 2u8) & 1u8 == 1 ==> (p >> 2u8) & 1u8 == 1);
        assert((q >> 3u8) & 1u8 == 1 ==> (p >> 3u8) & 1u8 == 1);
        assert((q >> 4u8) & 1u8 == 1 ==> (p >> 4u8) & 1u8 == 1);
        assert((q >> 5u8) & 1u8 == 1 ==> (p >> 5u8) & 1u8 == 1);
        assert((q >> 6u8) & 1u8 == 1 ==> (p >> 6u8) & 1u8 == 1);
        assert((q >> 7u8) & 1u8 == 1 ==> (p >> 7u8) & 1u8 == 1);
        assert(p & q == q) by (bit_vector)
            requires
                (q >> 0u8) & 1u8 == 1 ==> (p >> 0u8) & 1u8 == 1,
                (q >> 1u8) & 1u8 == 1 ==> (p >> 1u8) & 1u8 == 1,
                (q >> 2u8) & 1u8 == 1 ==> (p >> 2u8) & 1u8 == 1,
                (q >> 3u8) & 1u8 == 1 ==> (p >> 3u8) & 1u8 == 1,
                (q >> 4u8) & 1u8 == 1 ==> (p >> 4u8) & 1u8 == 1,
                (q >> 5u8) & 1u8 == 1 ==> (p >> 5u8) & 1u8 == 1,
                (q >> 6u8) & 1u8 == 1 ==> (p >> 6u8) & 1u8 == 1,
                (q >> 7u8) & 1u8 == 1 ==> (p >> 7u8) & 1u8 == 1,
        ;
    }
}

/// An immediate asks for a right if and only if the bit of the right is set in
/// it; it asks for nothing else.
pub proof fn immediates_ask_bit_by_bit(bits: u32)
    ensures
        CapRights::from_bits_spec(bits).bits == bits % 16,
{
    assert((bits & 0x0F) as u8 == bits % 16) by (bit_vector);
}

/// A mask has a slot if and only if the bit of the slot is set in it; there are
/// 64 of them.
pub proof fn masks_are_bits(m: NativeMask, slot: u32)
    ensures
        slot >= 64 ==> !m.has(slot),
        slot < 64 ==> (m.has(slot) <==> m.slots & (1u64 << (slot as u64)) != 0),
{
    let (p, s) = (m.slots, slot as u64);
    assert(s < 64 ==> ((p >> s) & 1 == 1 <==> p & (1u64 << s) != 0)) by (bit_vector);
}

/// A narrowed capability has a right if and only if its source has it and it was
/// asked for. It extends to a native slot if and only if it may call natives at
/// all and the slot is in the mask of its source, where that has one, and in the
/// mask that was asked for, where there was one.
pub proof fn attenuation_is_exact(
    src: Cap,
    rights: CapRights,
    native: Option<NativeMask>,
    k: u8,
    slot: u32,
)
    requires
        k < 8,
    ensures
        ({
            let c = src.attenuated(rights, native);
            &&& c.target == src.target
            &&& (c.rights.bits >> k) & 1 == 1 <==> (src.rights.bits >> k) & 1 == 1 && (rights.bits
                >> k) & 1 == 1
            &&& c.permits_native(slot) <==> {
                &&& (src.rights.bits >> 2u8) & 1 == 1
                &&& (rights.bits >> 2u8) & 1 == 1
                &&& src.native matches Some(m) ==> slot < 64 && m.slots & (1u64 << (slot as u64)) != 0
                &&& native matches Some(w) ==> slot < 64 && w.slots & (1u64 << (slot as u64)) != 0
            }
        }),
{
    let c = src.attenuated(rights, native);
    let (p, q) = (src.rights.bits, rights.bits);
    assert(((p & q) >> k) & 1 == 1 <==> (p >> k) & 1 == 1 && (q >> k) & 1 == 1) by (bit_vector)
        requires
            k < 8,
    ;
    assert((p & q) & 4 == 4 <==> (p >> 2u8) & 1 == 1 && (q >> 2u8) & 1 == 1) by (bit_vector);
    match src.native {
        Some(m) => masks_are_bits(m, slot),
        None => {},
    }
    match native {
        Some(w) => masks_are_bits(w, slot),
        None => {},
    }
    match (src.native, native) {
        (Some(m), Some(w)) => mask_intersection_is_both(m, w, slot),
        _ => {},
    }
}

} // verus!
