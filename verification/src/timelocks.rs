//! Packed timelocks: a deployment time and seven stage offsets in one
//! 256-bit value.

use vstd::prelude::*;

use crate::error::EscrowError;
use crate::u256::U256;

verus! {

/// The stages of a swap over both legs, in the order of their slots.
#[derive(Clone, Copy, Debug, PartialEq, Eq, Structural)]
pub enum Stage {
    SrcWithdrawal,
    SrcPublicWithdrawal,
    SrcCancellation,
    SrcPublicCancellation,
    DstWithdrawal,
    DstPublicWithdrawal,
    DstCancellation,
}

/// Number of stages that a packed value holds.
pub const STAGE_SLOTS: u32 = 7;

/// A deployment time in the highest 32 bits and, below it, one 32-bit offset
/// for each stage, the first stage lowest.
pub type Timelocks = U256;

impl Stage {
    /// The slot of the stage.
    pub open spec fn slot(self) -> u32 {
        match self {
            Stage::SrcWithdrawal => 0,
            Stage::SrcPublicWithdrawal => 1,
            Stage::SrcCancellation => 2,
            Stage::SrcPublicCancellation => 3,
            Stage::DstWithdrawal => 4,
            Stage::DstPublicWithdrawal => 5,
            Stage::DstCancellation => 6,
        }
    }

    /// The slot of the stage.
    pub fn index(&self) -> (slot: u32)
        ensures
            slot == self.slot(),
            slot < STAGE_SLOTS,
    {
        match self {
            Stage::SrcWithdrawal => 0,
            Stage::SrcPublicWithdrawal => 1,
            Stage::SrcCancellation => 2,
            Stage::SrcPublicCancellation => 3,
            Stage::DstWithdrawal => 4,
            Stage::DstPublicWithdrawal => 5,
            Stage::DstCancellation => 6,
        }
    }
}

/// 2^(32 * slot), for the four slots of a 128-bit word.
pub open spec fn slot_base(slot: int) -> int {
    if slot == 0 {
        1
    } else if slot == 1 {
        0x1_0000_0000
    } else if slot == 2 {
        0x1_0000_0000_0000_0000
    } else {
        0x1_0000_0000_0000_0000_0000_0000
    }
}

/// The 32-bit number in slot `slot` of a 128-bit word.
pub open spec fn slot_value(word: u128, slot: int) -> int {
    (word as int / slot_base(slot)) % 0x1_0000_0000
}

/// The offset of the stage in slot `stage`.
pub open spec fn offset_of(timelocks: Timelocks, stage: u32) -> int {
    if stage < 4 {
        slot_value(timelocks.lo, stage as int)
    } else {
        slot_value(timelocks.hi, stage - 4)
    }
}

/// The deployment time, which is 0 until it is stamped.
pub open spec fn deployed_at_of(timelocks: Timelocks) -> int {
    slot_value(timelocks.hi, 3)
}

/// The deadline of a stage: the deployment time plus the offset of the
/// stage.
pub open spec fn deadline_of(timelocks: Timelocks, stage: u32) -> int {
    deployed_at_of(timelocks) + offset_of(timelocks, stage)
}

fn read_slot(word: u128, slot: u32) -> (value: u32)
    requires
        slot < 4,
    ensures
        value == slot_value(word, slot as int),
{
    let shifted: u128 = if slot == 0 {
        word
    } else if slot == 1 {
        word >> 32
    } else if slot == 2 {
        word >> 64
    } else {
        word >> 96
    };
    assert(word >> 32 == word / 0x1_0000_0000 && word >> 64 == word / 0x1_0000_0000_0000_0000 && word >> 96 == word
        / 0x1_0000_0000_0000_0000_0000_0000) by (bit_vector);
    let low: u128 = shifted & 0xffff_ffff;
    assert(low == shifted % 0x1_0000_0000 && low <= 0xffff_ffff) by (bit_vector)
        requires
            low == shifted & 0xffff_ffff,
    ;
    low as u32
}

fn write_slot(word: u128, slot: u32, value: u32) -> (written: u128)
    requires
        slot < 4,
    ensures
        slot_value(written, slot as int) == value,
        forall|other: int| 0 <= other < 4 && other != slot ==> slot_value(written, other) == slot_value(word, other),
{
    let wide: u128 = value as u128;
    let written: u128 = if slot == 0 {
        (word & 0xffff_ffff_ffff_ffff_ffff_ffff_0000_0000) | wide
    } else if slot == 1 {
        (word & 0xffff_ffff_ffff_ffff_0000_0000_ffff_ffff) | (wide << 32)
    } else if slot == 2 {
        (word & 0xffff_ffff_0000_0000_ffff_ffff_ffff_ffff) | (wide << 64)
    } else {
        (word & 0x0000_0000_ffff_ffff_ffff_ffff_ffff_ffff) | (wide << 96)
    };
    proof {
        lemma_written_slots(word, wide, written, slot);
    }
    written
}

/// Writing one slot of a word sets that slot and keeps the other three.
proof fn lemma_written_slots(word: u128, wide: u128, written: u128, slot: u32)
    requires
        slot < 4,
        wide <= 0xffff_ffff,
        slot == 0 ==> written == (word & 0xffff_ffff_ffff_ffff_ffff_ffff_0000_0000) | wide,
        slot == 1 ==> written == (word & 0xffff_ffff_ffff_ffff_0000_0000_ffff_ffff) | (wide << 32),
        slot == 2 ==> written == (word & 0xffff_ffff_0000_0000_ffff_ffff_ffff_ffff) | (wide << 64),
        slot == 3 ==> written == (word & 0x0000_0000_ffff_ffff_ffff_ffff_ffff_ffff) | (wide << 96),
    ensures
        slot_value(written, slot as int) == wide,
        forall|other: int| 0 <= other < 4 && other != slot ==> slot_value(written, other) == slot_value(word, other),
{
    let w0 = word % 0x1_0000_0000;
    let w1 = (word / 0x1_0000_0000) % 0x1_0000_0000;
    let w2 = (word / 0x1_0000_0000_0000_0000) % 0x1_0000_0000;
    let w3 = (word / 0x1_0000_0000_0000_0000_0000_0000) % 0x1_0000_0000;
    let r0 = written % 0x1_0000_0000;
    let r1 = (written / 0x1_0000_0000) % 0x1_0000_0000;
    let r2 = (written / 0x1_0000_0000_0000_0000) % 0x1_0000_0000;
    let r3 = (written / 0x1_0000_0000_0000_0000_0000_0000) % 0x1_0000_0000;
    if slot == 0 {
        assert(r0 == wide && r1 == w1 && r2 == w2 && r3 == w3) by (bit_vector)
            requires
                wide <= 0xffff_ffff,
                written == (word & 0xffff_ffff_ffff_ffff_ffff_ffff_0000_0000) | wide,
                w0 == word % 0x1_0000_0000,
                w1 == (word / 0x1_0000_0000) % 0x1_0000_0000,
                w2 == (word / 0x1_0000_0000_0000_0000) % 0x1_0000_0000,
                w3 == (word / 0x1_0000_0000_0000_0000_0000_0000) % 0x1_0000_0000,
                r0 == written % 0x1_0000_0000,
                r1 == (written / 0x1_0000_0000) % 0x1_0000_0000,
                r2 == (written / 0x1_0000_0000_0000_0000) % 0x1_0000_0000,
                r3 == (written / 0x1_0000_0000_0000_0000_0000_0000) % 0x1_0000_0000,
        ;
    } else if slot == 1 {
        assert(r0 == w0 && r1 == wide && r2 == w2 && r3 == w3) by (bit_vector)
            requires
                wide <= 0xffff_ffff,
                written == (word & 0xffff_ffff_ffff_ffff_0000_0000_ffff_ffff) | (wide << 32),
                w0 == word % 0x1_0000_0000,
                w1 == (word / 0x1_0000_0000) % 0x1_0000_0000,
                w2 == (word / 0x1_0000_0000_0000_0000) % 0x1_0000_0000,
                w3 == (word / 0x1_0000_0000_0000_0000_0000_0000) % 0x1_0000_0000,
                r0 == written % 0x1_0000_0000,
                r1 == (written / 0x1_0000_0000) % 0x1_0000_0000,
                r2 == (written / 0x1_0000_0000_0000_0000) % 0x1_0000_0000,
                r3 == (written / 0x1_0000_0000_0000_0000_0000_0000) % 0x1_0000_0000,
        ;
    } else if slot == 2 {
        assert(r0 == w0 && r1 == w1 && r2 == wide && r3 == w3) by (bit_vector)
            requires
                wide <= 0xffff_ffff,
                written == (word & 0xffff_ffff_0000_0000_ffff_ffff_ffff_ffff) | (wide << 64),
                w0 == word % 0x1_0000_0000,
                w1 == (word / 0x1_0000_0000) % 0x1_0000_0000,
                w2 == (word / 0x1_0000_0000_0000_0000) % 0x1_0000_0000,
                w3 == (word / 0x1_0000_0000_0000_0000_0000_0000) % 0x1_0000_0000,
                r0 == written % 0x1_0000_0000,
                r1 == (written / 0x1_0000_0000) % 0x1_0000_0000,
                r2 == (written / 0x1_0000_0000_0000_0000) % 0x1_0000_0000,
                r3 == (written / 0x1_0000_0000_0000_0000_0000_0000) % 0x1_0000_0000,
        ;
    } else {
        assert(r0 == w0 && r1 == w1 && r2 == w2 && r3 == wide) by (bit_vector)
            requires
                wide <= 0xffff_ffff,
                written == (word & 0x0000_0000_ffff_ffff_ffff_ffff_ffff_ffff) | (wide << 96),
                w0 == word % 0x1_0000_0000,
                w1 == (word / 0x1_0000_0000) % 0x1_0000_0000,
                w2 == (word / 0x1_0000_0000_0000_0000) % 0x1_0000_0000,
                w3 == (word / 0x1_0000_0000_0000_0000_0000_0000) % 0x1_0000_0000,
                r0 == written % 0x1_0000_0000,
                r1 == (written / 0x1_0000_0000) % 0x1_0000_0000,
                r2 == (written / 0x1_0000_0000_0000_0000) % 0x1_0000_0000,
                r3 == (written / 0x1_0000_0000_0000_0000_0000_0000) % 0x1_0000_0000,
        ;
    }
    assert(slot_value(written, 0) == r0 && slot_value(written, 1) == r1 && slot_value(written, 2) == r2
        && slot_value(written, 3) == r3);
    assert(slot_value(word, 0) == w0 && slot_value(word, 1) == w1 && slot_value(word, 2) == w2 && slot_value(
        word,
        3,
    ) == w3);
}

/// Why a stamp with the time `value` is refused, if it is: the value is
/// stamped already; the time is 0; or the time does not fit its 32 bits.
pub open spec fn stamp_refusal(timelocks: Timelocks, value: nat) -> Option<EscrowError> {
    if deployed_at_of(timelocks) != 0 {
        Some(EscrowError::AlreadyExists)
    } else if value == 0 {
        Some(EscrowError::ValidationError)
    } else if value > u32::MAX {
        Some(EscrowError::AmountOverflow)
    } else {
        None
    }
}

/// A deployment time is stamped once: after a stamp that went through, every
/// further stamp is refused, whatever its time.
pub proof fn lemma_stamp_happens_once(before: Timelocks, value: nat, after: Timelocks, next: nat)
    requires
        stamp_refusal(before, value) is None,
        deployed_at_of(after) == value,
    ensures
        stamp_refusal(after, next) == Some(EscrowError::AlreadyExists),
{
}

/// Operations on packed timelocks.
pub struct TimelocksLib;

impl TimelocksLib {
    /// Packs the offsets of the seven stages into a value that is not
    /// stamped yet.
    pub fn pack(offsets: &[u32; 7]) -> (timelocks: Timelocks)
        ensures
            deployed_at_of(timelocks) == 0,
            forall|stage: u32| stage < STAGE_SLOTS ==> offset_of(timelocks, stage) == offsets@[stage as int],
    {
        let lo = write_slot(0, 0, offsets[0]);
        let lo = write_slot(lo, 1, offsets[1]);
        let lo = write_slot(lo, 2, offsets[2]);
        let lo = write_slot(lo, 3, offsets[3]);
        let hi = write_slot(0, 0, offsets[4]);
        let hi = write_slot(hi, 1, offsets[5]);
        let hi = write_slot(hi, 2, offsets[6]);
        assert(slot_value(0u128, 3) == 0);
        let timelocks = U256 { hi, lo };
        assert forall|stage: u32| stage < STAGE_SLOTS implies offset_of(timelocks, stage) == offsets@[stage as int] by {
            if stage < 4 {
                assert(offset_of(timelocks, stage) == slot_value(lo, stage as int));
            } else {
                assert(offset_of(timelocks, stage) == slot_value(hi, stage - 4));
            }
        }
        timelocks
    }

    /// The deployment time of a packed value; 0 while it is not stamped.
    pub fn deployed_at(timelocks: Timelocks) -> (time: u32)
        ensures
            time == deployed_at_of(timelocks),
    {
        read_slot(timelocks.hi, 3)
    }

    /// Stamps the deployment time, once. Refused where the value is stamped
    /// already, where the time is 0, which marks a value that is not
    /// stamped, and where the time does not fit its 32 bits; nothing wraps.
    /// The offsets stay as they are.
    pub fn set_deployed_at(timelocks: Timelocks, value: U256) -> (stamped: Result<Timelocks, EscrowError>)
        ensures
            match stamped {
                Ok(after) => {
                    &&& stamp_refusal(timelocks, value@) is None
                    &&& deployed_at_of(after) == value@
                    &&& forall|stage: u32| stage < STAGE_SLOTS ==> offset_of(after, stage) == offset_of(timelocks, stage)
                },
                Err(error) => stamp_refusal(timelocks, value@) == Some(error),
            },
    {
        if read_slot(timelocks.hi, 3) != 0 {
            return Err(EscrowError::AlreadyExists);
        }
        match value.to_u128() {
            Some(time) => {
                if time == 0 {
                    return Err(EscrowError::ValidationError);
                }
                if time > 0xffff_ffff {
                    return Err(EscrowError::AmountOverflow);
                }
                let after = U256 { hi: write_slot(timelocks.hi, 3, time as u32), lo: timelocks.lo };
                assert forall|stage: u32| stage < STAGE_SLOTS implies offset_of(after, stage) == offset_of(
                    timelocks,
                    stage,
                ) by {
                    if stage >= 4 {
                        assert(offset_of(after, stage) == slot_value(after.hi, stage - 4));
                    }
                }
                Ok(after)
            },
            None => Err(EscrowError::AmountOverflow),
        }
    }

    /// The time from which funds can be rescued: the deployment time plus
    /// `rescue_delay`. Refused where the sum does not fit 256 bits.
    pub fn rescue_start(timelocks: Timelocks, rescue_delay: U256) -> (start: Result<U256, EscrowError>)
        ensures
            match start {
                Ok(time) => time@ == deployed_at_of(timelocks) + rescue_delay@,
                Err(error) => error == EscrowError::AmountOverflow && deployed_at_of(timelocks) + rescue_delay@
                    >= crate::u256::two_to_128() * crate::u256::two_to_128(),
            },
    {
        let deployed = U256::from_u64(read_slot(timelocks.hi, 3) as u64);
        match rescue_delay.checked_add(&deployed) {
            Some(time) => Ok(time),
            None => Err(EscrowError::AmountOverflow),
        }
    }

    /// The deadline of the stage in slot `stage`: the deployment time plus
    /// the offset of the stage.
    pub fn get(timelocks: Timelocks, stage: u32) -> (deadline: U256)
        requires
            stage < STAGE_SLOTS,
        ensures
            deadline@ == deadline_of(timelocks, stage),
    {
        let deployed: u64 = read_slot(timelocks.hi, 3) as u64;
        let offset: u64 = if stage < 4 {
            read_slot(timelocks.lo, stage) as u64
        } else {
            read_slot(timelocks.hi, stage - 4) as u64
        };
        U256::from_u64(deployed + offset)
    }
}

} // verus!
