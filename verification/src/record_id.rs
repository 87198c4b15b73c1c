use vstd::prelude::*;
use vstd::string::StringExecFns;
use crate::typedef::{PageId, SlotId};

verus! {

/// Address of a tuple: the page that holds it and its slot in that page.
#[derive(Clone, Copy, Debug, PartialEq, Eq, Structural, Hash)]
pub struct RecordId {
    pub page_id: PageId,
    pub slot_id: SlotId,
}

/// The packed form of a record id: the page in the high 32 bits, the slot in
/// the low 32 bits.
pub open spec fn pack(page_id: PageId, slot_id: SlotId) -> u64 {
    ((page_id as u64) << 32) | (slot_id as u64)
}

/// The record id that a packed value stands for.
pub open spec fn unpack(packed: u64) -> RecordId {
    RecordId { page_id: (packed >> 32) as u32, slot_id: (packed & 0xffff_ffff) as u32 }
}

impl RecordId {
    pub fn new(page_id: PageId, slot_id: SlotId) -> (rid: Self)
        ensures
            rid == (RecordId { page_id, slot_id }),
    {
        RecordId { page_id, slot_id }
    }

    pub fn page_id(&self) -> (id: PageId)
        ensures
            id == self.page_id,
    {
        self.page_id
    }

    pub fn slot_id(&self) -> (id: SlotId)
        ensures
            id == self.slot_id,
    {
        self.slot_id
    }

    /// The packed form of this record id.
    pub open spec fn spec_to_u64(self) -> u64 {
        pack(self.page_id, self.slot_id)
    }

    /// Packs the record id into 64 bits.
    pub fn to_u64(self) -> (packed: u64)
        ensures
            packed == self.spec_to_u64(),
            packed == self.page_id as int * 0x1_0000_0000 + self.slot_id as int,
            unpack(packed) == self,
    {
        let page: u64 = self.page_id as u64;
        let slot: u64 = self.slot_id as u64;
        proof {
            lemma_pack_is_sum(self.page_id, self.slot_id);
            lemma_unpack_pack(self.page_id, self.slot_id);
        }
        (page << 32) | slot
    }

    /// The text of the record id, for messages.
    pub fn to_string(&self) -> (text: String)
        ensures
            text@ == record_id_text(*self),
    {
        proof {
            reveal_strlit(":");
        }
        let mut text = String::new();
        push_decimal(&mut text, self.page_id);
        text.append(":");
        push_decimal(&mut text, self.slot_id);
        assert(text@ =~= record_id_text(*self));
        text
    }

    /// Unpacks 64 bits into a record id. Every value is the packed form of
    /// exactly one record id.
    pub fn from_u64(packed: u64) -> (rid: Self)
        ensures
            rid == unpack(packed),
            rid.spec_to_u64() == packed,
    {
        proof {
            lemma_pack_unpack(packed);
        }
        RecordId { page_id: (packed >> 32) as u32, slot_id: (packed & 0xffff_ffff) as u32 }
    }
}

impl From<RecordId> for u64 {
    fn from(rid: RecordId) -> (packed: u64) {
        rid.to_u64()
    }
}

impl vstd::std_specs::convert::FromSpecImpl<RecordId> for u64 {
    open spec fn obeys_from_spec() -> bool {
        true
    }

    open spec fn from_spec(rid: RecordId) -> u64 {
        rid.spec_to_u64()
    }
}

impl From<u64> for RecordId {
    fn from(packed: u64) -> (rid: RecordId) {
        RecordId::from_u64(packed)
    }
}

impl vstd::std_specs::convert::FromSpecImpl<u64> for RecordId {
    open spec fn obeys_from_spec() -> bool {
        true
    }

    open spec fn from_spec(packed: u64) -> RecordId {
        unpack(packed)
    }
}

/// The character of a decimal digit.
pub open spec fn digit_char(digit: int) -> char {
    if digit == 0 {
        '0'
    } else if digit == 1 {
        '1'
    } else if digit == 2 {
        '2'
    } else if digit == 3 {
        '3'
    } else if digit == 4 {
        '4'
    } else if digit == 5 {
        '5'
    } else if digit == 6 {
        '6'
    } else if digit == 7 {
        '7'
    } else if digit == 8 {
        '8'
    } else {
        '9'
    }
}

/// The decimal digits of `n`, without leading zeros.
pub open spec fn decimal(n: nat) -> Seq<char>
    decreases n,
{
    if n < 10 {
        seq![digit_char(n as int)]
    } else {
        decimal(n / 10).push(digit_char((n % 10) as int))
    }
}

/// The text of a record id: the page id and the slot id in decimal, with a
/// colon between them.
pub open spec fn record_id_text(rid: RecordId) -> Seq<char> {
    decimal(rid.page_id as nat) + seq![':'] + decimal(rid.slot_id as nat)
}

/// The one-character string of a decimal digit.
fn digit_str(digit: u32) -> (s: &'static str)
    requires
        digit < 10,
    ensures
        s@ == seq![digit_char(digit as int)],
{
    proof {
        reveal_strlit("0");
        reveal_strlit("1");
        reveal_strlit("2");
        reveal_strlit("3");
        reveal_strlit("4");
        reveal_strlit("5");
        reveal_strlit("6");
        reveal_strlit("7");
        reveal_strlit("8");
        reveal_strlit("9");
    }
    let s = if digit == 0 {
        "0"
    } else if digit == 1 {
        "1"
    } else if digit == 2 {
        "2"
    } else if digit == 3 {
        "3"
    } else if digit == 4 {
        "4"
    } else if digit == 5 {
        "5"
    } else if digit == 6 {
        "6"
    } else if digit == 7 {
        "7"
    } else if digit == 8 {
        "8"
    } else {
        "9"
    };
    assert(s@ =~= seq![digit_char(digit as int)]);
    s
}

/// Appends the decimal digits of `n` to `text`.
fn push_decimal(text: &mut String, n: u32)
    ensures
        final(text)@ == old(text)@ + decimal(n as nat),
    decreases n,
{
    if n >= 10 {
        push_decimal(text, n / 10);
    }
    text.append(digit_str(n % 10));
    assert(text@ =~= old(text)@ + decimal(n as nat));
}

/// Packing puts the page id in front of the slot id without mixing them.
pub proof fn lemma_pack_is_sum(page_id: PageId, slot_id: SlotId)
    ensures
        pack(page_id, slot_id) == page_id as int * 0x1_0000_0000 + slot_id as int,
{
    let p = page_id as u64;
    let s = slot_id as u64;
    assert(((p << 32) | s) == p * 0x1_0000_0000 + s) by (bit_vector)
        requires
            p <= 0xffff_ffff,
            s <= 0xffff_ffff,
    ;
}

/// Unpacking a packed record id gives the record id back.
pub proof fn lemma_unpack_pack(page_id: PageId, slot_id: SlotId)
    ensures
        unpack(pack(page_id, slot_id)) == (RecordId { page_id, slot_id }),
{
    let p = page_id as u64;
    let s = slot_id as u64;
    assert((((p << 32) | s) >> 32) == p && (((p << 32) | s) & 0xffff_ffff) == s) by (bit_vector)
        requires
            p <= 0xffff_ffff,
            s <= 0xffff_ffff,
    ;
}

/// Packing an unpacked value gives the value back.
pub proof fn lemma_pack_unpack(packed: u64)
    ensures
        unpack(packed).spec_to_u64() == packed,
{
    let hi = (packed >> 32) as u32;
    let lo = (packed & 0xffff_ffff) as u32;
    assert((packed >> 32) <= 0xffff_ffff && (packed & 0xffff_ffff) <= 0xffff_ffff) by (bit_vector);
    assert((((packed >> 32) << 32) | (packed & 0xffff_ffff)) == packed) by (bit_vector);
    assert(hi as u64 == packed >> 32);
    assert(lo as u64 == packed & 0xffff_ffff);
}

} // verus!
