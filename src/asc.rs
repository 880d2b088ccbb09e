//! Encoding of host values into guest memory with an explicit layout.
use vstd::prelude::*;
use vstd::string::StringSliceAdditionalSpecFns;
use vstd::utf8::encode_utf8;

verus! {

/// Errors raised while marshalling a value into the guest; each one is
/// replay-stable.
#[derive(Debug, Clone, Copy, PartialEq, Eq, Structural)]
pub enum DeterministicHostError {
    /// The encoded bytes do not fill the guest struct exactly.
    PaddingMismatch { encoded: usize, expected: usize },
    /// The gas ceiling would be exceeded.
    GasExhausted,
    /// The guest heap cannot address more bytes.
    OutOfMemory,
}

/// Little-endian encoding of `v` on `n` bytes.
pub open spec fn le_bytes(v: nat, n: nat) -> Seq<u8>
    decreases n,
{
    if n == 0 {
        Seq::empty()
    } else {
        seq![(v % 256) as u8] + le_bytes(v / 256, (n - 1) as nat)
    }
}

pub proof fn lemma_le_bytes_len(v: nat, n: nat)
    ensures
        le_bytes(v, n).len() == n,
    decreases n,
{
    if n > 0 {
        lemma_le_bytes_len(v / 256, (n - 1) as nat);
    }
}

/// Appends the `n` low bytes of `v`, least significant first.
fn push_le(bytes: &mut Vec<u8>, v: u64, n: usize)
    ensures
        final(bytes)@ == old(bytes)@ + le_bytes(v as nat, n as nat),
{
    let mut x: u64 = v;
    let mut i: usize = 0;
    proof {
        assert(old(bytes)@ + le_bytes(v as nat, n as nat) == bytes@ + le_bytes(v as nat, n as nat));
    }
    while i < n
        invariant
            i <= n,
            bytes@ + le_bytes(x as nat, (n - i) as nat) == old(bytes)@ + le_bytes(v as nat, n as nat),
        decreases n - i,
    {
        let ghost prev = bytes@;
        let b: u8 = (x % 256) as u8;
        bytes.push(b);
        proof {
            let rest = le_bytes((x / 256) as nat, (n - i - 1) as nat);
            assert(le_bytes(x as nat, (n - i) as nat) == seq![b] + rest);
            assert(prev + (seq![b] + rest) == prev.push(b) + rest);
        }
        x = x / 256;
        i = i + 1;
    }
    proof {
        assert(le_bytes(x as nat, 0) == Seq::<u8>::empty());
        assert(bytes@ + Seq::<u8>::empty() == bytes@);
    }
}

/// A 32-bit offset into guest linear memory.
#[derive(Debug, Clone, Copy, PartialEq, Eq, Structural)]
pub struct AscPtr {
    pub offset: u32,
}

/// A monotonically increasing gas counter with a hard ceiling.
#[derive(Debug, Clone, Copy, PartialEq, Eq, Structural)]
pub struct GasCounter {
    pub used: u64,
    pub limit: u64,
}

impl GasCounter {
    pub open spec fn wf(&self) -> bool {
        self.used <= self.limit
    }

    pub fn new(limit: u64) -> (r: GasCounter)
        ensures
            r.used == 0,
            r.limit == limit,
            r.wf(),
    {
        GasCounter { used: 0, limit }
    }

    /// Debits `amount`; fails without change when the ceiling would be passed.
    pub fn consume(&mut self, amount: u64) -> (r: Result<(), DeterministicHostError>)
        requires
            old(self).wf(),
        ensures
            final(self).wf(),
            final(self).limit == old(self).limit,
            old(self).used + amount <= old(self).limit ==> r is Ok && final(self).used == old(self).used + amount,
            old(self).used + amount > old(self).limit ==> r == Err::<(), _>(
                DeterministicHostError::GasExhausted,
            ) && *final(self) == *old(self),
    {
        if amount <= self.limit - self.used {
            self.used = self.used + amount;
            Ok(())
        } else {
            Err(DeterministicHostError::GasExhausted)
        }
    }
}

/// Gas debited for each byte written into guest memory.
pub const GAS_PER_BYTE: u64 = 1;

/// The guest heap: a linear memory that grows by appending objects.
pub struct AscHeap {
    pub memory: Vec<u8>,
}

/// The bytes an object with `payload` occupies on the heap: a 4-byte
/// length header, then the payload.
pub open spec fn heap_object(payload: Seq<u8>) -> Seq<u8> {
    le_bytes(payload.len(), 4) + payload
}

/// What allocating `payload` on a heap holding `mem`, with gas `gas`,
/// comes to: `OutOfMemory` when the object would pass the 32-bit address
/// space, else `GasExhausted` when its bytes cannot be paid for, both with
/// heap and gas unchanged; else the object is appended at the old end of
/// memory and its bytes are debited.
pub open spec fn alloc_result(
    mem: Seq<u8>,
    gas: GasCounter,
    payload: Seq<u8>,
    r: Result<AscPtr, DeterministicHostError>,
    mem2: Seq<u8>,
    gas2: GasCounter,
) -> bool {
    if mem.len() + 4 + payload.len() > u32::MAX {
        r == Err::<AscPtr, _>(DeterministicHostError::OutOfMemory) && mem2 == mem && gas2 == gas
    } else if gas.used + (4 + payload.len()) * GAS_PER_BYTE > gas.limit {
        r == Err::<AscPtr, _>(DeterministicHostError::GasExhausted) && mem2 == mem && gas2 == gas
    } else {
        r == Ok::<_, DeterministicHostError>(AscPtr { offset: mem.len() as u32 }) && mem2 == mem
            + heap_object(payload) && gas2.used == gas.used + (4 + payload.len()) * GAS_PER_BYTE
            && gas2.limit == gas.limit
    }
}

impl AscHeap {
    pub fn new() -> (r: AscHeap)
        ensures
            r.memory@.len() == 0,
    {
        AscHeap { memory: Vec::new() }
    }

    /// Writes `payload` as a new heap object and returns its offset; every
    /// byte written is debited from `gas` first.
    pub fn asc_new_bytes(&mut self, payload: &[u8], gas: &mut GasCounter) -> (r: Result<
        AscPtr,
        DeterministicHostError,
    >)
        requires
            old(gas).wf(),
        ensures
            final(gas).wf(),
            final(gas).limit == old(gas).limit,
            alloc_result(old(self).memory@, *old(gas), payload@, r, final(self).memory@, *final(gas)),
    {
        let start = self.memory.len();
        if payload.len() > 0xffff_ffffusize - 4 || start > 0xffff_ffffusize - 4 - payload.len() {
            return Err(DeterministicHostError::OutOfMemory);
        }
        let cost = ((4 + payload.len()) as u64) * GAS_PER_BYTE;
        match gas.consume(cost) {
            Err(e) => {
                return Err(e);
            },
            Ok(()) => {},
        }
        let ghost before = self.memory@;
        push_le(&mut self.memory, payload.len() as u64, 4);
        let mut i: usize = 0;
        while i < payload.len()
            invariant
                i <= payload@.len(),
                self.memory@ == before + le_bytes(payload@.len(), 4) + payload@.subrange(0, i as int),
            decreases payload@.len() - i,
        {
            self.memory.push(payload[i]);
            proof {
                assert(payload@.subrange(0, i + 1) == payload@.subrange(0, i as int).push(payload@[i as int]));
            }
            i = i + 1;
        }
        proof {
            assert(payload@.subrange(0, payload@.len() as int) == payload@);
            assert(self.memory@ =~= before + heap_object(payload@));
        }
        Ok(AscPtr { offset: start as u32 })
    }

    /// Allocates a string object holding the UTF-8 bytes of `s`.
    pub fn asc_new_string(&mut self, s: &str, gas: &mut GasCounter) -> (r: Result<
        AscPtr,
        DeterministicHostError,
    >)
        requires
            old(gas).wf(),
        ensures
            final(gas).wf(),
            final(gas).limit == old(gas).limit,
            alloc_result(old(self).memory@, *old(gas), encode_utf8(s@), r, final(self).memory@, *final(gas)),
            r is Ok ==> final(self).memory@.len() >= old(self).memory@.len() + 4
                && final(self).memory@.subrange(0, old(self).memory@.len() as int) == old(self).memory@,
    {
        let r = self.asc_new_bytes(s.as_bytes(), gas);
        proof {
            lemma_le_bytes_len(s.spec_bytes().len(), 4);
            let m = old(self).memory@;
            if r is Ok {
                assert(self.memory@.subrange(0, m.len() as int) =~= m);
            }
        }
        r
    }
}

} // verus!

verus! {

/// Discriminates guest pointers at the host boundary.
#[derive(Debug, Clone, Copy, PartialEq, Eq, Structural)]
pub enum IndexForAscTypeId {
    UnitTestNetworkUnitTestTypeBool,
}

/// In-guest size of `{ u64, AscPtr, u64 }`: the pointer is followed by four
/// bytes of alignment before the second `u64`.
pub const ASC_BAD_SIZE: usize = 24;

/// In-guest size of `{ u64, AscPtr, u32, u64 }`.
pub const ASC_BAD_FIXED_SIZE: usize = 24;

/// A host value whose guest mirror forgets the padding after its pointer.
pub struct Bad {
    pub nonce: u64,
    pub str_suff: String,
    pub tail: u64,
}

/// Guest mirror of `Bad`, without an explicit padding field.
#[derive(Debug, Clone, Copy, PartialEq, Eq, Structural)]
pub struct AscBad {
    pub nonce: u64,
    pub str_suff: AscPtr,
    pub tail: u64,
}

/// The same host value, mirrored with explicit padding.
pub struct BadFixed {
    pub nonce: u64,
    pub str_suff: String,
    pub tail: u64,
}

/// Guest mirror of `BadFixed`, with four bytes of padding after the pointer.
#[derive(Debug, Clone, Copy, PartialEq, Eq, Structural)]
pub struct AscBadFixed {
    pub nonce: u64,
    pub str_suff: AscPtr,
    pub _padding: u32,
    pub tail: u64,
}

impl AscBad {
    /// The bytes written field by field, with no padding.
    pub open spec fn encoded(&self) -> Seq<u8> {
        le_bytes(self.nonce as nat, 8) + le_bytes(self.str_suff.offset as nat, 4) + le_bytes(
            self.tail as nat,
            8,
        )
    }

    pub fn index_asc_type_id() -> (r: IndexForAscTypeId)
        ensures
            r == IndexForAscTypeId::UnitTestNetworkUnitTestTypeBool,
    {
        IndexForAscTypeId::UnitTestNetworkUnitTestTypeBool
    }

    /// Encodes the fields; fails since they do not fill the guest struct.
    pub fn to_asc_bytes(&self) -> (r: Result<Vec<u8>, DeterministicHostError>)
        ensures
            r == Err::<Vec<u8>, _>(
                DeterministicHostError::PaddingMismatch { encoded: 20, expected: ASC_BAD_SIZE },
            ),
    {
        let mut bytes: Vec<u8> = Vec::new();
        push_le(&mut bytes, self.nonce, 8);
        push_le(&mut bytes, self.str_suff.offset as u64, 4);
        push_le(&mut bytes, self.tail, 8);
        proof {
            lemma_le_bytes_len(self.nonce as nat, 8);
            lemma_le_bytes_len(self.str_suff.offset as nat, 4);
            lemma_le_bytes_len(self.tail as nat, 8);
        }
        if bytes.len() != ASC_BAD_SIZE {
            return Err(
                DeterministicHostError::PaddingMismatch {
                    encoded: bytes.len(),
                    expected: ASC_BAD_SIZE,
                },
            );
        }
        Ok(bytes)
    }
}

impl AscBadFixed {
    /// The bytes written field by field, padding included.
    pub open spec fn encoded(&self) -> Seq<u8> {
        le_bytes(self.nonce as nat, 8) + le_bytes(self.str_suff.offset as nat, 4) + le_bytes(
            self._padding as nat,
            4,
        ) + le_bytes(self.tail as nat, 8)
    }

    pub fn index_asc_type_id() -> (r: IndexForAscTypeId)
        ensures
            r == IndexForAscTypeId::UnitTestNetworkUnitTestTypeBool,
    {
        IndexForAscTypeId::UnitTestNetworkUnitTestTypeBool
    }

    /// Encodes the fields, which fill the guest struct exactly.
    pub fn to_asc_bytes(&self) -> (r: Result<Vec<u8>, DeterministicHostError>)
        ensures
            r is Ok,
            r->Ok_0@ == self.encoded(),
            r->Ok_0@.len() == ASC_BAD_FIXED_SIZE,
    {
        let mut bytes: Vec<u8> = Vec::new();
        push_le(&mut bytes, self.nonce, 8);
        push_le(&mut bytes, self.str_suff.offset as u64, 4);
        push_le(&mut bytes, self._padding as u64, 4);
        push_le(&mut bytes, self.tail, 8);
        proof {
            lemma_le_bytes_len(self.nonce as nat, 8);
            lemma_le_bytes_len(self.str_suff.offset as nat, 4);
            lemma_le_bytes_len(self._padding as nat, 4);
            lemma_le_bytes_len(self.tail as nat, 8);
            assert(bytes@ =~= self.encoded());
        }
        if bytes.len() != ASC_BAD_FIXED_SIZE {
            return Err(
                DeterministicHostError::PaddingMismatch {
                    encoded: bytes.len(),
                    expected: ASC_BAD_FIXED_SIZE,
                },
            );
        }
        Ok(bytes)
    }
}

impl Bad {
    /// Allocates the string on the guest heap and builds the guest mirror.
    pub fn to_asc_obj(&self, heap: &mut AscHeap, gas: &mut GasCounter) -> (r: Result<
        AscBad,
        DeterministicHostError,
    >)
        requires
            old(gas).wf(),
        ensures
            final(gas).wf(),
            alloc_result(
                old(heap).memory@,
                *old(gas),
                encode_utf8(self.str_suff@),
                match r {
                    Ok(a) => Ok(a.str_suff),
                    Err(e) => Err(e),
                },
                final(heap).memory@,
                *final(gas),
            ),
            r is Ok ==> r->Ok_0.nonce == self.nonce && r->Ok_0.tail == self.tail,
    {
        let ptr = match heap.asc_new_string(self.str_suff.as_str(), gas) {
            Ok(p) => p,
            Err(e) => {
                return Err(e);
            },
        };
        Ok(AscBad { nonce: self.nonce, str_suff: ptr, tail: self.tail })
    }
}

impl BadFixed {
    /// Allocates the string on the guest heap and builds the padded mirror.
    pub fn to_asc_obj(&self, heap: &mut AscHeap, gas: &mut GasCounter) -> (r: Result<
        AscBadFixed,
        DeterministicHostError,
    >)
        requires
            old(gas).wf(),
        ensures
            final(gas).wf(),
            alloc_result(
                old(heap).memory@,
                *old(gas),
                encode_utf8(self.str_suff@),
                match r {
                    Ok(a) => Ok(a.str_suff),
                    Err(e) => Err(e),
                },
                final(heap).memory@,
                *final(gas),
            ),
            r is Ok ==> r->Ok_0.nonce == self.nonce && r->Ok_0._padding == 0 && r->Ok_0.tail
                == self.tail,
    {
        let ptr = match heap.asc_new_string(self.str_suff.as_str(), gas) {
            Ok(p) => p,
            Err(e) => {
                return Err(e);
            },
        };
        Ok(AscBadFixed { nonce: self.nonce, str_suff: ptr, _padding: 0, tail: self.tail })
    }
}

} // verus!
