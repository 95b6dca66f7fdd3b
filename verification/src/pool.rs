//! The persisted pool record: identities, lifecycle state, per-token
//! slots, and the fixed-width byte layout it is stored in.
//!
//! The record is `RECORD_LEN` bytes: owner identity, one lifecycle
//! byte, shares-mint identity, fee-vault identity, one slot-count byte,
//! then `MAX_TOKEN_COUNT` fixed slots of mint identity, custody
//! identity and a little-endian 64-bit reserve. Slots beyond the count
//! are all zeroes; the decoder rejects anything else, so every record
//! has exactly one byte form.

use crate::error::AppError;
use vstd::prelude::*;

verus! {

/// The most token slots a pool can hold.
pub const MAX_TOKEN_COUNT: usize = 6;

/// The fixed byte length of a packed pool record:
/// `32 + 1 + 32 + 32 + 1 + MAX_TOKEN_COUNT * (32 + 32 + 8)`.
pub const RECORD_LEN: usize = 530;

/// A 32-byte identity (an account, mint or program address), held as
/// four little-endian 64-bit words: word 0 covers bytes 0 to 7 and so
/// on.
#[derive(Clone, Copy, Debug, PartialEq, Eq, Structural)]
pub struct Identity {
    pub w0: u64,
    pub w1: u64,
    pub w2: u64,
    pub w3: u64,
}

/// The pool lifecycle. `Uninitialized` is the only state construction
/// accepts and is never re-entered; `Initialized` and `Frozen` toggle
/// under the owner's freeze and thaw.
#[derive(Clone, Copy, Debug, PartialEq, Eq, Structural)]
pub enum PoolState {
    Uninitialized,
    Initialized,
    Frozen,
}

impl Default for PoolState {
    /// A fresh record is unconstructed.
    fn default() -> (r: PoolState)
        ensures
            r is Uninitialized,
    {
        PoolState::Uninitialized
    }
}

/// The mathematical model of a pool record: the same fields with the
/// slot vectors as sequences.
#[verifier::ext_equal]
pub struct PoolModel {
    pub owner: Identity,
    pub state: PoolState,
    pub mint_lpt: Identity,
    pub vault: Identity,
    pub mints: Seq<Identity>,
    pub treasurys: Seq<Identity>,
    pub reserves: Seq<u64>,
}

impl PoolModel {
    /// The three slot vectors run in parallel and fit the fixed
    /// capacity. Every decoded record has this shape.
    pub open spec fn parallel(self) -> bool {
        &&& self.mints.len() == self.treasurys.len()
        &&& self.mints.len() == self.reserves.len()
        &&& self.mints.len() <= MAX_TOKEN_COUNT
    }

    /// Well-formedness: parallel slot vectors, and no mint or custody
    /// identity repeats. Construction establishes this and every
    /// operation preserves it.
    pub open spec fn wf(self) -> bool {
        &&& self.parallel()
        &&& forall|i: int, j: int|
            0 <= i < j < self.treasurys.len() ==> self.treasurys[i] != self.treasurys[j]
        &&& forall|i: int, j: int| 0 <= i < j < self.mints.len() ==> self.mints[i] != self.mints[j]
    }

    /// How many token slots the pool holds.
    pub open spec fn token_count(self) -> int {
        self.mints.len() as int
    }
}

/// One pool record: identity and lifecycle data plus the parallel slot
/// vectors of token mint, custody account and reserve amount. Slot 0 is
/// the base token in which fees are denominated.
#[derive(Clone, Debug, PartialEq, Eq)]
pub struct Pool {
    pub owner: Identity,
    pub state: PoolState,
    pub mint_lpt: Identity,
    pub vault: Identity,
    pub mints: Vec<Identity>,
    pub treasurys: Vec<Identity>,
    pub reserves: Vec<u64>,
}

impl Default for Pool {
    /// The record before construction: zero identities, no slots,
    /// uninitialized.
    fn default() -> (r: Pool)
        ensures
            r@.state is Uninitialized,
            r@.owner == (Identity { w0: 0, w1: 0, w2: 0, w3: 0 }),
            r@.mint_lpt == (Identity { w0: 0, w1: 0, w2: 0, w3: 0 }),
            r@.vault == (Identity { w0: 0, w1: 0, w2: 0, w3: 0 }),
            r@.mints.len() == 0,
            r@.treasurys.len() == 0,
            r@.reserves.len() == 0,
            r@.wf(),
    {
        let zero = Identity { w0: 0, w1: 0, w2: 0, w3: 0 };
        Pool {
            owner: zero,
            state: PoolState::Uninitialized,
            mint_lpt: zero,
            vault: zero,
            mints: Vec::new(),
            treasurys: Vec::new(),
            reserves: Vec::new(),
        }
    }
}

impl View for Pool {
    type V = PoolModel;

    open spec fn view(&self) -> PoolModel {
        PoolModel {
            owner: self.owner,
            state: self.state,
            mint_lpt: self.mint_lpt,
            vault: self.vault,
            mints: self.mints@,
            treasurys: self.treasurys@,
            reserves: self.reserves@,
        }
    }
}

/// The first matching custody account among the first `n` slots, as an
/// index.
pub open spec fn find_treasury(treasurys: Seq<Identity>, key: Identity, n: int) -> Option<int>
    decreases n,
{
    if n <= 0 {
        None
    } else {
        match find_treasury(treasurys, key, n - 1) {
            Some(i) => Some(i),
            None => if treasurys[n - 1] == key {
                Some(n - 1)
            } else {
                None
            },
        }
    }
}

impl Pool {
    /// Whether the pool is frozen: swaps and withdrawals are rejected.
    pub fn is_frozen(&self) -> (r: bool)
        ensures
            r <==> self@.state is Frozen,
    {
        self.state == PoolState::Frozen
    }

    /// Whether the pool has been constructed.
    pub fn is_initialized(&self) -> (r: bool)
        ensures
            r <==> !(self@.state is Uninitialized),
    {
        self.state != PoolState::Uninitialized
    }

    /// Looks a custody account up among the pool's slots, returning the
    /// slot index and its reserve. Slot index 0 is the base token.
    pub fn get_reserve(&self, treasury: &Identity) -> (r: Option<(u8, u64)>)
        requires
            self@.parallel(),
        ensures
            match find_treasury(self@.treasurys, *treasury, self@.token_count()) {
                None => r is None,
                Some(i) => r == Some::<(u8, u64)>((i as u8, self@.reserves[i])),
            },
    {
        let n = self.treasurys.len();
        let mut i: usize = 0;
        while i < n
            invariant
                n == self@.treasurys.len(),
                self@.parallel(),
                i <= n,
                find_treasury(self@.treasurys, *treasury, i as int) is None,
            decreases n - i,
        {
            if self.treasurys[i] == *treasury {
                proof {
                    lemma_find_treasury_extend(self@.treasurys, *treasury, i as int, n as int);
                }
                return Some((i as u8, self.reserves[i]));
            }
            i = i + 1;
        }
        None
    }
}

/// The eight little-endian bytes of a 64-bit word.
pub open spec fn le_bytes(v: u64) -> Seq<u8> {
    seq![
        (v & 0xff) as u8,
        ((v >> 8) & 0xff) as u8,
        ((v >> 16) & 0xff) as u8,
        ((v >> 24) & 0xff) as u8,
        ((v >> 32) & 0xff) as u8,
        ((v >> 40) & 0xff) as u8,
        ((v >> 48) & 0xff) as u8,
        ((v >> 56) & 0xff) as u8,
    ]
}

/// The 32 bytes of an identity: its four words, least first.
pub open spec fn id_bytes(id: Identity) -> Seq<u8> {
    le_bytes(id.w0) + le_bytes(id.w1) + le_bytes(id.w2) + le_bytes(id.w3)
}

/// The lifecycle byte of a state.
pub open spec fn state_code(s: PoolState) -> u8 {
    match s {
        PoolState::Uninitialized => 0,
        PoolState::Initialized => 1,
        PoolState::Frozen => 2,
    }
}

/// The 72 bytes of slot `i`: mint, custody, reserve — or zeroes past
/// the pool's token count.
#[verifier::opaque]
pub open spec fn slot_bytes(m: PoolModel, i: int) -> Seq<u8> {
    if 0 <= i < m.mints.len() {
        id_bytes(m.mints[i]) + id_bytes(m.treasurys[i]) + le_bytes(m.reserves[i])
    } else {
        Seq::new(72, |j: int| 0u8)
    }
}

/// The first `n` slots, concatenated.
#[verifier::opaque]
pub open spec fn slots_bytes(m: PoolModel, n: int) -> Seq<u8>
    decreases n,
{
    if n <= 0 {
        Seq::empty()
    } else {
        slots_bytes(m, n - 1) + slot_bytes(m, n - 1)
    }
}

/// The full `RECORD_LEN`-byte form of a pool record.
#[verifier::opaque]
pub open spec fn record_bytes(m: PoolModel) -> Seq<u8> {
    id_bytes(m.owner) + seq![state_code(m.state)] + id_bytes(m.mint_lpt) + id_bytes(m.vault)
        + seq![m.mints.len() as u8] + slots_bytes(m, MAX_TOKEN_COUNT as int)
}

/// The word encoded little-endian at `off`.
pub open spec fn word_at(s: Seq<u8>, off: int) -> u64 {
    (s[off] + s[off + 1] * 0x100 + s[off + 2] * 0x1_0000 + s[off + 3] * 0x100_0000 + s[off + 4]
        * 0x1_0000_0000 + s[off + 5] * 0x100_0000_0000 + s[off + 6] * 0x1_0000_0000_0000 + s[off
        + 7] * 0x100_0000_0000_0000) as u64
}

/// The identity encoded at `off`.
pub open spec fn id_at(s: Seq<u8>, off: int) -> Identity {
    Identity {
        w0: word_at(s, off),
        w1: word_at(s, off + 8),
        w2: word_at(s, off + 16),
        w3: word_at(s, off + 24),
    }
}

/// The state a lifecycle byte stands for (meaningful for bytes 0 to 2).
pub open spec fn state_of(b: u8) -> PoolState {
    if b == 0 {
        PoolState::Uninitialized
    } else if b == 1 {
        PoolState::Initialized
    } else {
        PoolState::Frozen
    }
}

/// Where slot `i` begins in the record.
pub open spec fn slot_off(i: int) -> int {
    98 + i * 72
}

/// A byte string the decoder accepts: long enough, a known lifecycle
/// byte, a count within capacity, and only zeroes past the counted
/// slots.
pub open spec fn valid_record(s: Seq<u8>) -> bool {
    &&& s.len() >= RECORD_LEN
    &&& s[32] <= 2
    &&& s[97] <= MAX_TOKEN_COUNT as u8
    &&& forall|j: int| slot_off(s[97] as int) <= j < RECORD_LEN ==> s[j] == 0
}

/// The pool model a valid byte string decodes to.
pub open spec fn decode_model(s: Seq<u8>) -> PoolModel {
    let n = s[97] as nat;
    PoolModel {
        owner: id_at(s, 0),
        state: state_of(s[32]),
        mint_lpt: id_at(s, 33),
        vault: id_at(s, 65),
        mints: Seq::new(n, |i: int| id_at(s, slot_off(i))),
        treasurys: Seq::new(n, |i: int| id_at(s, slot_off(i) + 32)),
        reserves: Seq::new(n, |i: int| word_at(s, slot_off(i) + 64)),
    }
}

/// A word's little-endian bytes recompose to the word.
pub proof fn lemma_le_bytes_value(v: u64)
    ensures
        word_at(le_bytes(v), 0) == v,
{
    let c0 = v & 0xff;
    let c1 = (v >> 8) & 0xff;
    let c2 = (v >> 16) & 0xff;
    let c3 = (v >> 24) & 0xff;
    let c4 = (v >> 32) & 0xff;
    let c5 = (v >> 40) & 0xff;
    let c6 = (v >> 48) & 0xff;
    let c7 = (v >> 56) & 0xff;
    assert(c0 < 0x100 && c1 < 0x100 && c2 < 0x100 && c3 < 0x100 && c4 < 0x100 && c5 < 0x100 && c6
        < 0x100 && c7 < 0x100 && c0 + c1 * 0x100 + c2 * 0x1_0000 + c3 * 0x100_0000 + c4
        * 0x1_0000_0000 + c5 * 0x100_0000_0000 + c6 * 0x1_0000_0000_0000 + c7
        * 0x100_0000_0000_0000 == v) by (bit_vector)
        requires
            c0 == v & 0xff,
            c1 == (v >> 8) & 0xff,
            c2 == (v >> 16) & 0xff,
            c3 == (v >> 24) & 0xff,
            c4 == (v >> 32) & 0xff,
            c5 == (v >> 40) & 0xff,
            c6 == (v >> 48) & 0xff,
            c7 == (v >> 56) & 0xff,
    ;
}

/// Reading a word back out of bytes inverts to those bytes: each
/// little-endian byte of the word at `off` is the byte it was read
/// from.
pub proof fn lemma_le_bytes_of_word_at(s: Seq<u8>, off: int)
    requires
        0 <= off,
        off + 8 <= s.len(),
    ensures
        forall|k: int| 0 <= k < 8 ==> le_bytes(word_at(s, off))[k] == s[off + k],
{
    let b0 = s[off];
    let b1 = s[off + 1];
    let b2 = s[off + 2];
    let b3 = s[off + 3];
    let b4 = s[off + 4];
    let b5 = s[off + 5];
    let b6 = s[off + 6];
    let b7 = s[off + 7];
    let v = word_at(s, off);
    assert(v & 0xff == b0 && (v >> 8) & 0xff == b1 && (v >> 16) & 0xff == b2 && (v >> 24) & 0xff
        == b3 && (v >> 32) & 0xff == b4 && (v >> 40) & 0xff == b5 && (v >> 48) & 0xff == b6 && (v
        >> 56) & 0xff == b7) by (bit_vector)
        requires
            v == (b0 + b1 * 0x100 + b2 * 0x1_0000 + b3 * 0x100_0000 + b4 * 0x1_0000_0000 + b5
                * 0x100_0000_0000 + b6 * 0x1_0000_0000_0000 + b7 * 0x100_0000_0000_0000) as u64,
    ;
    assert forall|k: int| 0 <= k < 8 implies le_bytes(v)[k] == s[off + k] by {
        if k == 0 {
            assert(le_bytes(v)[0] == (v & 0xff) as u8);
        }
    }
}

/// Reading an identity back out of bytes inverts to those bytes.
pub proof fn lemma_id_bytes_of_id_at(s: Seq<u8>, off: int)
    requires
        0 <= off,
        off + 32 <= s.len(),
    ensures
        forall|k: int| 0 <= k < 32 ==> id_bytes(id_at(s, off))[k] == s[off + k],
{
    lemma_le_bytes_of_word_at(s, off);
    lemma_le_bytes_of_word_at(s, off + 8);
    lemma_le_bytes_of_word_at(s, off + 16);
    lemma_le_bytes_of_word_at(s, off + 24);
    assert forall|k: int| 0 <= k < 32 implies id_bytes(id_at(s, off))[k] == s[off + k] by {
        let id = id_at(s, off);
        if k < 8 {
            assert(id_bytes(id)[k] == le_bytes(id.w0)[k]);
            assert(le_bytes(word_at(s, off))[k] == s[off + k]);
        } else if k < 16 {
            assert(id_bytes(id)[k] == le_bytes(id.w1)[k - 8]);
            assert(le_bytes(word_at(s, off + 8))[k - 8] == s[off + 8 + (k - 8)]);
        } else if k < 24 {
            assert(id_bytes(id)[k] == le_bytes(id.w2)[k - 16]);
            assert(le_bytes(word_at(s, off + 16))[k - 16] == s[off + 16 + (k - 16)]);
        } else {
            assert(id_bytes(id)[k] == le_bytes(id.w3)[k - 24]);
            assert(le_bytes(word_at(s, off + 24))[k - 24] == s[off + 24 + (k - 24)]);
        }
    }
}

/// A word read from bytes matching `le_bytes(v)` is `v`.
pub proof fn lemma_word_at_of(v: u64, s: Seq<u8>, off: int)
    requires
        0 <= off,
        off + 8 <= s.len(),
        forall|k: int| 0 <= k < 8 ==> s[off + k] == le_bytes(v)[k],
    ensures
        word_at(s, off) == v,
{
    lemma_le_bytes_value(v);
    assert(s[off] == le_bytes(v)[0]);
    assert(s[off + 1] == le_bytes(v)[1]);
    assert(s[off + 2] == le_bytes(v)[2]);
    assert(s[off + 3] == le_bytes(v)[3]);
    assert(s[off + 4] == le_bytes(v)[4]);
    assert(s[off + 5] == le_bytes(v)[5]);
    assert(s[off + 6] == le_bytes(v)[6]);
    assert(s[off + 7] == le_bytes(v)[7]);
}

/// An identity read from bytes matching `id_bytes(id)` is `id`.
pub proof fn lemma_id_at_of(id: Identity, s: Seq<u8>, off: int)
    requires
        0 <= off,
        off + 32 <= s.len(),
        forall|k: int| 0 <= k < 32 ==> s[off + k] == id_bytes(id)[k],
    ensures
        id_at(s, off) == id,
{
    assert forall|k: int| 0 <= k < 8 implies s[off + k] == le_bytes(id.w0)[k] by {
        assert(s[off + k] == id_bytes(id)[k]);
    }
    lemma_word_at_of(id.w0, s, off);
    assert forall|k: int| 0 <= k < 8 implies s[off + 8 + k] == le_bytes(id.w1)[k] by {
        assert(s[off + 8 + k] == id_bytes(id)[8 + k]);
    }
    lemma_word_at_of(id.w1, s, off + 8);
    assert forall|k: int| 0 <= k < 8 implies s[off + 16 + k] == le_bytes(id.w2)[k] by {
        assert(s[off + 16 + k] == id_bytes(id)[16 + k]);
    }
    lemma_word_at_of(id.w2, s, off + 16);
    assert forall|k: int| 0 <= k < 8 implies s[off + 24 + k] == le_bytes(id.w3)[k] by {
        assert(s[off + 24 + k] == id_bytes(id)[24 + k]);
    }
    lemma_word_at_of(id.w3, s, off + 24);
}

/// Appends a word's eight little-endian bytes.
pub(crate) fn push_word(dst: &mut Vec<u8>, v: u64)
    ensures
        final(dst)@ == old(dst)@ + le_bytes(v),
{
    proof {
        assert(v & 0xff < 0x100 && (v >> 8) & 0xff < 0x100 && (v >> 16) & 0xff < 0x100 && (v >> 24)
            & 0xff < 0x100 && (v >> 32) & 0xff < 0x100 && (v >> 40) & 0xff < 0x100 && (v >> 48)
            & 0xff < 0x100 && (v >> 56) & 0xff < 0x100) by (bit_vector);
    }
    dst.push((v & 0xff) as u8);
    dst.push(((v >> 8) & 0xff) as u8);
    dst.push(((v >> 16) & 0xff) as u8);
    dst.push(((v >> 24) & 0xff) as u8);
    dst.push(((v >> 32) & 0xff) as u8);
    dst.push(((v >> 40) & 0xff) as u8);
    dst.push(((v >> 48) & 0xff) as u8);
    dst.push(((v >> 56) & 0xff) as u8);
    proof {
        assert(dst@ =~= old(dst)@ + le_bytes(v));
    }
}

/// Appends an identity's 32 bytes.
pub(crate) fn push_id(dst: &mut Vec<u8>, id: &Identity)
    ensures
        final(dst)@ == old(dst)@ + id_bytes(*id),
{
    push_word(dst, id.w0);
    push_word(dst, id.w1);
    push_word(dst, id.w2);
    push_word(dst, id.w3);
    proof {
        assert(dst@ =~= old(dst)@ + id_bytes(*id));
    }
}

/// Reads the word stored little-endian at `off`.
pub(crate) fn read_word(src: &[u8], off: usize) -> (v: u64)
    requires
        off + 8 <= src@.len(),
    ensures
        v == word_at(src@, off as int),
{
    let b0 = src[off] as u64;
    let b1 = src[off + 1] as u64;
    let b2 = src[off + 2] as u64;
    let b3 = src[off + 3] as u64;
    let b4 = src[off + 4] as u64;
    let b5 = src[off + 5] as u64;
    let b6 = src[off + 6] as u64;
    let b7 = src[off + 7] as u64;
    let v = b0 | (b1 << 8) | (b2 << 16) | (b3 << 24) | (b4 << 32) | (b5 << 40) | (b6 << 48) | (b7
        << 56);
    proof {
        assert(v == b0 + b1 * 0x100 + b2 * 0x1_0000 + b3 * 0x100_0000 + b4 * 0x1_0000_0000 + b5
            * 0x100_0000_0000 + b6 * 0x1_0000_0000_0000 + b7 * 0x100_0000_0000_0000)
            by (bit_vector)
            requires
                b0 < 0x100 && b1 < 0x100 && b2 < 0x100 && b3 < 0x100 && b4 < 0x100 && b5 < 0x100
                    && b6 < 0x100 && b7 < 0x100,
                v == b0 | (b1 << 8) | (b2 << 16) | (b3 << 24) | (b4 << 32) | (b5 << 40) | (b6
                    << 48) | (b7 << 56),
        ;
    }
    v
}

/// Reads the identity stored at `off`.
fn read_id(src: &[u8], off: usize) -> (id: Identity)
    requires
        off + 32 <= src@.len(),
        off + 32 <= usize::MAX,
    ensures
        id == id_at(src@, off as int),
{
    let w0 = read_word(src, off);
    let w1 = read_word(src, off + 8);
    let w2 = read_word(src, off + 16);
    let w3 = read_word(src, off + 24);
    Identity { w0, w1, w2, w3 }
}

impl Pool {
    /// Appends the record's full fixed-width byte form to `dst`.
    pub fn pack_into_slice(&self, dst: &mut Vec<u8>)
        requires
            self@.wf(),
        ensures
            final(dst)@ == old(dst)@ + record_bytes(self@),
    {
        push_id(dst, &self.owner);
        let code: u8 = match self.state {
            PoolState::Uninitialized => 0,
            PoolState::Initialized => 1,
            PoolState::Frozen => 2,
        };
        dst.push(code);
        push_id(dst, &self.mint_lpt);
        push_id(dst, &self.vault);
        dst.push(self.mints.len() as u8);
        let ghost prefix = dst@;
        proof {
            reveal(slots_bytes);
            assert(dst@ =~= prefix + slots_bytes(self@, 0));
        }
        let mut i: usize = 0;
        while i < MAX_TOKEN_COUNT
            invariant
                self@.wf(),
                i <= MAX_TOKEN_COUNT,
                dst@ == prefix + slots_bytes(self@, i as int),
            decreases MAX_TOKEN_COUNT - i,
        {
            if i < self.mints.len() {
                push_id(dst, &self.mints[i]);
                push_id(dst, &self.treasurys[i]);
                push_word(dst, self.reserves[i]);
                proof {
                    reveal(slots_bytes);
                    reveal(slot_bytes);
                    assert(dst@ =~= prefix + slots_bytes(self@, i + 1));
                }
            } else {
                let ghost snap = dst@;
                let mut j: usize = 0;
                while j < 72
                    invariant
                        j <= 72,
                        dst@ == snap + Seq::new(j as nat, |k: int| 0u8),
                    decreases 72 - j,
                {
                    dst.push(0u8);
                    proof {
                        assert(dst@ =~= snap + Seq::new((j + 1) as nat, |k: int| 0u8));
                    }
                    j = j + 1;
                }
                proof {
                    reveal(slots_bytes);
                    reveal(slot_bytes);
                    assert(dst@ =~= prefix + slots_bytes(self@, i + 1));
                }
            }
            i = i + 1;
        }
        proof {
            reveal(record_bytes);
            assert(dst@ =~= old(dst)@ + record_bytes(self@));
        }
    }

    /// Decodes a record from its fixed-width byte form. Fails with
    /// `MalformedRecord` when the buffer is too short, the lifecycle
    /// byte or slot count is unknown, or the unused slot area is not
    /// zero — every record has exactly one accepted byte form.
    pub fn unpack_from_slice(src: &[u8]) -> (r: Result<Pool, AppError>)
        ensures
            valid_record(src@) ==> (r matches Ok(p) && p@ == decode_model(src@) && p@.parallel()),
            !valid_record(src@) ==> r == Err::<Pool, AppError>(AppError::MalformedRecord),
    {
        if src.len() < RECORD_LEN {
            return Err(AppError::MalformedRecord);
        }
        let state_b = src[32];
        if state_b > 2 {
            return Err(AppError::MalformedRecord);
        }
        let count_b = src[97];
        if count_b > 6 {
            return Err(AppError::MalformedRecord);
        }
        let count = count_b as usize;
        let tail_start: usize = 98 + count * 72;
        let mut j: usize = tail_start;
        while j < RECORD_LEN
            invariant
                src@.len() >= RECORD_LEN,
                tail_start <= j <= RECORD_LEN,
                tail_start == slot_off(src@[97] as int),
                forall|k: int| tail_start <= k < j ==> src@[k] == 0,
            decreases RECORD_LEN - j,
        {
            if src[j] != 0 {
                return Err(AppError::MalformedRecord);
            }
            j = j + 1;
        }
        let state = if state_b == 0 {
            PoolState::Uninitialized
        } else if state_b == 1 {
            PoolState::Initialized
        } else {
            PoolState::Frozen
        };
        let owner = read_id(src, 0);
        let mint_lpt = read_id(src, 33);
        let vault = read_id(src, 65);
        let mut mints: Vec<Identity> = Vec::new();
        let mut treasurys: Vec<Identity> = Vec::new();
        let mut reserves: Vec<u64> = Vec::new();
        let mut i: usize = 0;
        while i < count
            invariant
                src@.len() >= RECORD_LEN,
                count == src@[97] as int,
                count <= MAX_TOKEN_COUNT,
                i <= count,
                mints@.len() == i,
                treasurys@.len() == i,
                reserves@.len() == i,
                forall|k: int| 0 <= k < i ==> mints@[k] == id_at(src@, slot_off(k)),
                forall|k: int| 0 <= k < i ==> treasurys@[k] == id_at(src@, slot_off(k) + 32),
                forall|k: int| 0 <= k < i ==> reserves@[k] == word_at(src@, slot_off(k) + 64),
            decreases count - i,
        {
            let off: usize = 98 + i * 72;
            mints.push(read_id(src, off));
            treasurys.push(read_id(src, off + 32));
            reserves.push(read_word(src, off + 64));
            i = i + 1;
        }
        let p = Pool { owner, state, mint_lpt, vault, mints, treasurys, reserves };
        proof {
            assert(p@.mints =~= decode_model(src@).mints);
            assert(p@.treasurys =~= decode_model(src@).treasurys);
            assert(p@.reserves =~= decode_model(src@).reserves);
            assert(p@ =~= decode_model(src@));
        }
        Ok(p)
    }
}

/// Every slot occupies 72 bytes.
pub proof fn lemma_slot_bytes_len(m: PoolModel, i: int)
    ensures
        slot_bytes(m, i).len() == 72,
{
    reveal(slot_bytes);
}

/// The first `n` slots occupy `72 * n` bytes.
pub proof fn lemma_slots_bytes_len(m: PoolModel, n: int)
    requires
        n >= 0,
    ensures
        slots_bytes(m, n).len() == 72 * n,
    decreases n,
{
    reveal(slots_bytes);
    reveal(slot_bytes);
    if n > 0 {
        lemma_slots_bytes_len(m, n - 1);
    }
}

/// Byte `k` of slot `i` sits at offset `72 * i + k` of the slot area.
pub proof fn lemma_slots_bytes_index(m: PoolModel, n: int, i: int, k: int)
    requires
        0 <= i < n,
        0 <= k < 72,
    ensures
        slots_bytes(m, n)[72 * i + k] == slot_bytes(m, i)[k],
    decreases n,
{
    reveal(slots_bytes);
    lemma_slots_bytes_len(m, n - 1);
    lemma_slot_bytes_len(m, n - 1);
    assert(slots_bytes(m, n) == slots_bytes(m, n - 1) + slot_bytes(m, n - 1));
    if i < n - 1 {
        lemma_slots_bytes_index(m, n - 1, i, k);
        assert(72 * i + k < 72 * (n - 1));
        assert(slots_bytes(m, n)[72 * i + k] == slots_bytes(m, n - 1)[72 * i + k]);
    } else {
        assert(72 * i + k - 72 * (n - 1) == k);
        assert(slots_bytes(m, n)[72 * i + k] == slot_bytes(m, n - 1)[k]);
    }
}

/// Past the counted slots the slot area holds only zeroes.
pub proof fn lemma_slots_bytes_zero_tail(m: PoolModel, n: int, j: int)
    requires
        0 <= j < 72 * n,
        j >= 72 * m.mints.len(),
    ensures
        slots_bytes(m, n)[j] == 0,
    decreases n,
{
    reveal(slots_bytes);
    reveal(slot_bytes);
    lemma_slots_bytes_len(m, n - 1);
    if j >= 72 * (n - 1) {
        assert(n - 1 >= m.mints.len());
    } else {
        lemma_slots_bytes_zero_tail(m, n - 1, j);
    }
}

/// Where each piece of the record sits in its byte form.
proof fn lemma_record_bytes_index(m: PoolModel)
    requires
        m.mints.len() <= MAX_TOKEN_COUNT,
    ensures
        record_bytes(m).len() == RECORD_LEN,
        forall|k: int| 0 <= k < 32 ==> record_bytes(m)[k] == id_bytes(m.owner)[k],
        record_bytes(m)[32] == state_code(m.state),
        forall|k: int| 0 <= k < 32 ==> record_bytes(m)[33 + k] == id_bytes(m.mint_lpt)[k],
        forall|k: int| 0 <= k < 32 ==> record_bytes(m)[65 + k] == id_bytes(m.vault)[k],
        record_bytes(m)[97] == m.mints.len() as u8,
        forall|j: int|
            0 <= j < 432 ==> record_bytes(m)[98 + j] == slots_bytes(
                m,
                MAX_TOKEN_COUNT as int,
            )[j],
{
    reveal(record_bytes);
    lemma_slots_bytes_len(m, MAX_TOKEN_COUNT as int);
}

/// The decoder reads slot `i` back out of the record's byte form.
#[verifier::rlimit(100)]
proof fn lemma_record_slot(m: PoolModel, i: int)
    requires
        m.wf(),
        0 <= i < m.mints.len(),
    ensures
        id_at(record_bytes(m), slot_off(i)) == m.mints[i],
        id_at(record_bytes(m), slot_off(i) + 32) == m.treasurys[i],
        word_at(record_bytes(m), slot_off(i) + 64) == m.reserves[i],
{
    let s = record_bytes(m);
    lemma_record_bytes_index(m);
    assert forall|k: int| 0 <= k < 72 implies s[slot_off(i) + k] == slot_bytes(m, i)[k] by {
        lemma_slots_bytes_index(m, MAX_TOKEN_COUNT as int, i, k);
        assert(s[98 + (72 * i + k)] == slots_bytes(m, MAX_TOKEN_COUNT as int)[72 * i + k]);
    }
    reveal(slot_bytes);
    assert forall|k: int| 0 <= k < 32 implies s[slot_off(i) + k] == id_bytes(m.mints[i])[k] by {
        assert(s[slot_off(i) + k] == slot_bytes(m, i)[k]);
    }
    lemma_id_at_of(m.mints[i], s, slot_off(i));
    assert forall|k: int| 0 <= k < 32 implies s[slot_off(i) + 32 + k] == id_bytes(
        m.treasurys[i],
    )[k] by {
        assert(s[slot_off(i) + (32 + k)] == slot_bytes(m, i)[32 + k]);
    }
    lemma_id_at_of(m.treasurys[i], s, slot_off(i) + 32);
    assert forall|k: int| 0 <= k < 8 implies s[slot_off(i) + 64 + k] == le_bytes(
        m.reserves[i],
    )[k] by {
        assert(s[slot_off(i) + (64 + k)] == slot_bytes(m, i)[64 + k]);
    }
    lemma_word_at_of(m.reserves[i], s, slot_off(i) + 64);
}

/// Byte `j` of the slot area of a re-encoded valid record matches the
/// byte it was decoded from.
#[verifier::rlimit(100)]
proof fn lemma_slots_bytes_match(s: Seq<u8>, n: int, j: int)
    requires
        valid_record(s),
        n <= MAX_TOKEN_COUNT,
        0 <= j < 72 * n,
    ensures
        slots_bytes(decode_model(s), n)[j] == s[98 + j],
    decreases n,
{
    let m = decode_model(s);
    reveal(slots_bytes);
    reveal(slot_bytes);
    lemma_slots_bytes_len(m, n - 1);
    lemma_slot_bytes_len(m, n - 1);
    let cnt = s[97] as int;
    if j < 72 * (n - 1) {
        lemma_slots_bytes_match(s, n - 1, j);
    } else {
        let i = n - 1;
        let k = j - 72 * i;
        assert(slots_bytes(m, n)[j] == slot_bytes(m, i)[k]);
        if i < cnt {
            assert(m.mints[i] == id_at(s, slot_off(i)));
            assert(m.treasurys[i] == id_at(s, slot_off(i) + 32));
            assert(m.reserves[i] == word_at(s, slot_off(i) + 64));
            if k < 32 {
                lemma_id_bytes_of_id_at(s, slot_off(i));
                assert(slot_bytes(m, i)[k] == id_bytes(m.mints[i])[k]);
                assert(id_bytes(id_at(s, slot_off(i)))[k] == s[slot_off(i) + k]);
            } else if k < 64 {
                lemma_id_bytes_of_id_at(s, slot_off(i) + 32);
                assert(slot_bytes(m, i)[k] == id_bytes(m.treasurys[i])[k - 32]);
                assert(id_bytes(id_at(s, slot_off(i) + 32))[k - 32] == s[slot_off(i) + 32 + (k
                    - 32)]);
            } else {
                lemma_le_bytes_of_word_at(s, slot_off(i) + 64);
                assert(slot_bytes(m, i)[k] == le_bytes(m.reserves[i])[k - 64]);
                assert(le_bytes(word_at(s, slot_off(i) + 64))[k - 64] == s[slot_off(i) + 64 + (k
                    - 64)]);
            }
        } else {
            assert(slot_bytes(m, i)[k] == 0);
            assert(98 + j >= slot_off(cnt));
            assert(s[98 + j] == 0);
        }
    }
}

/// Law (record round trip, decode side): the decoder accepts exactly
/// the byte forms of records — re-encoding what a valid byte string
/// decodes to reproduces its record prefix byte for byte.
#[verifier::rlimit(100)]
pub proof fn lemma_decode_then_encode(s: Seq<u8>)
    requires
        valid_record(s),
    ensures
        decode_model(s).parallel(),
        record_bytes(decode_model(s)) == s.take(RECORD_LEN as int),
{
    let m = decode_model(s);
    lemma_record_bytes_index(m);
    let t = record_bytes(m);
    assert forall|j: int| 0 <= j < RECORD_LEN implies t[j] == s[j] by {
        if j < 32 {
            lemma_id_bytes_of_id_at(s, 0);
            assert(t[0 + j] == id_bytes(m.owner)[j]);
            assert(id_bytes(id_at(s, 0))[j] == s[0 + j]);
        } else if j == 32 {
            assert(t[32] == state_code(m.state));
        } else if j < 65 {
            lemma_id_bytes_of_id_at(s, 33);
            assert(t[33 + (j - 33)] == id_bytes(m.mint_lpt)[j - 33]);
            assert(id_bytes(id_at(s, 33))[j - 33] == s[33 + (j - 33)]);
        } else if j < 97 {
            lemma_id_bytes_of_id_at(s, 65);
            assert(t[65 + (j - 65)] == id_bytes(m.vault)[j - 65]);
            assert(id_bytes(id_at(s, 65))[j - 65] == s[65 + (j - 65)]);
        } else if j == 97 {
            assert(t[97] == m.mints.len() as u8);
        } else {
            lemma_slots_bytes_match(s, MAX_TOKEN_COUNT as int, j - 98);
            assert(t[98 + (j - 98)] == slots_bytes(m, MAX_TOKEN_COUNT as int)[j - 98]);
        }
    }
    assert(record_bytes(m) =~= s.take(RECORD_LEN as int));
}

/// Law (record round trip): every well-formed pool model has exactly
/// one `RECORD_LEN`-byte form, the decoder accepts it, and decoding it
/// returns the model unchanged.
#[verifier::rlimit(100)]
pub proof fn lemma_record_round_trip(m: PoolModel)
    requires
        m.wf(),
    ensures
        record_bytes(m).len() == RECORD_LEN,
        valid_record(record_bytes(m)),
        decode_model(record_bytes(m)) == m,
{
    let s = record_bytes(m);
    let cnt = m.mints.len() as int;
    lemma_record_bytes_index(m);
    assert(s[97] == cnt as u8);
    // the unused slot area is zero
    assert forall|j: int| slot_off(s[97] as int) <= j < RECORD_LEN implies s[j] == 0 by {
        lemma_slots_bytes_zero_tail(m, MAX_TOKEN_COUNT as int, j - 98);
        assert(s[98 + (j - 98)] == slots_bytes(m, MAX_TOKEN_COUNT as int)[j - 98]);
    }
    assert(valid_record(s));
    // header identities
    lemma_id_at_of(m.owner, s, 0);
    lemma_id_at_of(m.mint_lpt, s, 33);
    lemma_id_at_of(m.vault, s, 65);
    assert(state_of(s[32]) == m.state);
    // slot contents
    assert forall|i: int| 0 <= i < cnt implies id_at(s, slot_off(i)) == m.mints[i] && id_at(
        s,
        slot_off(i) + 32,
    ) == m.treasurys[i] && word_at(s, slot_off(i) + 64) == m.reserves[i] by {
        lemma_record_slot(m, i);
    }
    assert(decode_model(s).mints =~= m.mints);
    assert(decode_model(s).treasurys =~= m.treasurys);
    assert(decode_model(s).reserves =~= m.reserves);
    assert(decode_model(s) =~= m);
}

/// A found custody account lies within the searched prefix and matches
/// the key.
pub proof fn lemma_find_treasury_props(treasurys: Seq<Identity>, key: Identity, n: int)
    requires
        0 <= n <= treasurys.len(),
        find_treasury(treasurys, key, n).is_some(),
    ensures
        ({
            let i = find_treasury(treasurys, key, n).unwrap();
            0 <= i < n && treasurys[i] == key
        }),
    decreases n,
{
    if n > 0 && find_treasury(treasurys, key, n - 1).is_some() {
        lemma_find_treasury_props(treasurys, key, n - 1);
    }
}

/// Once a custody account is found at `i` with no match before it, the
/// search over any longer prefix still finds it at `i`.
proof fn lemma_find_treasury_extend(treasurys: Seq<Identity>, key: Identity, i: int, n: int)
    requires
        0 <= i < n <= treasurys.len(),
        find_treasury(treasurys, key, i) is None,
        treasurys[i] == key,
    ensures
        find_treasury(treasurys, key, n) == Some(i),
    decreases n,
{
    if n - 1 > i {
        lemma_find_treasury_extend(treasurys, key, i, n - 1);
    }
}

} // verus!
