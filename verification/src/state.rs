//! The fixed base records that entries follow: a mint and a token-holding
//! account, with their layouts.

use crate::error::ProgramError;
use crate::extension::registry::{AccountType, BaseState};
use crate::pod::{
    lemma_bytes_of_le_4, lemma_bytes_of_le_8, lemma_le_8, lemma_le_of_u32, lemma_le_of_u64,
    lemma_splice_next, spec_le, spec_u32_bytes, spec_u64_bytes, u32_from_le, u64_from_le,
    write_at, write_u32_at, write_u64_at,
};
use vstd::prelude::*;

verus! {

/// The address of an account: thirty-two bytes.
#[derive(Clone, Copy, Debug, Default, PartialEq, Eq, Hash, PartialOrd, Ord)]
pub struct Pubkey(pub [u8; 32]);

impl View for Pubkey {
    type V = Seq<u8>;

    open spec fn view(&self) -> Seq<u8> {
        self.0@
    }
}

impl Pubkey {
    /// The address with the given bytes.
    pub fn new_from_array(bytes: [u8; 32]) -> (r: Pubkey)
        ensures
            r@ == bytes@,
    {
        Pubkey(bytes)
    }

    /// The bytes of the address.
    pub fn to_bytes(self) -> (r: [u8; 32])
        ensures
            r@ == self@,
    {
        self.0
    }

    /// Reads an address from exactly thirty-two bytes.
    pub fn from_slice(src: &[u8]) -> (r: Pubkey)
        requires
            src@.len() == 32,
        ensures
            r@ == src@,
    {
        let mut bytes = [0u8;32];
        let mut i: usize = 0;
        while i < 32
            invariant
                i <= 32,
                src@.len() == 32,
                forall|k: int| 0 <= k < i ==> bytes@[k] == src@[k],
            decreases 32 - i,
        {
            bytes[i] = src[i];
            i += 1;
        }
        assert(bytes@ =~= src@);
        Pubkey(bytes)
    }

    /// Tells whether two addresses are the same.
    pub fn equals(&self, other: &Pubkey) -> (r: bool)
        ensures
            r == (self@ == other@),
    {
        let mut i: usize = 0;
        while i < 32
            invariant
                i <= 32,
                forall|k: int| 0 <= k < i ==> self.0@[k] == other.0@[k],
            decreases 32 - i,
        {
            if self.0[i] != other.0[i] {
                return false;
            }
            i += 1;
        }
        assert(self@ =~= other@);
        true
    }

    /// Tells whether every byte of the address is zero.
    pub fn is_zero(&self) -> (r: bool)
        ensures
            r == crate::pod::all_zero(self@),
    {
        let mut i: usize = 0;
        while i < 32
            invariant
                i <= 32,
                forall|k: int| 0 <= k < i ==> self.0@[k] == 0,
            decreases 32 - i,
        {
            if self.0[i] != 0 {
                return false;
            }
            i += 1;
        }
        true
    }
}

/// The view of an address that may be absent.
pub open spec fn spec_key_view(key: Option<Pubkey>) -> Option<Seq<u8>> {
    match key {
        Some(k) => Some(k@),
        None => None,
    }
}

/// The optional address stored in thirty-six bytes: a tag of four bytes, 0 for
/// none and 1 for some, then the address. Any other tag is malformed.
pub open spec fn spec_unpack_coption_key(src: Seq<u8>) -> Option<Option<Seq<u8>>> {
    let tag = spec_le(src.subrange(0, 4));
    if tag == 0 {
        Some(None)
    } else if tag == 1 {
        Some(Some(src.subrange(4, 36)))
    } else {
        None
    }
}

/// The thirty-six bytes `onto` after an optional address is packed over them:
/// an absent address leaves the bytes behind the tag as they are.
pub open spec fn spec_pack_coption_key(key: Option<Seq<u8>>, onto: Seq<u8>) -> Seq<u8> {
    match key {
        Some(k) => spec_u32_bytes(1) + k,
        None => spec_u32_bytes(0) + onto.subrange(4, 36),
    }
}

/// The optional amount stored in twelve bytes: a tag of four bytes, then the
/// amount.
pub open spec fn spec_unpack_coption_u64(src: Seq<u8>) -> Option<Option<u64>> {
    let tag = spec_le(src.subrange(0, 4));
    if tag == 0 {
        Some(None)
    } else if tag == 1 {
        Some(Some(spec_le(src.subrange(4, 12)) as u64))
    } else {
        None
    }
}

/// The twelve bytes `onto` after an optional amount is packed over them.
pub open spec fn spec_pack_coption_u64(value: Option<u64>, onto: Seq<u8>) -> Seq<u8> {
    match value {
        Some(v) => spec_u32_bytes(1) + spec_u64_bytes(v),
        None => spec_u32_bytes(0) + onto.subrange(4, 12),
    }
}

/// Reads an optional address from thirty-six bytes.
pub fn unpack_coption_key(src: &[u8]) -> (r: Result<Option<Pubkey>, ProgramError>)
    requires
        src@.len() == 36,
    ensures
        match spec_unpack_coption_key(src@) {
            Some(k) => r matches Ok(found) && spec_key_view(found) == k,
            None => r matches Err(e) && e == ProgramError::InvalidAccountData,
        },
{
    let tag = u32_from_le(&src[0..4]);
    if tag == 0 {
        Ok(None)
    } else if tag == 1 {
        Ok(Some(Pubkey::from_slice(&src[4..36])))
    } else {
        Err(ProgramError::InvalidAccountData)
    }
}

/// Writes an optional address over the thirty-six bytes of `dst` from `at` on.
pub fn pack_coption_key(key: &Option<Pubkey>, dst: &mut [u8], at: usize)
    requires
        at + 36 <= old(dst)@.len(),
    ensures
        final(dst)@.len() == old(dst)@.len(),
        final(dst)@ == crate::pod::splice(
            old(dst)@,
            at as int,
            spec_pack_coption_key(
                spec_key_view(*key),
                old(dst)@.subrange(at as int, at + 36),
            ),
        ),
{
    let _ = dst.len();
    match key {
        Some(k) => {
            write_u32_at(dst, at, 1);
            write_at(dst, at + 4, vstd::array::array_as_slice(&k.0));
        },
        None => {
            write_u32_at(dst, at, 0);
        },
    }
    proof {
        reveal(crate::pod::splice);
    }
    assert(dst@ =~= crate::pod::splice(
        old(dst)@,
        at as int,
        spec_pack_coption_key(spec_key_view(*key), old(dst)@.subrange(at as int, at + 36)),
    ));
}

/// Reads an optional amount from twelve bytes.
pub fn unpack_coption_u64(src: &[u8]) -> (r: Result<Option<u64>, ProgramError>)
    requires
        src@.len() == 12,
    ensures
        match spec_unpack_coption_u64(src@) {
            Some(v) => r == Ok::<Option<u64>, ProgramError>(v),
            None => r == Err::<Option<u64>, ProgramError>(ProgramError::InvalidAccountData),
        },
{
    let tag = u32_from_le(&src[0..4]);
    if tag == 0 {
        Ok(None)
    } else if tag == 1 {
        let body = &src[4..12];
        proof {
            lemma_le_8(body@);
        }
        Ok(Some(u64_from_le(body)))
    } else {
        Err(ProgramError::InvalidAccountData)
    }
}

/// Writes an optional amount over the twelve bytes of `dst` from `at` on.
pub fn pack_coption_u64(value: &Option<u64>, dst: &mut [u8], at: usize)
    requires
        at + 12 <= old(dst)@.len(),
    ensures
        final(dst)@.len() == old(dst)@.len(),
        final(dst)@ == crate::pod::splice(
            old(dst)@,
            at as int,
            spec_pack_coption_u64(*value, old(dst)@.subrange(at as int, at + 12)),
        ),
{
    let _ = dst.len();
    match value {
        Some(v) => {
            write_u32_at(dst, at, 1);
            write_u64_at(dst, at + 4, *v);
        },
        None => {
            write_u32_at(dst, at, 0);
        },
    }
    proof {
        reveal(crate::pod::splice);
    }
    assert(dst@ =~= crate::pod::splice(
        old(dst)@,
        at as int,
        spec_pack_coption_u64(*value, old(dst)@.subrange(at as int, at + 12)),
    ));
}

/// Packing an optional address over the bytes it was read from changes nothing.
pub proof fn lemma_coption_key_pack_unpacked(src: Seq<u8>)
    requires
        src.len() == 36,
        spec_unpack_coption_key(src) is Some,
    ensures
        spec_pack_coption_key(spec_unpack_coption_key(src).unwrap(), src) == src,
{
    lemma_bytes_of_le_4(src.subrange(0, 4));
    assert(spec_pack_coption_key(spec_unpack_coption_key(src).unwrap(), src) =~= src);
}

/// A packed optional address has thirty-six bytes and reads back as itself.
pub proof fn lemma_coption_key_unpack_packed(key: Option<Seq<u8>>, onto: Seq<u8>)
    requires
        onto.len() == 36,
        key matches Some(k) ==> k.len() == 32,
    ensures
        spec_pack_coption_key(key, onto).len() == 36,
        spec_unpack_coption_key(spec_pack_coption_key(key, onto)) == Some(key),
{
    lemma_le_of_u32(0);
    lemma_le_of_u32(1);
    let packed = spec_pack_coption_key(key, onto);
    match key {
        Some(k) => {
            assert(packed.subrange(0, 4) =~= spec_u32_bytes(1));
            assert(packed.subrange(4, 36) =~= k);
        },
        None => {
            assert(packed.subrange(0, 4) =~= spec_u32_bytes(0));
        },
    }
}

/// Packing an optional amount over the bytes it was read from changes nothing.
pub proof fn lemma_coption_u64_pack_unpacked(src: Seq<u8>)
    requires
        src.len() == 12,
        spec_unpack_coption_u64(src) is Some,
    ensures
        spec_pack_coption_u64(spec_unpack_coption_u64(src).unwrap(), src) == src,
{
    lemma_bytes_of_le_4(src.subrange(0, 4));
    lemma_bytes_of_le_8(src.subrange(4, 12));
    lemma_le_8(src.subrange(4, 12));
    assert(spec_pack_coption_u64(spec_unpack_coption_u64(src).unwrap(), src) =~= src);
}

/// A packed optional amount has twelve bytes and reads back as itself.
pub proof fn lemma_coption_u64_unpack_packed(value: Option<u64>, onto: Seq<u8>)
    requires
        onto.len() == 12,
    ensures
        spec_pack_coption_u64(value, onto).len() == 12,
        spec_unpack_coption_u64(spec_pack_coption_u64(value, onto)) == Some(value),
{
    lemma_le_of_u32(0);
    lemma_le_of_u32(1);
    let packed = spec_pack_coption_u64(value, onto);
    match value {
        Some(v) => {
            lemma_le_of_u64(v);
            assert(packed.subrange(0, 4) =~= spec_u32_bytes(1));
            assert(packed.subrange(4, 12) =~= spec_u64_bytes(v));
        },
        None => {
            assert(packed.subrange(0, 4) =~= spec_u32_bytes(0));
        },
    }
}

/// Length of a packed mint.
pub const MINT_LEN: usize = 82;

/// Length of a packed token-holding account.
pub const ACCOUNT_LEN: usize = 165;

/// Mint data.
#[derive(Clone, Copy, Debug, Default, PartialEq)]
pub struct Mint {
    /// Optional authority used to mint new tokens. The mint authority may only
    /// be provided during mint creation. If no mint authority is present
    /// then the mint has a fixed supply and no further tokens may be
    /// minted.
    pub mint_authority: Option<Pubkey>,
    /// Total supply of tokens.
    pub supply: u64,
    /// Number of base 10 digits to the right of the decimal place.
    pub decimals: u8,
    /// Is `true` if this structure has been initialized
    pub is_initialized: bool,
    /// Optional authority to freeze token accounts.
    pub freeze_authority: Option<Pubkey>,
}

/// What a mint holds, with its addresses as sequences of bytes.
pub struct MintView {
    pub mint_authority: Option<Seq<u8>>,
    pub supply: u64,
    pub decimals: u8,
    pub is_initialized: bool,
    pub freeze_authority: Option<Seq<u8>>,
}

impl View for Mint {
    type V = MintView;

    open spec fn view(&self) -> MintView {
        MintView {
            mint_authority: spec_key_view(self.mint_authority),
            supply: self.supply,
            decimals: self.decimals,
            is_initialized: self.is_initialized,
            freeze_authority: spec_key_view(self.freeze_authority),
        }
    }
}

/// The byte that stores a flag.
pub open spec fn spec_bool_byte(b: bool) -> u8 {
    if b {
        1
    } else {
        0
    }
}

/// The flag that a byte stores: 0 or 1, anything else is malformed.
pub open spec fn spec_unpack_bool(byte: u8) -> Option<bool> {
    if byte == 0 {
        Some(false)
    } else if byte == 1 {
        Some(true)
    } else {
        None
    }
}

impl BaseState for Mint {
    const ACCOUNT_TYPE: AccountType = AccountType::Mint;

    const LEN: usize = 82;

    open spec fn spec_unpack(bytes: Seq<u8>) -> Option<MintView> {
        match (
            spec_unpack_coption_key(bytes.subrange(0, 36)),
            spec_unpack_bool(bytes[45]),
            spec_unpack_coption_key(bytes.subrange(46, 82)),
        ) {
            (Some(mint_authority), Some(is_initialized), Some(freeze_authority)) => Some(
                MintView {
                    mint_authority,
                    supply: spec_le(bytes.subrange(36, 44)) as u64,
                    decimals: bytes[44],
                    is_initialized,
                    freeze_authority,
                },
            ),
            _ => None,
        }
    }

    open spec fn spec_pack(v: MintView, onto: Seq<u8>) -> Seq<u8> {
        spec_pack_coption_key(v.mint_authority, onto.subrange(0, 36)) + spec_u64_bytes(v.supply)
            + seq![v.decimals, spec_bool_byte(v.is_initialized)] + spec_pack_coption_key(
            v.freeze_authority,
            onto.subrange(46, 82),
        )
    }

    open spec fn spec_is_initialized(v: MintView) -> bool {
        v.is_initialized
    }

    fn unpack_from_slice(src: &[u8]) -> (r: Result<Self, ProgramError>) {
        let mint_authority = match unpack_coption_key(&src[0..36]) {
            Ok(k) => k,
            Err(e) => {
                return Err(e);
            },
        };
        let supply_bytes = &src[36..44];
        proof {
            lemma_le_8(supply_bytes@);
        }
        let supply = u64_from_le(supply_bytes);
        let decimals = src[44];
        let is_initialized = if src[45] == 0 {
            false
        } else if src[45] == 1 {
            true
        } else {
            return Err(ProgramError::InvalidAccountData);
        };
        let freeze_authority = match unpack_coption_key(&src[46..82]) {
            Ok(k) => k,
            Err(e) => {
                return Err(e);
            },
        };
        Ok(Mint { mint_authority, supply, decimals, is_initialized, freeze_authority })
    }

    fn pack_into_slice(&self, dst: &mut [u8]) {
        pack_coption_key(&self.mint_authority, dst, 0);
        write_u64_at(dst, 36, self.supply);
        dst[44] = self.decimals;
        dst[45] = if self.is_initialized {
            1
        } else {
            0
        };
        pack_coption_key(&self.freeze_authority, dst, 46);
        proof {
            reveal(crate::pod::splice);
        }
        assert(dst@ =~= Self::spec_pack(self@, old(dst)@));
    }

    fn is_initialized(&self) -> (r: bool) {
        self.is_initialized
    }

    proof fn lemma_pack_unpacked(bytes: Seq<u8>) {
        let v = Self::spec_unpack(bytes).unwrap();
        lemma_coption_key_pack_unpacked(bytes.subrange(0, 36));
        lemma_coption_key_pack_unpacked(bytes.subrange(46, 82));
        lemma_bytes_of_le_8(bytes.subrange(36, 44));
        lemma_le_8(bytes.subrange(36, 44));
        assert(Self::spec_pack(v, bytes) =~= bytes.subrange(0, 36) + bytes.subrange(36, 44)
            + seq![bytes[44], bytes[45]] + bytes.subrange(46, 82));
        assert(Self::spec_pack(v, bytes) =~= bytes);
    }

    proof fn lemma_unpack_packed(&self, onto: Seq<u8>) {
        let v = self@;
        let packed = Self::spec_pack(v, onto);
        lemma_coption_key_unpack_packed(v.mint_authority, onto.subrange(0, 36));
        lemma_coption_key_unpack_packed(v.freeze_authority, onto.subrange(46, 82));
        lemma_le_of_u64(v.supply);
        assert(packed.subrange(0, 36) =~= spec_pack_coption_key(
            v.mint_authority,
            onto.subrange(0, 36),
        ));
        assert(packed.subrange(36, 44) =~= spec_u64_bytes(v.supply));
        assert(packed.subrange(46, 82) =~= spec_pack_coption_key(
            v.freeze_authority,
            onto.subrange(46, 82),
        ));
    }
}

/// Account state.
#[derive(Clone, Copy, Debug, Default, PartialEq, Eq, Structural)]
pub enum AccountState {
    /// Account is not yet initialized
    #[default]
    Uninitialized,
    /// Account is initialized; the account owner and/or delegate may perform
    /// permitted operations on this account
    Initialized,
    /// Account has been frozen by the mint freeze authority. Neither the
    /// account owner nor the delegate are able to perform operations on
    /// this account.
    Frozen,
}

impl AccountState {
    /// The byte that stores the state.
    pub open spec fn spec_code(self) -> u8 {
        match self {
            AccountState::Uninitialized => 0,
            AccountState::Initialized => 1,
            AccountState::Frozen => 2,
        }
    }

    /// The state that a byte stores, if any.
    pub open spec fn spec_from_code(code: u8) -> Option<AccountState> {
        if code == 0 {
            Some(AccountState::Uninitialized)
        } else if code == 1 {
            Some(AccountState::Initialized)
        } else if code == 2 {
            Some(AccountState::Frozen)
        } else {
            None
        }
    }
}

/// Account data.
#[derive(Clone, Copy, Debug, Default, PartialEq)]
pub struct Account {
    /// The mint associated with this account
    pub mint: Pubkey,
    /// The owner of this account.
    pub owner: Pubkey,
    /// The amount of tokens this account holds.
    pub amount: u64,
    /// If `delegate` is `Some` then `delegated_amount` represents
    /// the amount authorized by the delegate
    pub delegate: Option<Pubkey>,
    /// The account's state
    pub state: AccountState,
    /// If is_some, this is a native token, and the value logs the rent-exempt
    /// reserve. An Account is required to be rent-exempt, so the value is
    /// used by the Processor to ensure that wrapped SOL accounts do not
    /// drop below this threshold.
    pub is_native: Option<u64>,
    /// The amount delegated
    pub delegated_amount: u64,
    /// Optional authority to close the account.
    pub close_authority: Option<Pubkey>,
}

/// What a token-holding account holds, with its addresses as sequences of
/// bytes.
pub struct AccountView {
    pub mint: Seq<u8>,
    pub owner: Seq<u8>,
    pub amount: u64,
    pub delegate: Option<Seq<u8>>,
    pub state: AccountState,
    pub is_native: Option<u64>,
    pub delegated_amount: u64,
    pub close_authority: Option<Seq<u8>>,
}

impl View for Account {
    type V = AccountView;

    open spec fn view(&self) -> AccountView {
        AccountView {
            mint: self.mint@,
            owner: self.owner@,
            amount: self.amount,
            delegate: spec_key_view(self.delegate),
            state: self.state,
            is_native: self.is_native,
            delegated_amount: self.delegated_amount,
            close_authority: spec_key_view(self.close_authority),
        }
    }
}

impl BaseState for Account {
    const ACCOUNT_TYPE: AccountType = AccountType::Account;

    const LEN: usize = 165;

    open spec fn spec_unpack(bytes: Seq<u8>) -> Option<AccountView> {
        match (
            spec_unpack_coption_key(bytes.subrange(72, 108)),
            AccountState::spec_from_code(bytes[108]),
            spec_unpack_coption_u64(bytes.subrange(109, 121)),
            spec_unpack_coption_key(bytes.subrange(129, 165)),
        ) {
            (Some(delegate), Some(state), Some(is_native), Some(close_authority)) => Some(
                AccountView {
                    mint: bytes.subrange(0, 32),
                    owner: bytes.subrange(32, 64),
                    amount: spec_le(bytes.subrange(64, 72)) as u64,
                    delegate,
                    state,
                    is_native,
                    delegated_amount: spec_le(bytes.subrange(121, 129)) as u64,
                    close_authority,
                },
            ),
            _ => None,
        }
    }

    open spec fn spec_pack(v: AccountView, onto: Seq<u8>) -> Seq<u8> {
        v.mint + v.owner + spec_u64_bytes(v.amount) + spec_pack_coption_key(
            v.delegate,
            onto.subrange(72, 108),
        ) + seq![v.state.spec_code()] + spec_pack_coption_u64(
            v.is_native,
            onto.subrange(109, 121),
        ) + spec_u64_bytes(v.delegated_amount) + spec_pack_coption_key(
            v.close_authority,
            onto.subrange(129, 165),
        )
    }

    open spec fn spec_is_initialized(v: AccountView) -> bool {
        v.state != AccountState::Uninitialized
    }

    fn unpack_from_slice(src: &[u8]) -> (r: Result<Self, ProgramError>) {
        let mint = Pubkey::from_slice(&src[0..32]);
        let owner = Pubkey::from_slice(&src[32..64]);
        let amount_bytes = &src[64..72];
        let delegated_bytes = &src[121..129];
        proof {
            lemma_le_8(amount_bytes@);
            lemma_le_8(delegated_bytes@);
        }
        let amount = u64_from_le(amount_bytes);
        let delegate = match unpack_coption_key(&src[72..108]) {
            Ok(k) => k,
            Err(e) => {
                return Err(e);
            },
        };
        let state = if src[108] == 0 {
            AccountState::Uninitialized
        } else if src[108] == 1 {
            AccountState::Initialized
        } else if src[108] == 2 {
            AccountState::Frozen
        } else {
            return Err(ProgramError::InvalidAccountData);
        };
        let is_native = match unpack_coption_u64(&src[109..121]) {
            Ok(k) => k,
            Err(e) => {
                return Err(e);
            },
        };
        let delegated_amount = u64_from_le(delegated_bytes);
        let close_authority = match unpack_coption_key(&src[129..165]) {
            Ok(k) => k,
            Err(e) => {
                return Err(e);
            },
        };
        Ok(
            Account {
                mint,
                owner,
                amount,
                delegate,
                state,
                is_native,
                delegated_amount,
                close_authority,
            },
        )
    }

    fn pack_into_slice(&self, dst: &mut [u8]) {
        let ghost onto = dst@;
        let ghost v = self@;
        let ghost mut done = Seq::<u8>::empty();
        proof {
            assert(dst@.subrange(0, 0) =~= done);
            lemma_splice_next(dst@, onto, 0, v.mint, done);
            done = done + v.mint;
        }
        write_at(dst, 0, vstd::array::array_as_slice(&self.mint.0));
        proof {
            lemma_splice_next(dst@, onto, 32, v.owner, done);
            done = done + v.owner;
        }
        write_at(dst, 32, vstd::array::array_as_slice(&self.owner.0));
        proof {
            lemma_splice_next(dst@, onto, 64, spec_u64_bytes(v.amount), done);
            done = done + spec_u64_bytes(v.amount);
        }
        write_u64_at(dst, 64, self.amount);
        proof {
            let part = spec_pack_coption_key(v.delegate, onto.subrange(72, 108));
            lemma_splice_next(dst@, onto, 72, part, done);
            done = done + part;
        }
        pack_coption_key(&self.delegate, dst, 72);
        let code: u8 = match self.state {
            AccountState::Uninitialized => 0,
            AccountState::Initialized => 1,
            AccountState::Frozen => 2,
        };
        proof {
            lemma_splice_next(dst@, onto, 108, seq![code], done);
            done = done + seq![code];
            reveal(crate::pod::splice);
            assert(dst@.update(108, code) =~= crate::pod::splice(dst@, 108, seq![code]));
        }
        dst[108] = code;
        proof {
            let part = spec_pack_coption_u64(v.is_native, onto.subrange(109, 121));
            lemma_splice_next(dst@, onto, 109, part, done);
            done = done + part;
        }
        pack_coption_u64(&self.is_native, dst, 109);
        proof {
            lemma_splice_next(dst@, onto, 121, spec_u64_bytes(v.delegated_amount), done);
            done = done + spec_u64_bytes(v.delegated_amount);
        }
        write_u64_at(dst, 121, self.delegated_amount);
        proof {
            let part = spec_pack_coption_key(v.close_authority, onto.subrange(129, 165));
            lemma_splice_next(dst@, onto, 129, part, done);
            done = done + part;
        }
        pack_coption_key(&self.close_authority, dst, 129);
        assert(dst@ =~= dst@.subrange(0, 165));
    }

    fn is_initialized(&self) -> (r: bool) {
        match self.state {
            AccountState::Uninitialized => false,
            _ => true,
        }
    }

    proof fn lemma_pack_unpacked(bytes: Seq<u8>) {
        let v = Self::spec_unpack(bytes).unwrap();
        lemma_coption_key_pack_unpacked(bytes.subrange(72, 108));
        lemma_coption_u64_pack_unpacked(bytes.subrange(109, 121));
        lemma_coption_key_pack_unpacked(bytes.subrange(129, 165));
        lemma_bytes_of_le_8(bytes.subrange(64, 72));
        lemma_le_8(bytes.subrange(64, 72));
        lemma_bytes_of_le_8(bytes.subrange(121, 129));
        lemma_le_8(bytes.subrange(121, 129));
        assert(Self::spec_pack(v, bytes) =~= bytes.subrange(0, 32) + bytes.subrange(32, 64)
            + bytes.subrange(64, 72) + bytes.subrange(72, 108) + seq![bytes[108]] + bytes.subrange(
            109,
            121,
        ) + bytes.subrange(121, 129) + bytes.subrange(129, 165));
        assert(Self::spec_pack(v, bytes) =~= bytes);
    }

    proof fn lemma_unpack_packed(&self, onto: Seq<u8>) {
        let v = self@;
        let packed = Self::spec_pack(v, onto);
        lemma_coption_key_unpack_packed(v.delegate, onto.subrange(72, 108));
        lemma_coption_u64_unpack_packed(v.is_native, onto.subrange(109, 121));
        lemma_coption_key_unpack_packed(v.close_authority, onto.subrange(129, 165));
        lemma_le_of_u64(v.amount);
        lemma_le_of_u64(v.delegated_amount);
        assert(packed.subrange(0, 32) =~= v.mint);
        assert(packed.subrange(32, 64) =~= v.owner);
        assert(packed.subrange(64, 72) =~= spec_u64_bytes(v.amount));
        assert(packed.subrange(72, 108) =~= spec_pack_coption_key(
            v.delegate,
            onto.subrange(72, 108),
        ));
        assert(packed.subrange(109, 121) =~= spec_pack_coption_u64(
            v.is_native,
            onto.subrange(109, 121),
        ));
        assert(packed.subrange(121, 129) =~= spec_u64_bytes(v.delegated_amount));
        assert(packed.subrange(129, 165) =~= spec_pack_coption_key(
            v.close_authority,
            onto.subrange(129, 165),
        ));
    }
}

} // verus!
