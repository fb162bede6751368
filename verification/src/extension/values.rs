//! The values that entries hold: for each one its fields and its layout.

use crate::extension::registry::{Extension, ExtensionType};
use crate::extension::view::Pod;
use crate::error::ProgramError;
use crate::pod::{
    all_zero, lemma_bytes_of_le_2, lemma_bytes_of_le_8, lemma_le_2, lemma_le_8,
    lemma_splice_next, spec_le, spec_u16_bytes, spec_u64_bytes, splice, u16_from_le, u64_from_le,
    write_at, write_u16_at, write_u64_at, zeros,
};
use crate::state::Pubkey;
use vstd::prelude::*;

verus! {

/// Reads the `N` bytes of `src` from `at` on.
pub fn array_from_slice<const N: usize>(src: &[u8], at: usize) -> (r: [u8; N])
    requires
        at + N <= src@.len(),
    ensures
        r@ == src@.subrange(at as int, at + N),
{
    let _ = src.len();
    let mut bytes: [u8; N] = vstd::array::array_fill_for_copy_types(0u8);
    let mut i: usize = 0;
    while i < N
        invariant
            i <= N,
            at + N <= src@.len(),
            src@.len() <= usize::MAX,
            forall|k: int| 0 <= k < i ==> bytes@[k] == src@[at + k],
        decreases N - i,
    {
        bytes[i] = src[at + i];
        i += 1;
    }
    assert(bytes@ =~= src@.subrange(at as int, at + N));
    bytes
}

/// Reads the address stored in `src` from `at` on.
pub fn read_key(src: &[u8], at: usize) -> (r: Pubkey)
    requires
        at + 32 <= src@.len(),
    ensures
        r@ == src@.subrange(at as int, at + 32),
{
    Pubkey(array_from_slice::<32>(src, at))
}

/// Reads the little-endian `u64` stored in `src` from `at` on.
pub fn read_u64(src: &[u8], at: usize) -> (r: u64)
    requires
        at + 8 <= src@.len(),
    ensures
        r == spec_le(src@.subrange(at as int, at + 8)),
        spec_u64_bytes(r) == src@.subrange(at as int, at + 8),
{
    let _ = src.len();
    let bytes = &src[at..at + 8];
    proof {
        lemma_le_8(bytes@);
        lemma_bytes_of_le_8(bytes@);
    }
    u64_from_le(bytes)
}

/// Reads the little-endian `u16` stored in `src` from `at` on.
pub fn read_u16(src: &[u8], at: usize) -> (r: u16)
    requires
        at + 2 <= src@.len(),
    ensures
        r == spec_le(src@.subrange(at as int, at + 2)),
        spec_u16_bytes(r) == src@.subrange(at as int, at + 2),
{
    let _ = src.len();
    let bytes = &src[at..at + 2];
    proof {
        lemma_le_2(bytes@);
        lemma_bytes_of_le_2(bytes@);
    }
    u16_from_le(bytes)
}

/// A flag stored in one byte: zero is false, anything else is true.
#[derive(Clone, Copy, Debug, Default, PartialEq, Eq, Structural)]
pub struct PodBool(pub u8);

impl PodBool {
    /// The stored flag.
    pub fn get(self) -> (r: bool)
        ensures
            r == (self.0 != 0),
    {
        self.0 != 0
    }

    /// The byte that stores `b`.
    pub fn from_bool(b: bool) -> (r: PodBool)
        ensures
            r.0 == if b { 1u8 } else { 0u8 },
    {
        if b {
            PodBool(1)
        } else {
            PodBool(0)
        }
    }
}

/// An address that may be absent: the address of all zero bytes stands for none.
#[derive(Clone, Copy, Debug, Default, PartialEq, Eq)]
pub struct OptionalNonZeroPubkey(pub Pubkey);

impl OptionalNonZeroPubkey {
    /// Stores an optional address; the zero address cannot be stored as present.
    pub fn try_from_option(key: Option<Pubkey>) -> (r: Result<Self, ProgramError>)
        ensures
            match key {
                None => r matches Ok(stored) && stored.0@ == zeros(32),
                Some(k) => if all_zero(k@) {
                    r matches Err(e) && e == ProgramError::InvalidArgument
                } else {
                    r matches Ok(stored) && stored.0@ == k@
                },
            },
    {
        match key {
            None => {
                let bytes: [u8; 32] = vstd::array::array_fill_for_copy_types(0u8);
                assert(bytes@ =~= zeros(32));
                Ok(OptionalNonZeroPubkey(Pubkey(bytes)))
            },
            Some(k) => {
                if k.is_zero() {
                    Err(ProgramError::InvalidArgument)
                } else {
                    Ok(OptionalNonZeroPubkey(k))
                }
            },
        }
    }

    /// The stored address, where one is present.
    pub fn to_option(self) -> (r: Option<Pubkey>)
        ensures
            all_zero(self.0@) ==> r is None,
            !all_zero(self.0@) ==> (r matches Some(k) && k@ == self.0@),
    {
        if self.0.is_zero() {
            None
        } else {
            Some(self.0)
        }
    }
}

/// Close authority extension data for mints.
#[derive(Clone, Copy, Debug, Default, PartialEq)]
pub struct MintCloseAuthority {
    /// Optional authority to close the mint
    pub close_authority: OptionalNonZeroPubkey,
}

impl Extension for MintCloseAuthority {
    const TYPE: ExtensionType = ExtensionType::MintCloseAuthority;
}

impl Pod for MintCloseAuthority {
    const LEN: usize = 32;

    open spec fn spec_bytes(&self) -> Seq<u8> {
        self.close_authority.0@
    }

    open spec fn spec_default_bytes() -> Seq<u8> {
        zeros(32)
    }

    fn unpack(src: &[u8]) -> (r: Self) {
        let key = read_key(src, 0);
        assert(src@.subrange(0, 32) =~= src@);
        MintCloseAuthority { close_authority: OptionalNonZeroPubkey(key) }
    }

    fn pack_into_slice(&self, dst: &mut [u8]) {
        write_at(dst, 0, vstd::array::array_as_slice(&self.close_authority.0.0));
        proof {
            reveal(splice);
        }
        assert(dst@ =~= self.spec_bytes());
    }

    fn default_value() -> (r: Self) {
        let bytes: [u8; 32] = vstd::array::array_fill_for_copy_types(0u8);
        assert(bytes@ =~= zeros(32));
        MintCloseAuthority { close_authority: OptionalNonZeroPubkey(Pubkey(bytes)) }
    }
}

/// Transfer fee extension data for accounts.
#[derive(Clone, Copy, Debug, Default, PartialEq)]
pub struct TransferFeeAmount {
    /// Amount withheld during transfers, to be harvested to the mint
    pub withheld_amount: u64,
}

impl Extension for TransferFeeAmount {
    const TYPE: ExtensionType = ExtensionType::TransferFeeAmount;
}

impl Pod for TransferFeeAmount {
    const LEN: usize = 8;

    open spec fn spec_bytes(&self) -> Seq<u8> {
        spec_u64_bytes(self.withheld_amount)
    }

    open spec fn spec_default_bytes() -> Seq<u8> {
        spec_u64_bytes(0)
    }

    fn unpack(src: &[u8]) -> (r: Self) {
        let withheld_amount = read_u64(src, 0);
        assert(src@.subrange(0, 8) =~= src@);
        TransferFeeAmount { withheld_amount }
    }

    fn pack_into_slice(&self, dst: &mut [u8]) {
        write_u64_at(dst, 0, self.withheld_amount);
        proof {
            reveal(splice);
        }
        assert(dst@ =~= self.spec_bytes());
    }

    fn default_value() -> (r: Self) {
        TransferFeeAmount { withheld_amount: 0 }
    }
}

/// Transfer fee information
#[derive(Clone, Copy, Debug, Default, PartialEq)]
pub struct TransferFee {
    /// First epoch where the transfer fee takes effect
    pub epoch: u64,
    /// Maximum fee assessed on transfers, expressed as an amount of tokens
    pub maximum_fee: u64,
    /// Amount of transfer collected as fees, expressed as basis points of the
    /// transfer amount, ie. increments of 0.01%
    pub transfer_fee_basis_points: u16,
}

impl TransferFee {
    /// The eighteen bytes that hold the fee.
    pub open spec fn spec_bytes(&self) -> Seq<u8> {
        spec_u64_bytes(self.epoch) + spec_u64_bytes(self.maximum_fee) + spec_u16_bytes(
            self.transfer_fee_basis_points,
        )
    }

    /// Reads the fee stored in `src` from `at` on.
    pub fn unpack_at(src: &[u8], at: usize) -> (r: Self)
        requires
            at + 18 <= src@.len(),
        ensures
            r.spec_bytes() == src@.subrange(at as int, at + 18),
    {
        let _ = src.len();
        let epoch = read_u64(src, at);
        let maximum_fee = read_u64(src, at + 8);
        let transfer_fee_basis_points = read_u16(src, at + 16);
        let r = TransferFee { epoch, maximum_fee, transfer_fee_basis_points };
        assert(r.spec_bytes() =~= src@.subrange(at as int, at + 18));
        r
    }

    /// Writes the fee over the eighteen bytes of `dst` from `at` on.
    pub fn pack_at(&self, dst: &mut [u8], at: usize)
        requires
            at + 18 <= old(dst)@.len(),
        ensures
            final(dst)@.len() == old(dst)@.len(),
            final(dst)@ == splice(old(dst)@, at as int, self.spec_bytes()),
    {
        let _ = dst.len();
        write_u64_at(dst, at, self.epoch);
        write_u64_at(dst, at + 8, self.maximum_fee);
        write_u16_at(dst, at + 16, self.transfer_fee_basis_points);
        proof {
            reveal(splice);
        }
        assert(dst@ =~= splice(old(dst)@, at as int, self.spec_bytes()));
    }
}

/// Transfer fee extension data for mints.
#[derive(Clone, Copy, Debug, Default, PartialEq)]
pub struct TransferFeeConfig {
    /// Optional authority to set the fee
    pub transfer_fee_config_authority: OptionalNonZeroPubkey,
    /// Withdraw from mint instructions must be signed by this key
    pub withdraw_withheld_authority: OptionalNonZeroPubkey,
    /// Withheld transfer fee tokens that have been moved to the mint for withdrawal
    pub withheld_amount: u64,
    /// Older transfer fee, used if the current epoch < new_transfer_fee.epoch
    pub older_transfer_fee: TransferFee,
    /// Newer transfer fee, used if the current epoch >= new_transfer_fee.epoch
    pub newer_transfer_fee: TransferFee,
}

impl Extension for TransferFeeConfig {
    const TYPE: ExtensionType = ExtensionType::TransferFeeConfig;
}

impl Pod for TransferFeeConfig {
    const LEN: usize = 108;

    open spec fn spec_bytes(&self) -> Seq<u8> {
        self.transfer_fee_config_authority.0@ + self.withdraw_withheld_authority.0@
            + spec_u64_bytes(self.withheld_amount) + self.older_transfer_fee.spec_bytes()
            + self.newer_transfer_fee.spec_bytes()
    }

    open spec fn spec_default_bytes() -> Seq<u8> {
        zeros(64) + spec_u64_bytes(0) + (spec_u64_bytes(0) + spec_u64_bytes(0) + spec_u16_bytes(0))
            + (spec_u64_bytes(0) + spec_u64_bytes(0) + spec_u16_bytes(0))
    }

    fn unpack(src: &[u8]) -> (r: Self) {
        let r = TransferFeeConfig {
            transfer_fee_config_authority: OptionalNonZeroPubkey(read_key(src, 0)),
            withdraw_withheld_authority: OptionalNonZeroPubkey(read_key(src, 32)),
            withheld_amount: read_u64(src, 64),
            older_transfer_fee: TransferFee::unpack_at(src, 72),
            newer_transfer_fee: TransferFee::unpack_at(src, 90),
        };
        assert(r.spec_bytes() =~= src@.subrange(0, 32) + src@.subrange(32, 64) + src@.subrange(
            64,
            72,
        ) + src@.subrange(72, 90) + src@.subrange(90, 108));
        assert(r.spec_bytes() =~= src@);
        r
    }

    fn pack_into_slice(&self, dst: &mut [u8]) {
        let ghost onto = dst@;
        let ghost mut done = Seq::<u8>::empty();
        proof {
            assert(dst@.subrange(0, 0) =~= done);
            lemma_splice_next(dst@, onto, 0, self.transfer_fee_config_authority.0@, done);
            done = done + self.transfer_fee_config_authority.0@;
        }
        write_at(dst, 0, vstd::array::array_as_slice(&self.transfer_fee_config_authority.0.0));
        proof {
            lemma_splice_next(dst@, onto, 32, self.withdraw_withheld_authority.0@, done);
            done = done + self.withdraw_withheld_authority.0@;
        }
        write_at(dst, 32, vstd::array::array_as_slice(&self.withdraw_withheld_authority.0.0));
        proof {
            lemma_splice_next(dst@, onto, 64, spec_u64_bytes(self.withheld_amount), done);
            done = done + spec_u64_bytes(self.withheld_amount);
        }
        write_u64_at(dst, 64, self.withheld_amount);
        proof {
            lemma_splice_next(dst@, onto, 72, self.older_transfer_fee.spec_bytes(), done);
            done = done + self.older_transfer_fee.spec_bytes();
        }
        self.older_transfer_fee.pack_at(dst, 72);
        proof {
            lemma_splice_next(dst@, onto, 90, self.newer_transfer_fee.spec_bytes(), done);
            done = done + self.newer_transfer_fee.spec_bytes();
        }
        self.newer_transfer_fee.pack_at(dst, 90);
        assert(dst@ =~= dst@.subrange(0, 108));
    }

    fn default_value() -> (r: Self) {
        let zero: [u8; 32] = vstd::array::array_fill_for_copy_types(0u8);
        let fee = TransferFee { epoch: 0, maximum_fee: 0, transfer_fee_basis_points: 0 };
        let r = TransferFeeConfig {
            transfer_fee_config_authority: OptionalNonZeroPubkey(Pubkey(zero)),
            withdraw_withheld_authority: OptionalNonZeroPubkey(Pubkey(zero)),
            withheld_amount: 0,
            older_transfer_fee: fee,
            newer_transfer_fee: fee,
        };
        assert(zero@ + zero@ =~= zeros(64));
        assert(r.spec_bytes() =~= Self::spec_default_bytes());
        r
    }
}

/// Indicates that the Account owner authority cannot be changed
#[derive(Clone, Copy, Debug, Default, PartialEq)]
pub struct ImmutableOwner;

impl Extension for ImmutableOwner {
    const TYPE: ExtensionType = ExtensionType::ImmutableOwner;
}

impl Pod for ImmutableOwner {
    const LEN: usize = 0;

    open spec fn spec_bytes(&self) -> Seq<u8> {
        Seq::empty()
    }

    open spec fn spec_default_bytes() -> Seq<u8> {
        Seq::empty()
    }

    fn unpack(src: &[u8]) -> (r: Self) {
        assert(src@ =~= Seq::<u8>::empty());
        ImmutableOwner
    }

    fn pack_into_slice(&self, dst: &mut [u8]) {
        assert(dst@ =~= Seq::<u8>::empty());
    }

    fn default_value() -> (r: Self) {
        ImmutableOwner
    }
}

/// Indicates that the tokens from this account belong to a non-transferable
/// mint
#[derive(Clone, Copy, Debug, Default, PartialEq)]
pub struct NonTransferableAccount;

impl Extension for NonTransferableAccount {
    const TYPE: ExtensionType = ExtensionType::NonTransferableAccount;
}

impl Pod for NonTransferableAccount {
    const LEN: usize = 0;

    open spec fn spec_bytes(&self) -> Seq<u8> {
        Seq::empty()
    }

    open spec fn spec_default_bytes() -> Seq<u8> {
        Seq::empty()
    }

    fn unpack(src: &[u8]) -> (r: Self) {
        assert(src@ =~= Seq::<u8>::empty());
        NonTransferableAccount
    }

    fn pack_into_slice(&self, dst: &mut [u8]) {
        assert(dst@ =~= Seq::<u8>::empty());
    }

    fn default_value() -> (r: Self) {
        NonTransferableAccount
    }
}

/// Indicates that the tokens from this account belong to a mint with a
/// transfer hook
#[derive(Clone, Copy, Debug, Default, PartialEq)]
pub struct TransferHookAccount {
    /// Flag to indicate that the account is in the middle of a transfer
    pub transferring: PodBool,
}

impl Extension for TransferHookAccount {
    const TYPE: ExtensionType = ExtensionType::TransferHookAccount;
}

impl Pod for TransferHookAccount {
    const LEN: usize = 1;

    open spec fn spec_bytes(&self) -> Seq<u8> {
        seq![self.transferring.0]
    }

    open spec fn spec_default_bytes() -> Seq<u8> {
        seq![0u8]
    }

    fn unpack(src: &[u8]) -> (r: Self) {
        let r = TransferHookAccount { transferring: PodBool(src[0]) };
        assert(r.spec_bytes() =~= src@);
        r
    }

    fn pack_into_slice(&self, dst: &mut [u8]) {
        dst[0] = self.transferring.0;
        assert(dst@ =~= self.spec_bytes());
    }

    fn default_value() -> (r: Self) {
        TransferHookAccount { transferring: PodBool(0) }
    }
}

/// Metadata pointer extension data for mints.
#[derive(Clone, Copy, Debug, Default, PartialEq)]
pub struct MetadataPointer {
    /// Authority that can set the metadata address
    pub authority: OptionalNonZeroPubkey,
    /// Account address that holds the metadata
    pub metadata_address: OptionalNonZeroPubkey,
}

impl Extension for MetadataPointer {
    const TYPE: ExtensionType = ExtensionType::MetadataPointer;
}

impl Pod for MetadataPointer {
    const LEN: usize = 64;

    open spec fn spec_bytes(&self) -> Seq<u8> {
        self.authority.0@ + self.metadata_address.0@
    }

    open spec fn spec_default_bytes() -> Seq<u8> {
        zeros(64)
    }

    fn unpack(src: &[u8]) -> (r: Self) {
        let r = MetadataPointer {
            authority: OptionalNonZeroPubkey(read_key(src, 0)),
            metadata_address: OptionalNonZeroPubkey(read_key(src, 32)),
        };
        assert(r.spec_bytes() =~= src@);
        r
    }

    fn pack_into_slice(&self, dst: &mut [u8]) {
        write_at(dst, 0, vstd::array::array_as_slice(&self.authority.0.0));
        write_at(dst, 32, vstd::array::array_as_slice(&self.metadata_address.0.0));
        proof {
            reveal(splice);
        }
        assert(dst@ =~= self.spec_bytes());
    }

    fn default_value() -> (r: Self) {
        let zero: [u8; 32] = vstd::array::array_fill_for_copy_types(0u8);
        let r = MetadataPointer {
            authority: OptionalNonZeroPubkey(Pubkey(zero)),
            metadata_address: OptionalNonZeroPubkey(Pubkey(zero)),
        };
        assert(r.spec_bytes() =~= zeros(64));
        r
    }
}

/// Padding a mint account to be exactly `MULTISIG_LEN`.
/// We need to pad 185 bytes, since the multi-signature record has 355 bytes,
/// a token account 165, the kind marker 1, a type tag 2 and a length field 2.
/// 355 - 165 - 1 - 2 - 2 = 185
#[derive(Clone, Copy, Debug, PartialEq)]
pub struct MintPaddingTest {
    /// First part of the padding
    pub padding1: [u8; 128],
    /// Second part of the padding
    pub padding2: [u8; 48],
    /// Exact value needed to finish the padding
    pub padding3: [u8; 9],
}

impl Extension for MintPaddingTest {
    const TYPE: ExtensionType = ExtensionType::MintPaddingTest;
}

impl Default for MintPaddingTest {
    fn default() -> (r: Self)
        ensures
            r.spec_bytes() == MintPaddingTest::spec_default_bytes(),
    {
        MintPaddingTest::default_value()
    }
}

impl Pod for MintPaddingTest {
    const LEN: usize = 185;

    open spec fn spec_bytes(&self) -> Seq<u8> {
        self.padding1@ + self.padding2@ + self.padding3@
    }

    open spec fn spec_default_bytes() -> Seq<u8> {
        Seq::new(128, |i: int| 1u8) + Seq::new(48, |i: int| 2u8) + Seq::new(9, |i: int| 3u8)
    }

    fn unpack(src: &[u8]) -> (r: Self) {
        let r = MintPaddingTest {
            padding1: array_from_slice::<128>(src, 0),
            padding2: array_from_slice::<48>(src, 128),
            padding3: array_from_slice::<9>(src, 176),
        };
        assert(r.spec_bytes() =~= src@);
        r
    }

    fn pack_into_slice(&self, dst: &mut [u8]) {
        write_at(dst, 0, vstd::array::array_as_slice(&self.padding1));
        write_at(dst, 128, vstd::array::array_as_slice(&self.padding2));
        write_at(dst, 176, vstd::array::array_as_slice(&self.padding3));
        proof {
            reveal(splice);
        }
        assert(dst@ =~= self.spec_bytes());
    }

    fn default_value() -> (r: Self) {
        let r = MintPaddingTest {
            padding1: vstd::array::array_fill_for_copy_types(1u8),
            padding2: vstd::array::array_fill_for_copy_types(2u8),
            padding3: vstd::array::array_fill_for_copy_types(3u8),
        };
        assert(r.padding1@ =~= Seq::new(128, |i: int| 1u8));
        assert(r.padding2@ =~= Seq::new(48, |i: int| 2u8));
        assert(r.padding3@ =~= Seq::new(9, |i: int| 3u8));
        r
    }
}

/// Account version of the MintPadding
#[derive(Clone, Copy, Debug, Default, PartialEq)]
pub struct AccountPaddingTest(pub MintPaddingTest);

impl Extension for AccountPaddingTest {
    const TYPE: ExtensionType = ExtensionType::AccountPaddingTest;
}

impl Pod for AccountPaddingTest {
    const LEN: usize = 185;

    open spec fn spec_bytes(&self) -> Seq<u8> {
        self.0.spec_bytes()
    }

    open spec fn spec_default_bytes() -> Seq<u8> {
        MintPaddingTest::spec_default_bytes()
    }

    fn unpack(src: &[u8]) -> (r: Self) {
        AccountPaddingTest(MintPaddingTest::unpack(src))
    }

    fn pack_into_slice(&self, dst: &mut [u8]) {
        self.0.pack_into_slice(dst);
    }

    fn default_value() -> (r: Self) {
        AccountPaddingTest(MintPaddingTest::default_value())
    }
}

/// A mint extension of variable length without contents of its own.
#[derive(Clone, Copy, Debug, Default, PartialEq)]
pub struct VariableLenMintTest;

impl Extension for VariableLenMintTest {
    const TYPE: ExtensionType = ExtensionType::VariableLenMintTest;
}

/// The registry and the values agree: each value has the type that it is
/// stored under and the length that the registry gives that type.
pub proof fn lemma_value_layouts()
    ensures
        MintCloseAuthority::TYPE == ExtensionType::MintCloseAuthority,
        MintCloseAuthority::LEN == ExtensionType::MintCloseAuthority.spec_type_len(),
        TransferFeeAmount::TYPE == ExtensionType::TransferFeeAmount,
        TransferFeeAmount::LEN == ExtensionType::TransferFeeAmount.spec_type_len(),
        TransferFeeConfig::TYPE == ExtensionType::TransferFeeConfig,
        TransferFeeConfig::LEN == ExtensionType::TransferFeeConfig.spec_type_len(),
        ImmutableOwner::TYPE == ExtensionType::ImmutableOwner,
        ImmutableOwner::LEN == ExtensionType::ImmutableOwner.spec_type_len(),
        NonTransferableAccount::TYPE == ExtensionType::NonTransferableAccount,
        NonTransferableAccount::LEN == ExtensionType::NonTransferableAccount.spec_type_len(),
        TransferHookAccount::TYPE == ExtensionType::TransferHookAccount,
        TransferHookAccount::LEN == ExtensionType::TransferHookAccount.spec_type_len(),
        MetadataPointer::TYPE == ExtensionType::MetadataPointer,
        MetadataPointer::LEN == ExtensionType::MetadataPointer.spec_type_len(),
        MintPaddingTest::TYPE == ExtensionType::MintPaddingTest,
        MintPaddingTest::LEN == ExtensionType::MintPaddingTest.spec_type_len(),
        AccountPaddingTest::TYPE == ExtensionType::AccountPaddingTest,
        AccountPaddingTest::LEN == ExtensionType::AccountPaddingTest.spec_type_len(),
        VariableLenMintTest::TYPE == ExtensionType::VariableLenMintTest,
{
}

} // verus!
