//! The record of one extra account, and the account it resolves to.

use crate::error::{AccountResolutionError, ProgramError};
use crate::extension::values::{array_from_slice, PodBool};
use crate::pod::{splice, write_at};
use crate::resolution::pda::{spec_parts, spec_program_address, try_find_program_address};
use crate::resolution::seeds::{spec_seed_views, spec_unpack_seeds, Seed, SeedView};
use crate::state::Pubkey;
use vstd::prelude::*;

verus! {

/// An account of an instruction: its address and what the instruction may do
/// with it.
#[derive(Clone, Copy, Debug, Default, PartialEq, Eq)]
pub struct AccountMeta {
    /// An account's public key.
    pub pubkey: Pubkey,
    /// True if an `Instruction` requires a `Transaction` signature matching `pubkey`.
    pub is_signer: bool,
    /// True if the account data or metadata may be mutated during program execution.
    pub is_writable: bool,
}

/// What an account of an instruction holds, with its address as a sequence of
/// bytes.
pub struct AccountMetaView {
    pub pubkey: Seq<u8>,
    pub is_signer: bool,
    pub is_writable: bool,
}

impl View for AccountMeta {
    type V = AccountMetaView;

    open spec fn view(&self) -> AccountMetaView {
        AccountMetaView {
            pubkey: self.pubkey@,
            is_signer: self.is_signer,
            is_writable: self.is_writable,
        }
    }
}

impl AccountMeta {
    /// A writable account.
    pub fn new(pubkey: Pubkey, is_signer: bool) -> (r: AccountMeta)
        ensures
            r@ == (AccountMetaView { pubkey: pubkey@, is_signer, is_writable: true }),
    {
        AccountMeta { pubkey, is_signer, is_writable: true }
    }

    /// A read-only account.
    pub fn new_readonly(pubkey: Pubkey, is_signer: bool) -> (r: AccountMeta)
        ensures
            r@ == (AccountMetaView { pubkey: pubkey@, is_signer, is_writable: false }),
    {
        AccountMeta { pubkey, is_signer, is_writable: false }
    }
}

/// The views of the accounts of `metas`.
pub open spec fn spec_meta_views(metas: Seq<AccountMeta>) -> Seq<AccountMetaView> {
    Seq::new(metas.len(), |i: int| metas[i]@)
}

/// An account as an instruction is handed it: its address, what may be done
/// with it, and the data it holds at that moment.
#[derive(Clone, Debug, Default, PartialEq, Eq)]
pub struct AccountSnapshot {
    /// Public key of the account
    pub key: Pubkey,
    /// Was the transaction signed by this account's public key?
    pub is_signer: bool,
    /// Is the account writable?
    pub is_writable: bool,
    /// The data held in this account
    pub data: Vec<u8>,
}

impl AccountSnapshot {
    /// The account as an instruction names it.
    pub open spec fn spec_meta(&self) -> AccountMetaView {
        AccountMetaView {
            pubkey: self.key@,
            is_signer: self.is_signer,
            is_writable: self.is_writable,
        }
    }

    /// The account as an instruction names it.
    pub fn to_meta(&self) -> (r: AccountMeta)
        ensures
            r@ == self.spec_meta(),
    {
        AccountMeta { pubkey: self.key, is_signer: self.is_signer, is_writable: self.is_writable }
    }
}

/// An instruction under construction: the program it calls, the accounts it
/// names and its data.
#[derive(Clone, Debug, Default, PartialEq, Eq)]
pub struct Instruction {
    /// Pubkey of the program that executes this instruction.
    pub program_id: Pubkey,
    /// Metadata describing accounts that should be passed to the program.
    pub accounts: Vec<AccountMeta>,
    /// Opaque data passed to the program for its own interpretation.
    pub data: Vec<u8>,
}

/// Length of a stored record of an extra account.
pub const EXTRA_ACCOUNT_META_LEN: usize = 35;

/// The record of one extra account: either its address, or the seeds from
/// which its address is derived, and whether it signs and may be written.
#[derive(Clone, Copy, Debug, Default, PartialEq, Eq)]
pub struct ExtraAccountMeta {
    /// Discriminator to tell whether this represents a standard pubkey (0) or
    /// the seeds of a derived address (1)
    pub discriminator: u8,
    /// This `address_config` field can either be the pubkey itself, or the
    /// seeds of the address, packed
    pub address_config: [u8; 32],
    /// Whether the account should sign
    pub is_signer: PodBool,
    /// Whether the account should be writable
    pub is_writable: PodBool,
}

/// What a record holds, with its address configuration as a sequence of
/// bytes and its flags as the bytes that store them.
pub struct ExtraAccountMetaView {
    pub discriminator: u8,
    pub address_config: Seq<u8>,
    pub is_signer: u8,
    pub is_writable: u8,
}

impl View for ExtraAccountMeta {
    type V = ExtraAccountMetaView;

    open spec fn view(&self) -> ExtraAccountMetaView {
        ExtraAccountMetaView {
            discriminator: self.discriminator,
            address_config: self.address_config@,
            is_signer: self.is_signer.0,
            is_writable: self.is_writable.0,
        }
    }
}

/// The views of the records of `metas`.
pub open spec fn spec_extra_views(metas: Seq<ExtraAccountMeta>) -> Seq<ExtraAccountMetaView> {
    Seq::new(metas.len(), |i: int| metas[i]@)
}

/// The thirty-five bytes that store a record.
pub open spec fn spec_meta_bytes(meta: ExtraAccountMetaView) -> Seq<u8> {
    seq![meta.discriminator] + meta.address_config + seq![meta.is_signer, meta.is_writable]
}

/// The record that thirty-five bytes store.
pub open spec fn spec_unpack_meta(bytes: Seq<u8>) -> ExtraAccountMetaView {
    ExtraAccountMetaView {
        discriminator: bytes[0],
        address_config: bytes.subrange(1, 33),
        is_signer: bytes[33],
        is_writable: bytes[34],
    }
}

/// The bytes of one seed, taken from the instruction data, from the addresses
/// of the accounts that are resolved so far, or from their data.
///
/// A seed that reaches past the instruction data is
/// `InstructionDataTooSmall`; one that names an account that is not resolved
/// yet is `AccountNotFound`; one that names an account whose data is not
/// known is `AccountDataNotFound`, and one that reaches past that data
/// `AccountDataTooSmall`.
pub open spec fn spec_resolve_seed(
    seed: SeedView,
    accounts: Seq<AccountMetaView>,
    account_data: Seq<Option<Seq<u8>>>,
    instruction_data: Seq<u8>,
) -> Result<Seq<u8>, ProgramError> {
    match seed {
        SeedView::Uninitialized => Ok(Seq::empty()),
        SeedView::Literal { bytes } => Ok(bytes),
        SeedView::InstructionData { index, length } => {
            if index + length > instruction_data.len() {
                Err(ProgramError::Resolution(AccountResolutionError::InstructionDataTooSmall))
            } else {
                Ok(instruction_data.subrange(index as int, index + length))
            }
        },
        SeedView::AccountKey { index } => {
            if index >= accounts.len() {
                Err(ProgramError::Resolution(AccountResolutionError::AccountNotFound))
            } else {
                Ok(accounts[index as int].pubkey)
            }
        },
        SeedView::AccountData { account_index, data_index, length } => {
            if account_index >= account_data.len() || account_data[account_index as int] is None {
                Err(ProgramError::Resolution(AccountResolutionError::AccountDataNotFound))
            } else if data_index + length > account_data[account_index as int].unwrap().len() {
                Err(ProgramError::Resolution(AccountResolutionError::AccountDataTooSmall))
            } else {
                Ok(
                    account_data[account_index as int].unwrap().subrange(
                        data_index as int,
                        data_index + length,
                    ),
                )
            }
        },
    }
}

/// The bytes of the first `upto` seeds, in their order; the first seed that
/// cannot be resolved gives the error.
pub open spec fn spec_resolve_seeds(
    seeds: Seq<SeedView>,
    upto: int,
    accounts: Seq<AccountMetaView>,
    account_data: Seq<Option<Seq<u8>>>,
    instruction_data: Seq<u8>,
) -> Result<Seq<Seq<u8>>, ProgramError>
    decreases upto,
{
    if upto <= 0 {
        Ok(Seq::empty())
    } else {
        match spec_resolve_seeds(seeds, upto - 1, accounts, account_data, instruction_data) {
            Err(e) => Err(e),
            Ok(front) => match spec_resolve_seed(
                seeds[upto - 1],
                accounts,
                account_data,
                instruction_data,
            ) {
                Err(e) => Err(e),
                Ok(bytes) => Ok(front.push(bytes)),
            },
        }
    }
}

/// The account that a record with seeds resolves to once the host has
/// derived the address `derived` from the seeds: the address with the
/// privileges of the record, or an `InvalidSeedConfig` where the host found
/// no address.
pub open spec fn spec_derived_account(meta: ExtraAccountMetaView, derived: Option<Seq<u8>>)
    -> Result<AccountMetaView, ProgramError> {
    match derived {
        None => Err(ProgramError::Resolution(AccountResolutionError::InvalidSeedConfig)),
        Some(address) => Ok(
            AccountMetaView {
                pubkey: address,
                is_signer: meta.is_signer != 0,
                is_writable: meta.is_writable != 0,
            },
        ),
    }
}

/// The account that a record resolves to.
///
/// A record with discriminator 0 holds the address. One with discriminator 1
/// holds seeds: they are unpacked (`spec_unpack_seeds`) and resolved
/// (`spec_resolve_seeds`), and the address is the one that the host derives
/// from them for `program_id`; where it finds none, the record is an
/// `InvalidSeedConfig`. Any other discriminator is `InvalidAccountData`. The
/// privileges are those of the record.
pub open spec fn spec_resolve(
    meta: ExtraAccountMetaView,
    accounts: Seq<AccountMetaView>,
    account_data: Seq<Option<Seq<u8>>>,
    instruction_data: Seq<u8>,
    program_id: Seq<u8>,
) -> Result<AccountMetaView, ProgramError> {
    if meta.discriminator == 0 {
        Ok(
            AccountMetaView {
                pubkey: meta.address_config,
                is_signer: meta.is_signer != 0,
                is_writable: meta.is_writable != 0,
            },
        )
    } else if meta.discriminator == 1 {
        match spec_unpack_seeds(meta.address_config, 0) {
            Err(e) => Err(e),
            Ok(seeds) => match spec_resolve_seeds(
                seeds,
                seeds.len() as int,
                accounts,
                account_data,
                instruction_data,
            ) {
                Err(e) => Err(e),
                Ok(parts) => spec_derived_account(meta, spec_program_address(parts, program_id)),
            },
        }
    } else {
        Err(ProgramError::InvalidAccountData)
    }
}

/// The data of the accounts of `list`, as sequences.
pub open spec fn spec_data_views(list: Seq<Option<Vec<u8>>>) -> Seq<Option<Seq<u8>>> {
    Seq::new(
        list.len(),
        |i: int|
            match list[i] {
                Some(d) => Some(d@),
                None => None,
            },
    )
}

/// Copies the bytes of `src` from `from` up to `to`.
pub fn copy_range(src: &[u8], from: usize, to: usize) -> (r: Vec<u8>)
    requires
        from <= to <= src@.len(),
    ensures
        r@ == src@.subrange(from as int, to as int),
{
    let mut out: Vec<u8> = Vec::new();
    let mut i: usize = from;
    while i < to
        invariant
            from <= i <= to <= src@.len(),
            out@ == src@.subrange(from as int, i as int),
        decreases to - i,
    {
        out.push(src[i]);
        assert(out@ =~= src@.subrange(from as int, i + 1));
        i += 1;
    }
    out
}

/// Resolves one seed: see `spec_resolve_seed`.
pub fn resolve_seed(
    seed: &Seed,
    accounts: &[AccountMeta],
    account_data_list: &Vec<Option<Vec<u8>>>,
    instruction_data: &[u8],
) -> (r: Result<Vec<u8>, ProgramError>)
    ensures
        match spec_resolve_seed(
            seed@,
            spec_meta_views(accounts@),
            spec_data_views(account_data_list@),
            instruction_data@,
        ) {
            Ok(bytes) => r matches Ok(found) && found@ == bytes,
            Err(e) => r matches Err(f) && f == e,
        },
{
    match seed {
        Seed::Uninitialized => Ok(Vec::new()),
        Seed::Literal { bytes } => Ok(copy_range(bytes.as_slice(), 0, bytes.len())),
        Seed::InstructionData { index, length } => {
            let arg_start = *index as usize;
            let arg_end = arg_start + *length as usize;
            if arg_end > instruction_data.len() {
                return Err(
                    ProgramError::Resolution(AccountResolutionError::InstructionDataTooSmall),
                );
            }
            Ok(copy_range(instruction_data, arg_start, arg_end))
        },
        Seed::AccountKey { index } => {
            let account_index = *index as usize;
            if account_index >= accounts.len() {
                return Err(ProgramError::Resolution(AccountResolutionError::AccountNotFound));
            }
            let key = &accounts[account_index].pubkey;
            Ok(copy_range(vstd::array::array_as_slice(&key.0), 0, 32))
        },
        Seed::AccountData { account_index, data_index, length } => {
            let account_index = *account_index as usize;
            if account_index >= account_data_list.len() {
                return Err(ProgramError::Resolution(AccountResolutionError::AccountDataNotFound));
            }
            match &account_data_list[account_index] {
                None => Err(ProgramError::Resolution(AccountResolutionError::AccountDataNotFound)),
                Some(account_data) => {
                    let arg_start = *data_index as usize;
                    let arg_end = arg_start + *length as usize;
                    if account_data.len() < arg_end {
                        return Err(
                            ProgramError::Resolution(AccountResolutionError::AccountDataTooSmall),
                        );
                    }
                    Ok(copy_range(account_data.as_slice(), arg_start, arg_end))
                },
            }
        },
    }
}

impl ExtraAccountMeta {
    /// Create a `ExtraAccountMeta` from a public key,
    /// thus representing a standard `AccountMeta`
    pub fn new_with_pubkey(pubkey: &Pubkey, is_signer: bool, is_writable: bool) -> (r: Result<
        Self,
        ProgramError,
    >)
        ensures
            r matches Ok(meta) && meta.discriminator == 0 && meta.address_config@ == pubkey@
                && meta.is_signer.0 == (if is_signer { 1u8 } else { 0u8 }) && meta.is_writable.0
                == (if is_writable { 1u8 } else { 0u8 }),
    {
        Ok(
            Self {
                discriminator: 0,
                address_config: pubkey.0,
                is_signer: PodBool::from_bool(is_signer),
                is_writable: PodBool::from_bool(is_writable),
            },
        )
    }

    /// Create a `ExtraAccountMeta` from a list of seed configurations,
    /// thus representing a PDA
    pub fn new_with_seeds(seeds: &[Seed], is_signer: bool, is_writable: bool) -> (r: Result<
        Self,
        ProgramError,
    >)
        ensures
            match crate::resolution::seeds::spec_pack_address_config(spec_seed_views(seeds@)) {
                Ok(bytes) => r matches Ok(meta) && meta.discriminator == 1
                    && meta.address_config@ == bytes && meta.is_signer.0 == (if is_signer {
                    1u8
                } else {
                    0u8
                }) && meta.is_writable.0 == (if is_writable { 1u8 } else { 0u8 }),
                Err(e) => r matches Err(f) && f == e,
            },
    {
        match Seed::pack_into_address_config(seeds) {
            Ok(address_config) => Ok(
                Self {
                    discriminator: 1,
                    address_config,
                    is_signer: PodBool::from_bool(is_signer),
                    is_writable: PodBool::from_bool(is_writable),
                },
            ),
            Err(e) => Err(e),
        }
    }

    /// The record of an account that an instruction names.
    pub fn from_account_meta(meta: &AccountMeta) -> (r: Self)
        ensures
            r.discriminator == 0,
            r.address_config@ == meta.pubkey@,
            r.is_signer.0 == (if meta.is_signer { 1u8 } else { 0u8 }),
            r.is_writable.0 == (if meta.is_writable { 1u8 } else { 0u8 }),
    {
        Self {
            discriminator: 0,
            address_config: meta.pubkey.0,
            is_signer: PodBool::from_bool(meta.is_signer),
            is_writable: PodBool::from_bool(meta.is_writable),
        }
    }

    /// The record of an account that an instruction was handed.
    pub fn from_account_info(info: &AccountSnapshot) -> (r: Self)
        ensures
            r.discriminator == 0,
            r.address_config@ == info.key@,
            r.is_signer.0 == (if info.is_signer { 1u8 } else { 0u8 }),
            r.is_writable.0 == (if info.is_writable { 1u8 } else { 0u8 }),
    {
        Self {
            discriminator: 0,
            address_config: info.key.0,
            is_signer: PodBool::from_bool(info.is_signer),
            is_writable: PodBool::from_bool(info.is_writable),
        }
    }

    /// The account that a record with an address stands for; a record that
    /// holds seeds stands for none (`AccountTypeNotAccountMeta`).
    pub fn to_account_meta(&self) -> (r: Result<AccountMeta, ProgramError>)
        ensures
            self.discriminator == 0 ==> (r matches Ok(meta) && meta@ == (AccountMetaView {
                pubkey: self.address_config@,
                is_signer: self.is_signer.0 != 0,
                is_writable: self.is_writable.0 != 0,
            })),
            self.discriminator != 0 ==> (r matches Err(e) && e == ProgramError::Resolution(
                AccountResolutionError::AccountTypeNotAccountMeta,
            )),
    {
        if self.discriminator == 0 {
            Ok(
                AccountMeta {
                    pubkey: Pubkey(self.address_config),
                    is_signer: self.is_signer.get(),
                    is_writable: self.is_writable.get(),
                },
            )
        } else {
            Err(ProgramError::Resolution(AccountResolutionError::AccountTypeNotAccountMeta))
        }
    }

    /// The account that the record resolves to once the host has derived
    /// the address `derived` from its seeds: see `spec_derived_account`.
    pub fn derived_account(&self, derived: Option<Pubkey>) -> (r: Result<AccountMeta, ProgramError>)
        ensures
            match spec_derived_account(self@, crate::state::spec_key_view(derived)) {
                Ok(meta) => r matches Ok(found) && found@ == meta,
                Err(e) => r matches Err(f) && f == e,
            },
    {
        match derived {
            Some(pubkey) => Ok(
                AccountMeta {
                    pubkey,
                    is_signer: self.is_signer.get(),
                    is_writable: self.is_writable.get(),
                },
            ),
            None => Err(ProgramError::Resolution(AccountResolutionError::InvalidSeedConfig)),
        }
    }

    /// Reads the record stored in `src` from `at` on.
    pub fn unpack_at(src: &[u8], at: usize) -> (r: Self)
        requires
            at + EXTRA_ACCOUNT_META_LEN <= src@.len(),
        ensures
            spec_meta_bytes(r@) == src@.subrange(at as int, at + EXTRA_ACCOUNT_META_LEN),
            r@ == spec_unpack_meta(src@.subrange(at as int, at + EXTRA_ACCOUNT_META_LEN)),
    {
        let _ = src.len();
        let r = Self {
            discriminator: src[at],
            address_config: array_from_slice::<32>(src, at + 1),
            is_signer: PodBool(src[at + 33]),
            is_writable: PodBool(src[at + 34]),
        };
        assert(spec_meta_bytes(r@) =~= src@.subrange(at as int, at + EXTRA_ACCOUNT_META_LEN));
        assert(r@.address_config =~= src@.subrange(at as int, at + EXTRA_ACCOUNT_META_LEN).subrange(
            1,
            33,
        ));
        r
    }

    /// Writes the record over the thirty-five bytes of `dst` from `at` on.
    pub fn pack_at(&self, dst: &mut [u8], at: usize)
        requires
            at + EXTRA_ACCOUNT_META_LEN <= old(dst)@.len(),
        ensures
            final(dst)@.len() == old(dst)@.len(),
            final(dst)@ == splice(old(dst)@, at as int, spec_meta_bytes(self@)),
    {
        let _ = dst.len();
        dst[at] = self.discriminator;
        write_at(dst, at + 1, vstd::array::array_as_slice(&self.address_config));
        dst[at + 33] = self.is_signer.0;
        dst[at + 34] = self.is_writable.0;
        proof {
            reveal(splice);
        }
        assert(dst@ =~= splice(old(dst)@, at as int, spec_meta_bytes(self@)));
    }

    /// Resolve an `ExtraAccountMeta` into an `AccountMeta`, potentially
    /// resolving a program-derived address (PDA) if necessary: see
    /// `spec_resolve`.
    pub fn resolve(
        &self,
        account_data_list: &Vec<Option<Vec<u8>>>,
        accounts: &[AccountMeta],
        instruction_data: &[u8],
        program_id: &Pubkey,
    ) -> (r: Result<AccountMeta, ProgramError>)
        ensures
            match spec_resolve(
                self@,
                spec_meta_views(accounts@),
                spec_data_views(account_data_list@),
                instruction_data@,
                program_id@,
            ) {
                Ok(meta) => r matches Ok(found) && found@ == meta,
                Err(e) => r matches Err(f) && f == e,
            },
    {
        if self.discriminator == 0 {
            self.to_account_meta()
        } else if self.discriminator == 1 {
            let seeds = match Seed::unpack_address_config(&self.address_config) {
                Ok(s) => s,
                Err(e) => {
                    return Err(e);
                },
            };
            let ghost views = spec_seed_views(seeds@);
            let ghost metas = spec_meta_views(accounts@);
            let ghost datas = spec_data_views(account_data_list@);
            let mut parts: Vec<Vec<u8>> = Vec::new();
            let mut i: usize = 0;
            assert(spec_parts(parts@) =~= Seq::<Seq<u8>>::empty());
            while i < seeds.len()
                invariant
                    i <= seeds@.len(),
                    self.discriminator == 1,
                    spec_unpack_seeds(self.address_config@, 0) == Ok::<
                        Seq<SeedView>,
                        ProgramError,
                    >(views),
                    views == spec_seed_views(seeds@),
                    metas == spec_meta_views(accounts@),
                    datas == spec_data_views(account_data_list@),
                    spec_resolve_seeds(views, i as int, metas, datas, instruction_data@) == Ok::<
                        Seq<Seq<u8>>,
                        ProgramError,
                    >(spec_parts(parts@)),
                decreases seeds@.len() - i,
            {
                assert(views[i as int] == seeds@[i as int]@);
                match resolve_seed(&seeds[i], accounts, account_data_list, instruction_data) {
                    Ok(bytes) => {
                        proof {
                            assert(spec_parts(parts@).push(bytes@) =~= spec_parts(
                                parts@.push(bytes),
                            ));
                        }
                        parts.push(bytes);
                    },
                    Err(e) => {
                        proof {
                            lemma_resolve_seeds_error(
                                views,
                                i + 1,
                                seeds@.len() as int,
                                metas,
                                datas,
                                instruction_data@,
                            );
                        }
                        return Err(e);
                    },
                }
                i += 1;
            }
            self.derived_account(try_find_program_address(&parts, program_id))
        } else {
            Err(ProgramError::InvalidAccountData)
        }
    }
}

/// Once a seed cannot be resolved, the seeds that follow do not change the
/// error.
pub proof fn lemma_resolve_seeds_error(
    seeds: Seq<SeedView>,
    failed: int,
    upto: int,
    accounts: Seq<AccountMetaView>,
    account_data: Seq<Option<Seq<u8>>>,
    instruction_data: Seq<u8>,
)
    requires
        0 <= failed <= upto,
        spec_resolve_seeds(seeds, failed, accounts, account_data, instruction_data) is Err,
    ensures
        spec_resolve_seeds(seeds, upto, accounts, account_data, instruction_data)
            == spec_resolve_seeds(seeds, failed, accounts, account_data, instruction_data),
    decreases upto - failed,
{
    if failed < upto {
        lemma_resolve_seeds_error(
            seeds,
            failed,
            upto - 1,
            accounts,
            account_data,
            instruction_data,
        );
    }
}

/// A record whose seeds name an account that is not resolved yet, or the
/// data of one, does not resolve: a reference forward in the list fails.
pub proof fn lemma_forward_reference_fails(
    meta: ExtraAccountMetaView,
    accounts: Seq<AccountMetaView>,
    account_data: Seq<Option<Seq<u8>>>,
    instruction_data: Seq<u8>,
    program_id: Seq<u8>,
    k: int,
)
    requires
        meta.discriminator == 1,
        spec_unpack_seeds(meta.address_config, 0) is Ok,
        0 <= k < spec_unpack_seeds(meta.address_config, 0).unwrap().len(),
        match spec_unpack_seeds(meta.address_config, 0).unwrap()[k] {
            SeedView::AccountKey { index } => index >= accounts.len(),
            SeedView::AccountData { account_index, .. } => account_index >= account_data.len(),
            _ => false,
        },
    ensures
        spec_resolve(meta, accounts, account_data, instruction_data, program_id) is Err,
{
    let seeds = spec_unpack_seeds(meta.address_config, 0).unwrap();
    assert(spec_resolve_seeds(seeds, k + 1, accounts, account_data, instruction_data) is Err);
    lemma_resolve_seeds_error(
        seeds,
        k + 1,
        seeds.len() as int,
        accounts,
        account_data,
        instruction_data,
    );
}

/// Whether an account with the address `pubkey` is among `accounts`.
pub open spec fn spec_known(accounts: Seq<AccountMetaView>, pubkey: Seq<u8>) -> bool {
    exists|i: int| 0 <= i < accounts.len() && (#[trigger] accounts[i]).pubkey == pubkey
}

/// Whether an account with the address `pubkey` signs somewhere in `accounts`.
pub open spec fn spec_signs(accounts: Seq<AccountMetaView>, pubkey: Seq<u8>) -> bool {
    exists|i: int|
        0 <= i < accounts.len() && (#[trigger] accounts[i]).pubkey == pubkey
            && accounts[i].is_signer
}

/// Whether an account with the address `pubkey` may be written somewhere in
/// `accounts`.
pub open spec fn spec_writes(accounts: Seq<AccountMetaView>, pubkey: Seq<u8>) -> bool {
    exists|i: int|
        0 <= i < accounts.len() && (#[trigger] accounts[i]).pubkey == pubkey
            && accounts[i].is_writable
}

/// The account `meta` with no privilege beyond those that the instruction
/// grants its address already: where the address is among `accounts` and
/// signs nowhere there, it does not sign, and likewise for writing. An address
/// that the instruction does not name yet keeps what the record asks for.
pub open spec fn spec_de_escalate(meta: AccountMetaView, accounts: Seq<AccountMetaView>)
    -> AccountMetaView {
    AccountMetaView {
        pubkey: meta.pubkey,
        is_signer: meta.is_signer && (!spec_known(accounts, meta.pubkey) || spec_signs(
            accounts,
            meta.pubkey,
        )),
        is_writable: meta.is_writable && (!spec_known(accounts, meta.pubkey) || spec_writes(
            accounts,
            meta.pubkey,
        )),
    }
}

/// De-escalate an account meta if necessary
pub fn de_escalate_account_meta(account_meta: &mut AccountMeta, account_metas: &[AccountMeta])
    ensures
        final(account_meta)@ == spec_de_escalate(
            old(account_meta)@,
            spec_meta_views(account_metas@),
        ),
{
    // This is a little tricky to read, but the idea is to see if
    // this account is marked as writable or signer anywhere in
    // the instruction at the start. If so, DON'T escalate it to
    // be a writer or signer in the CPI
    let ghost views = spec_meta_views(account_metas@);
    let ghost pubkey = account_meta.pubkey@;
    let mut found = false;
    let mut is_signer = false;
    let mut is_writable = false;
    let mut i: usize = 0;
    while i < account_metas.len()
        invariant
            i <= account_metas@.len(),
            views == spec_meta_views(account_metas@),
            pubkey == account_meta.pubkey@,
            *account_meta == *old(account_meta),
            found == spec_known(views.subrange(0, i as int), pubkey),
            is_signer == spec_signs(views.subrange(0, i as int), pubkey),
            is_writable == spec_writes(views.subrange(0, i as int), pubkey),
        decreases account_metas@.len() - i,
    {
        let ghost before = views.subrange(0, i as int);
        let ghost after = views.subrange(0, i + 1);
        let x = &account_metas[i];
        let same = x.pubkey.equals(&account_meta.pubkey);
        proof {
            assert(after[i as int] == views[i as int]);
            assert(views[i as int] == account_metas@[i as int]@);
            assert forall|k: int| 0 <= k < i implies after[k] == before[k] by {}
            if spec_known(before, pubkey) {
                let k = choose|k: int| 0 <= k < before.len() && (#[trigger] before[k]).pubkey
                    == pubkey;
                assert(after[k].pubkey == pubkey);
            }
            if spec_signs(before, pubkey) {
                let k = choose|k: int|
                    0 <= k < before.len() && (#[trigger] before[k]).pubkey == pubkey
                        && before[k].is_signer;
                assert(after[k].pubkey == pubkey && after[k].is_signer);
            }
            if spec_writes(before, pubkey) {
                let k = choose|k: int|
                    0 <= k < before.len() && (#[trigger] before[k]).pubkey == pubkey
                        && before[k].is_writable;
                assert(after[k].pubkey == pubkey && after[k].is_writable);
            }
            if spec_known(after, pubkey) && !same {
                let k = choose|k: int| 0 <= k < after.len() && (#[trigger] after[k]).pubkey
                    == pubkey;
                assert(before[k].pubkey == pubkey);
            }
            if spec_signs(after, pubkey) && !(same && x.is_signer) {
                let k = choose|k: int|
                    0 <= k < after.len() && (#[trigger] after[k]).pubkey == pubkey
                        && after[k].is_signer;
                assert(before[k].pubkey == pubkey && before[k].is_signer);
            }
            if spec_writes(after, pubkey) && !(same && x.is_writable) {
                let k = choose|k: int|
                    0 <= k < after.len() && (#[trigger] after[k]).pubkey == pubkey
                        && after[k].is_writable;
                assert(before[k].pubkey == pubkey && before[k].is_writable);
            }
        }
        if same {
            found = true;
            is_signer = is_signer || x.is_signer;
            is_writable = is_writable || x.is_writable;
        }
        i += 1;
    }
    proof {
        assert(views.subrange(0, i as int) =~= views);
    }
    // If `found`, then the account was found somewhere in the instruction
    if found {
        if !is_signer && is_signer != account_meta.is_signer {
            // Existing account is *NOT* a signer already, but the CPI
            // wants it to be, so de-escalate to not be a signer
            account_meta.is_signer = false;
        }
        if !is_writable && is_writable != account_meta.is_writable {
            // Existing account is *NOT* writable already, but the CPI
            // wants it to be, so de-escalate to not be writable
            account_meta.is_writable = false;
        }
    }
}

/// De-escalation never escalates: the account signs and may be written only
/// where the record asked for it, and an account that the instruction names
/// already, nowhere as a signer or nowhere as writable, comes out without
/// that privilege.
pub proof fn lemma_de_escalation_never_escalates(
    meta: AccountMetaView,
    accounts: Seq<AccountMetaView>,
)
    ensures
        spec_de_escalate(meta, accounts).pubkey == meta.pubkey,
        spec_de_escalate(meta, accounts).is_signer ==> meta.is_signer,
        spec_de_escalate(meta, accounts).is_writable ==> meta.is_writable,
        spec_known(accounts, meta.pubkey) && !spec_signs(accounts, meta.pubkey)
            ==> !spec_de_escalate(meta, accounts).is_signer,
        spec_known(accounts, meta.pubkey) && !spec_writes(accounts, meta.pubkey)
            ==> !spec_de_escalate(meta, accounts).is_writable,
{
}

} // verus!
