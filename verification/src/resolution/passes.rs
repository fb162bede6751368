//! Resolving the extra accounts of an instruction, one after the other:
//! checking supplied accounts against them, and adding them to an
//! instruction.

use crate::error::{AccountResolutionError, ProgramError};
use crate::resolution::account::{
    copy_range, de_escalate_account_meta, lemma_forward_reference_fails, spec_data_views,
    spec_de_escalate, spec_extra_views,
    spec_meta_views, spec_resolve, AccountMeta, AccountMetaView, AccountSnapshot,
    ExtraAccountMetaView, Instruction,
};
use crate::resolution::seeds::{spec_unpack_seeds, SeedView};
use crate::resolution::state::{spec_load_metas, ExtraAccountMetaList};
use crate::state::Pubkey;
use crate::tlv::SplDiscriminate;
use vstd::prelude::*;

verus! {

/// What an account holds as an instruction is handed it.
pub struct AccountSnapshotView {
    pub key: Seq<u8>,
    pub is_signer: bool,
    pub is_writable: bool,
    pub data: Seq<u8>,
}

impl View for AccountSnapshot {
    type V = AccountSnapshotView;

    open spec fn view(&self) -> AccountSnapshotView {
        AccountSnapshotView {
            key: self.key@,
            is_signer: self.is_signer,
            is_writable: self.is_writable,
            data: self.data@,
        }
    }
}

/// The views of the accounts of `infos`.
pub open spec fn spec_snapshot_views(infos: Seq<AccountSnapshot>) -> Seq<AccountSnapshotView> {
    Seq::new(infos.len(), |i: int| infos[i]@)
}

/// The account `info` as an instruction names it.
pub open spec fn spec_meta_of(info: AccountSnapshotView) -> AccountMetaView {
    AccountMetaView { pubkey: info.key, is_signer: info.is_signer, is_writable: info.is_writable }
}

/// The accounts of `infos` as an instruction names them.
pub open spec fn spec_metas_of(infos: Seq<AccountSnapshotView>) -> Seq<AccountMetaView> {
    Seq::new(infos.len(), |i: int| spec_meta_of(infos[i]))
}

/// The data of the accounts of `infos`, all of it known.
pub open spec fn spec_data_of(infos: Seq<AccountSnapshotView>) -> Seq<Option<Seq<u8>>> {
    Seq::new(infos.len(), |i: int| Some(infos[i].data))
}

/// Whether the accounts of `infos` from the one that stands for the extra
/// account `i` on are the ones that the records of `extras` resolve to, in
/// their order: each record is resolved against the accounts in front of its
/// own, and must give the address and the privileges of its own. The first
/// record that does not resolve gives its error, the first account that
/// differs `IncorrectAccount`.
pub open spec fn spec_check_from(
    extras: Seq<ExtraAccountMetaView>,
    infos: Seq<AccountSnapshotView>,
    i: int,
    instruction_data: Seq<u8>,
    program_id: Seq<u8>,
) -> Result<(), ProgramError>
    decreases extras.len() - i,
{
    if i < 0 || i >= extras.len() {
        Ok(())
    } else {
        let at = infos.len() - extras.len() + i;
        let known = infos.subrange(0, at);
        match spec_resolve(
            extras[i],
            spec_metas_of(known),
            spec_data_of(known),
            instruction_data,
            program_id,
        ) {
            Err(e) => Err(e),
            Ok(meta) => if meta != spec_meta_of(infos[at]) {
                Err(ProgramError::Resolution(AccountResolutionError::IncorrectAccount))
            } else {
                spec_check_from(extras, infos, i + 1, instruction_data, program_id)
            },
        }
    }
}

/// Whether the last accounts of `infos` are the ones that the records of
/// `extras` resolve to: see `spec_check_from`. Fewer accounts than records
/// are an `IncorrectAccount`.
pub open spec fn spec_check_account_infos(
    extras: Seq<ExtraAccountMetaView>,
    infos: Seq<AccountSnapshotView>,
    instruction_data: Seq<u8>,
    program_id: Seq<u8>,
) -> Result<(), ProgramError> {
    if infos.len() < extras.len() {
        Err(ProgramError::Resolution(AccountResolutionError::IncorrectAccount))
    } else {
        spec_check_from(extras, infos, 0, instruction_data, program_id)
    }
}

/// The first account of `pool` from `from` on that has the address `key`.
pub open spec fn spec_first_with_key(pool: Seq<AccountSnapshotView>, key: Seq<u8>, from: int)
    -> Option<int>
    decreases pool.len() - from,
{
    if from < 0 || from >= pool.len() {
        None
    } else if pool[from].key == key {
        Some(from)
    } else {
        spec_first_with_key(pool, key, from + 1)
    }
}

/// The data that the table `known` gives for the address `key`: that of the
/// first account with that address, or none.
pub open spec fn spec_lookup(known: Seq<AccountSnapshotView>, key: Seq<u8>) -> Option<Seq<u8>> {
    match spec_first_with_key(known, key, 0) {
        Some(j) => Some(known[j].data),
        None => None,
    }
}

/// The data that the table `known` gives for each account of `accounts`.
pub open spec fn spec_lookup_all(accounts: Seq<AccountMetaView>, known: Seq<AccountSnapshotView>)
    -> Seq<Option<Seq<u8>>> {
    Seq::new(accounts.len(), |i: int| spec_lookup(known, accounts[i].pubkey))
}

/// The accounts of an instruction after the records of `extras` from the
/// record `i` on are added to `accounts`: each record is resolved against the
/// accounts and the data so far, de-escalated against the accounts so far,
/// and added with the data that the table gives for its address. The first
/// record that does not resolve gives its error.
pub open spec fn spec_add_from(
    extras: Seq<ExtraAccountMetaView>,
    i: int,
    accounts: Seq<AccountMetaView>,
    account_data: Seq<Option<Seq<u8>>>,
    known: Seq<AccountSnapshotView>,
    instruction_data: Seq<u8>,
    program_id: Seq<u8>,
) -> Result<Seq<AccountMetaView>, ProgramError>
    decreases extras.len() - i,
{
    if i < 0 || i >= extras.len() {
        Ok(accounts)
    } else {
        match spec_resolve(extras[i], accounts, account_data, instruction_data, program_id) {
            Err(e) => Err(e),
            Ok(resolved) => {
                let meta = spec_de_escalate(resolved, accounts);
                spec_add_from(
                    extras,
                    i + 1,
                    accounts.push(meta),
                    account_data.push(spec_lookup(known, meta.pubkey)),
                    known,
                    instruction_data,
                    program_id,
                )
            },
        }
    }
}

/// The accounts of an instruction and the accounts handed along with it.
pub struct CpiAccounts {
    pub accounts: Seq<AccountMetaView>,
    pub infos: Seq<AccountSnapshotView>,
}

/// The accounts of an instruction and the accounts handed along with it
/// after the records of `extras` from the record `i` on are added: each
/// record is resolved against the accounts handed along so far and their
/// data, de-escalated against the accounts of the instruction so far, and
/// added together with the first account of `pool` that has its address. The
/// first record that does not resolve gives its error, the first address that
/// `pool` does not hold `IncorrectAccount`.
pub open spec fn spec_cpi_from(
    extras: Seq<ExtraAccountMetaView>,
    i: int,
    accounts: Seq<AccountMetaView>,
    infos: Seq<AccountSnapshotView>,
    pool: Seq<AccountSnapshotView>,
    instruction_data: Seq<u8>,
    program_id: Seq<u8>,
) -> Result<CpiAccounts, ProgramError>
    decreases extras.len() - i,
{
    if i < 0 || i >= extras.len() {
        Ok(CpiAccounts { accounts, infos })
    } else {
        match spec_resolve(
            extras[i],
            spec_metas_of(infos),
            spec_data_of(infos),
            instruction_data,
            program_id,
        ) {
            Err(e) => Err(e),
            Ok(resolved) => {
                let meta = spec_de_escalate(resolved, accounts);
                match spec_first_with_key(pool, meta.pubkey, 0) {
                    None => Err(
                        ProgramError::Resolution(AccountResolutionError::IncorrectAccount),
                    ),
                    Some(j) => spec_cpi_from(
                        extras,
                        i + 1,
                        accounts.push(meta),
                        infos.push(pool[j]),
                        pool,
                        instruction_data,
                        program_id,
                    ),
                }
            },
        }
    }
}

/// Finds the first account of `pool` that has the address `key`.
pub fn find_with_key(pool: &[AccountSnapshot], key: &Pubkey) -> (r: Option<usize>)
    ensures
        match spec_first_with_key(spec_snapshot_views(pool@), key@, 0) {
            Some(j) => r == Some(j as usize) && 0 <= j < pool@.len(),
            None => r is None,
        },
{
    let ghost views = spec_snapshot_views(pool@);
    let mut i: usize = 0;
    while i < pool.len()
        invariant
            i <= pool@.len(),
            views == spec_snapshot_views(pool@),
            spec_first_with_key(views, key@, 0) == spec_first_with_key(views, key@, i as int),
        decreases pool@.len() - i,
    {
        assert(views[i as int] == pool@[i as int]@);
        if pool[i].key.equals(key) {
            return Some(i);
        }
        i += 1;
    }
    None
}

/// Adds the account `info` and a copy of its data to the lists against which
/// records are resolved.
pub fn push_known(
    accounts: &mut Vec<AccountMeta>,
    account_data_list: &mut Vec<Option<Vec<u8>>>,
    info: &AccountSnapshot,
)
    ensures
        spec_meta_views(final(accounts)@) == spec_meta_views(old(accounts)@).push(
            spec_meta_of(info@),
        ),
        spec_data_views(final(account_data_list)@) == spec_data_views(
            old(account_data_list)@,
        ).push(Some(info.data@)),
{
    let meta = info.to_meta();
    let copy = copy_range(info.data.as_slice(), 0, info.data.len());
    assert(copy@ =~= info.data@);
    accounts.push(meta);
    account_data_list.push(Some(copy));
    assert(spec_meta_views(accounts@) =~= spec_meta_views(old(accounts)@).push(
        spec_meta_of(info@),
    ));
    assert(spec_data_views(account_data_list@) =~= spec_data_views(old(account_data_list)@).push(
        Some(info.data@),
    ));
}

/// Copies the accounts of `infos` in front of `upto`, with their data, into
/// the lists against which records are resolved.
pub fn known_prefix(infos: &[AccountSnapshot], upto: usize) -> (r: (
    Vec<AccountMeta>,
    Vec<Option<Vec<u8>>>,
))
    requires
        upto <= infos@.len(),
    ensures
        spec_meta_views(r.0@)
            == spec_metas_of(spec_snapshot_views(infos@).subrange(0, upto as int)),
        spec_data_views(r.1@) == spec_data_of(spec_snapshot_views(infos@).subrange(0, upto as int)),
{
    let ghost views = spec_snapshot_views(infos@);
    let mut accounts: Vec<AccountMeta> = Vec::new();
    let mut account_data_list: Vec<Option<Vec<u8>>> = Vec::new();
    let mut j: usize = 0;
    assert(spec_meta_views(accounts@) =~= spec_metas_of(views.subrange(0, 0)));
    assert(spec_data_views(account_data_list@) =~= spec_data_of(views.subrange(0, 0)));
    while j < upto
        invariant
            j <= upto <= infos@.len(),
            views == spec_snapshot_views(infos@),
            spec_meta_views(accounts@) == spec_metas_of(views.subrange(0, j as int)),
            spec_data_views(account_data_list@) == spec_data_of(views.subrange(0, j as int)),
        decreases upto - j,
    {
        push_known(&mut accounts, &mut account_data_list, &infos[j]);
        proof {
            assert(views[j as int] == infos@[j as int]@);
            assert(spec_metas_of(views.subrange(0, j as int)).push(spec_meta_of(views[j as int]))
                =~= spec_metas_of(views.subrange(0, j + 1)));
            assert(spec_data_of(views.subrange(0, j as int)).push(Some(views[j as int].data))
                =~= spec_data_of(views.subrange(0, j + 1)));
        }
        j += 1;
    }
    (accounts, account_data_list)
}

/// Copies a list of accounts.
pub fn copy_metas(metas: &[AccountMeta]) -> (r: Vec<AccountMeta>)
    ensures
        r@ == metas@,
{
    let mut out: Vec<AccountMeta> = Vec::new();
    let mut i: usize = 0;
    while i < metas.len()
        invariant
            i <= metas@.len(),
            out@ == metas@.subrange(0, i as int),
        decreases metas@.len() - i,
    {
        out.push(metas[i]);
        assert(out@ =~= metas@.subrange(0, i + 1));
        i += 1;
    }
    assert(metas@.subrange(0, i as int) =~= metas@);
    out
}

impl ExtraAccountMetaList {
    /// Checks provided account infos against validation data, using
    /// instruction data and program ID to resolve any dynamic PDAs
    /// if necessary.
    ///
    /// Note: this function will also verify all extra required accounts
    /// have been provided in the correct order
    pub fn check_account_infos<T: SplDiscriminate>(
        account_infos: &[AccountSnapshot],
        instruction_data: &[u8],
        program_id: &Pubkey,
        data: &[u8],
    ) -> (r: Result<(), ProgramError>)
        ensures
            match spec_load_metas(data@, T::SPL_DISCRIMINATOR@) {
                Err(e) => r == Err::<(), ProgramError>(e),
                Ok(extras) => r == spec_check_account_infos(
                    extras,
                    spec_snapshot_views(account_infos@),
                    instruction_data@,
                    program_id@,
                ),
            },
    {
        let extra_account_metas = match Self::load::<T>(data) {
            Ok(metas) => metas,
            Err(e) => {
                return Err(e);
            },
        };
        let ghost extras = spec_extra_views(extra_account_metas@);
        let ghost views = spec_snapshot_views(account_infos@);
        let n = extra_account_metas.len();
        if account_infos.len() < n {
            return Err(ProgramError::Resolution(AccountResolutionError::IncorrectAccount));
        }
        let total = account_infos.len();
        let initial_accounts_len = total - n;
        let (mut accounts, mut account_data_list) = known_prefix(
            account_infos,
            initial_accounts_len,
        );
        let mut i: usize = 0;
        while i < n
            invariant
                i <= n,
                n == extra_account_metas@.len(),
                initial_accounts_len + n == total,
                total == account_infos@.len(),
                spec_load_metas(data@, T::SPL_DISCRIMINATOR@) == Ok::<
                    Seq<ExtraAccountMetaView>,
                    ProgramError,
                >(extras),
                extras == spec_extra_views(extra_account_metas@),
                views == spec_snapshot_views(account_infos@),
                spec_meta_views(accounts@) == spec_metas_of(
                    views.subrange(0, initial_accounts_len + i),
                ),
                spec_data_views(account_data_list@) == spec_data_of(
                    views.subrange(0, initial_accounts_len + i),
                ),
                spec_check_from(extras, views, 0, instruction_data@, program_id@)
                    == spec_check_from(extras, views, i as int, instruction_data@, program_id@),
            decreases n - i,
        {
            let ghost at = initial_accounts_len + i;
            assert(extras[i as int] == extra_account_metas@[i as int]@);
            assert(views[at] == account_infos@[at]@);
            let meta = match extra_account_metas[i].resolve(
                &account_data_list,
                accounts.as_slice(),
                instruction_data,
                program_id,
            ) {
                Ok(m) => m,
                Err(e) => {
                    return Err(e);
                },
            };
            let info = &account_infos[initial_accounts_len + i];
            if !(info.key.equals(&meta.pubkey) && info.is_signer == meta.is_signer
                && info.is_writable == meta.is_writable) {
                return Err(ProgramError::Resolution(AccountResolutionError::IncorrectAccount));
            }
            push_known(&mut accounts, &mut account_data_list, info);
            proof {
                assert(spec_metas_of(views.subrange(0, at)).push(spec_meta_of(views[at]))
                    =~= spec_metas_of(views.subrange(0, at + 1)));
                assert(spec_data_of(views.subrange(0, at)).push(Some(views[at].data))
                    =~= spec_data_of(views.subrange(0, at + 1)));
            }
            i += 1;
        }
        Ok(())
    }

    /// Add the additional account metas to an existing instruction, with the
    /// data of the accounts taken from the table `known_accounts`: see
    /// `spec_add_from`. A call that fails leaves the instruction as it is.
    pub fn add_to_instruction<T: SplDiscriminate>(
        instruction: &mut Instruction,
        known_accounts: &[AccountSnapshot],
        data: &[u8],
    ) -> (r: Result<(), ProgramError>)
        ensures
            final(instruction).program_id == old(instruction).program_id,
            final(instruction).data == old(instruction).data,
            match spec_load_metas(data@, T::SPL_DISCRIMINATOR@) {
                Err(e) => r == Err::<(), ProgramError>(e) && final(instruction).accounts == old(
                    instruction,
                ).accounts,
                Ok(extras) => match spec_add_from(
                    extras,
                    0,
                    spec_meta_views(old(instruction).accounts@),
                    spec_lookup_all(
                        spec_meta_views(old(instruction).accounts@),
                        spec_snapshot_views(known_accounts@),
                    ),
                    spec_snapshot_views(known_accounts@),
                    old(instruction).data@,
                    old(instruction).program_id@,
                ) {
                    Err(e) => r == Err::<(), ProgramError>(e) && final(instruction).accounts
                        == old(instruction).accounts,
                    Ok(accounts) => r == Ok::<(), ProgramError>(()) && spec_meta_views(
                        final(instruction).accounts@,
                    ) == accounts,
                },
            },
    {
        let extra_account_metas = match Self::load::<T>(data) {
            Ok(metas) => metas,
            Err(e) => {
                return Err(e);
            },
        };
        let ghost extras = spec_extra_views(extra_account_metas@);
        let ghost known = spec_snapshot_views(known_accounts@);
        let ghost start = spec_meta_views(instruction.accounts@);
        let mut accounts = copy_metas(instruction.accounts.as_slice());
        let mut account_data_list: Vec<Option<Vec<u8>>> = Vec::new();
        let mut j: usize = 0;
        assert(spec_data_views(account_data_list@) =~= spec_lookup_all(
            start.subrange(0, 0),
            known,
        ));
        while j < accounts.len()
            invariant
                j <= accounts@.len(),
                known == spec_snapshot_views(known_accounts@),
                start == spec_meta_views(accounts@),
                spec_data_views(account_data_list@) == spec_lookup_all(
                    start.subrange(0, j as int),
                    known,
                ),
            decreases accounts@.len() - j,
        {
            assert(start[j as int] == accounts@[j as int]@);
            let fetched = Self::lookup(known_accounts, &accounts[j].pubkey);
            proof {
                let prev = spec_data_views(account_data_list@);
                let next = spec_data_views(account_data_list@.push(fetched));
                let target = spec_lookup_all(start.subrange(0, j + 1), known);
                assert(prev.len() == j);
                assert forall|k: int| 0 <= k < j + 1 implies next[k] == target[k] by {
                    if k < j {
                        assert(prev[k] == spec_lookup_all(start.subrange(0, j as int), known)[k]);
                        assert(account_data_list@.push(fetched)[k] == account_data_list@[k]);
                    } else {
                        assert(account_data_list@.push(fetched)[k] == fetched);
                        assert(start.subrange(0, j + 1)[k].pubkey == accounts@[j as int].pubkey@);
                    }
                }
                assert(next =~= target);
            }
            account_data_list.push(fetched);
            j += 1;
        }
        assert(start.subrange(0, j as int) =~= start);
        let n = extra_account_metas.len();
        let mut i: usize = 0;
        while i < n
            invariant
                i <= n,
                n == extra_account_metas@.len(),
                extras == spec_extra_views(extra_account_metas@),
                known == spec_snapshot_views(known_accounts@),
                *instruction == *old(instruction),
                start == spec_meta_views(instruction.accounts@),
                spec_load_metas(data@, T::SPL_DISCRIMINATOR@) == Ok::<
                    Seq<ExtraAccountMetaView>,
                    ProgramError,
                >(extras),
                spec_add_from(
                    extras,
                    0,
                    start,
                    spec_lookup_all(start, known),
                    known,
                    instruction.data@,
                    instruction.program_id@,
                ) == spec_add_from(
                    extras,
                    i as int,
                    spec_meta_views(accounts@),
                    spec_data_views(account_data_list@),
                    known,
                    instruction.data@,
                    instruction.program_id@,
                ),
            decreases n - i,
        {
            assert(extras[i as int] == extra_account_metas@[i as int]@);
            let mut meta = match extra_account_metas[i].resolve(
                &account_data_list,
                accounts.as_slice(),
                instruction.data.as_slice(),
                &instruction.program_id,
            ) {
                Ok(m) => m,
                Err(e) => {
                    return Err(e);
                },
            };
            de_escalate_account_meta(&mut meta, accounts.as_slice());
            let fetched = Self::lookup(known_accounts, &meta.pubkey);
            proof {
                assert(spec_meta_views(accounts@.push(meta)) =~= spec_meta_views(accounts@).push(
                    meta@,
                ));
                assert(spec_data_views(account_data_list@.push(fetched)) =~= spec_data_views(
                    account_data_list@,
                ).push(spec_lookup(known, meta.pubkey@)));
            }
            account_data_list.push(fetched);
            accounts.push(meta);
            i += 1;
        }
        instruction.accounts = accounts;
        Ok(())
    }

    /// The data that the table `known_accounts` gives for the address `key`:
    /// a copy of the data of the first account with that address, or none.
    pub fn lookup(known_accounts: &[AccountSnapshot], key: &Pubkey) -> (r: Option<Vec<u8>>)
        ensures
            match spec_lookup(spec_snapshot_views(known_accounts@), key@) {
                Some(data) => r matches Some(found) && found@ == data,
                None => r is None,
            },
    {
        match find_with_key(known_accounts, key) {
            Some(j) => {
                let ghost views = spec_snapshot_views(known_accounts@);
                assert(views[j as int] == known_accounts@[j as int]@);
                let data = &known_accounts[j].data;
                let copy = copy_range(data.as_slice(), 0, data.len());
                assert(copy@ =~= data@);
                Some(copy)
            },
            None => None,
        }
    }

    /// Add the additional account metas and account infos for a CPI: see
    /// `spec_cpi_from`. A call that fails leaves the instruction and the
    /// accounts handed along with it as they are.
    pub fn add_to_cpi_instruction<T: SplDiscriminate>(
        cpi_instruction: &mut Instruction,
        cpi_account_infos: &mut Vec<AccountSnapshot>,
        data: &[u8],
        account_infos: &[AccountSnapshot],
    ) -> (r: Result<(), ProgramError>)
        ensures
            final(cpi_instruction).program_id == old(cpi_instruction).program_id,
            final(cpi_instruction).data == old(cpi_instruction).data,
            match spec_load_metas(data@, T::SPL_DISCRIMINATOR@) {
                Err(e) => r == Err::<(), ProgramError>(e) && final(cpi_instruction).accounts
                    == old(cpi_instruction).accounts && final(cpi_account_infos)@ == old(
                    cpi_account_infos,
                )@,
                Ok(extras) => match spec_cpi_from(
                    extras,
                    0,
                    spec_meta_views(old(cpi_instruction).accounts@),
                    spec_snapshot_views(old(cpi_account_infos)@),
                    spec_snapshot_views(account_infos@),
                    old(cpi_instruction).data@,
                    old(cpi_instruction).program_id@,
                ) {
                    Err(e) => r == Err::<(), ProgramError>(e) && final(cpi_instruction).accounts
                        == old(cpi_instruction).accounts && final(cpi_account_infos)@ == old(
                        cpi_account_infos,
                    )@,
                    Ok(after) => r == Ok::<(), ProgramError>(()) && spec_meta_views(
                        final(cpi_instruction).accounts@,
                    ) == after.accounts && spec_snapshot_views(final(cpi_account_infos)@)
                        == after.infos,
                },
            },
    {
        let extra_account_metas = match Self::load::<T>(data) {
            Ok(metas) => metas,
            Err(e) => {
                return Err(e);
            },
        };
        let ghost extras = spec_extra_views(extra_account_metas@);
        let ghost pool = spec_snapshot_views(account_infos@);
        let ghost start_infos = spec_snapshot_views(cpi_account_infos@);
        let mut accounts = copy_metas(cpi_instruction.accounts.as_slice());
        let (mut keys, mut account_data_list) = known_prefix(
            cpi_account_infos.as_slice(),
            cpi_account_infos.len(),
        );
        assert(start_infos.subrange(0, cpi_account_infos@.len() as int) =~= start_infos);
        let mut picked: Vec<usize> = Vec::new();
        let ghost mut infos = start_infos;
        let n = extra_account_metas.len();
        let mut i: usize = 0;
        while i < n
            invariant
                i <= n,
                n == extra_account_metas@.len(),
                extras == spec_extra_views(extra_account_metas@),
                pool == spec_snapshot_views(account_infos@),
                start_infos == spec_snapshot_views(cpi_account_infos@),
                *cpi_instruction == *old(cpi_instruction),
                *cpi_account_infos == *old(cpi_account_infos),
                spec_load_metas(data@, T::SPL_DISCRIMINATOR@) == Ok::<
                    Seq<ExtraAccountMetaView>,
                    ProgramError,
                >(extras),
                spec_meta_views(keys@) == spec_metas_of(infos),
                spec_data_views(account_data_list@) == spec_data_of(infos),
                picked@.len() == i,
                infos.len() == start_infos.len() + i,
                infos.subrange(0, start_infos.len() as int) == start_infos,
                forall|k: int|
                    0 <= k < i ==> 0 <= #[trigger] picked@[k] < pool.len() && infos[
                    start_infos.len() + k] == pool[picked@[k] as int],
                spec_cpi_from(
                    extras,
                    0,
                    spec_meta_views(cpi_instruction.accounts@),
                    start_infos,
                    pool,
                    cpi_instruction.data@,
                    cpi_instruction.program_id@,
                ) == spec_cpi_from(
                    extras,
                    i as int,
                    spec_meta_views(accounts@),
                    infos,
                    pool,
                    cpi_instruction.data@,
                    cpi_instruction.program_id@,
                ),
            decreases n - i,
        {
            assert(extras[i as int] == extra_account_metas@[i as int]@);
            let mut meta = match extra_account_metas[i].resolve(
                &account_data_list,
                keys.as_slice(),
                cpi_instruction.data.as_slice(),
                &cpi_instruction.program_id,
            ) {
                Ok(m) => m,
                Err(e) => {
                    return Err(e);
                },
            };
            de_escalate_account_meta(&mut meta, accounts.as_slice());
            let j = match find_with_key(account_infos, &meta.pubkey) {
                Some(j) => j,
                None => {
                    return Err(ProgramError::Resolution(AccountResolutionError::IncorrectAccount));
                },
            };
            let account_info = &account_infos[j];
            push_known(&mut keys, &mut account_data_list, account_info);
            proof {
                assert(pool[j as int] == account_infos@[j as int]@);
                assert(spec_meta_views(accounts@.push(meta)) =~= spec_meta_views(accounts@).push(
                    meta@,
                ));
                assert(spec_metas_of(infos).push(spec_meta_of(pool[j as int])) =~= spec_metas_of(
                    infos.push(pool[j as int]),
                ));
                assert(spec_data_of(infos).push(Some(pool[j as int].data)) =~= spec_data_of(
                    infos.push(pool[j as int]),
                ));
                assert(infos.push(pool[j as int]).subrange(0, start_infos.len() as int)
                    =~= infos.subrange(0, start_infos.len() as int));
                infos = infos.push(pool[j as int]);
            }
            accounts.push(meta);
            picked.push(j);
            i += 1;
        }
        cpi_instruction.accounts = accounts;
        let mut k: usize = 0;
        while k < n
            invariant
                k <= n,
                picked@.len() == n,
                pool == spec_snapshot_views(account_infos@),
                infos.len() == start_infos.len() + n,
                infos.subrange(0, start_infos.len() as int) == start_infos,
                forall|k: int|
                    0 <= k < n ==> 0 <= #[trigger] picked@[k] < pool.len() && infos[
                    start_infos.len() + k] == pool[picked@[k] as int],
                spec_snapshot_views(cpi_account_infos@) == infos.subrange(
                    0,
                    start_infos.len() + k,
                ),
            decreases n - k,
        {
            let source = &account_infos[picked[k]];
            assert(pool[picked@[k as int] as int] == source@);
            let data_copy = copy_range(source.data.as_slice(), 0, source.data.len());
            assert(data_copy@ =~= source.data@);
            let copy = AccountSnapshot {
                key: source.key,
                is_signer: source.is_signer,
                is_writable: source.is_writable,
                data: data_copy,
            };
            proof {
                let prev = spec_snapshot_views(cpi_account_infos@);
                let next = spec_snapshot_views(cpi_account_infos@.push(copy));
                let target = infos.subrange(0, start_infos.len() + k + 1);
                assert(infos[start_infos.len() + k] == pool[picked@[k as int] as int]);
                assert forall|x: int| 0 <= x < next.len() implies next[x] == target[x] by {
                    if x < prev.len() {
                        assert(prev[x] == infos.subrange(0, start_infos.len() + k)[x]);
                    }
                }
                assert(next =~= target);
            }
            cpi_account_infos.push(copy);
            k += 1;
        }
        assert(infos.subrange(0, start_infos.len() + n) =~= infos);
        Ok(())
    }
}

/// Whether the seed number `k` of the record `meta` names an account, or
/// the data of an account, at `index` or behind it.
pub open spec fn spec_refers_forward(meta: ExtraAccountMetaView, k: int, index: int) -> bool {
    &&& meta.discriminator == 1
    &&& spec_unpack_seeds(meta.address_config, 0) matches Ok(seeds)
    &&& 0 <= k < seeds.len()
    &&& match seeds[k] {
        SeedView::AccountKey { index: named } => named >= index,
        SeedView::AccountData { account_index, .. } => account_index >= index,
        _ => false,
    }
}

/// A list in which a record refers forward is rejected: where a seed of the
/// record `i` names the place of that record itself or one behind it, adding
/// the records to an instruction fails, whatever the records in front resolve
/// to.
pub proof fn lemma_add_rejects_forward_reference(
    extras: Seq<ExtraAccountMetaView>,
    from: int,
    i: int,
    k: int,
    accounts: Seq<AccountMetaView>,
    account_data: Seq<Option<Seq<u8>>>,
    known: Seq<AccountSnapshotView>,
    instruction_data: Seq<u8>,
    program_id: Seq<u8>,
)
    requires
        0 <= from <= i < extras.len(),
        account_data.len() == accounts.len(),
        spec_refers_forward(extras[i], k, accounts.len() + (i - from)),
    ensures
        spec_add_from(extras, from, accounts, account_data, known, instruction_data, program_id)
            is Err,
    decreases i - from,
{
    if from == i {
        lemma_forward_reference_fails(
            extras[i],
            accounts,
            account_data,
            instruction_data,
            program_id,
            k,
        );
    } else {
        match spec_resolve(extras[from], accounts, account_data, instruction_data, program_id) {
            Err(_) => {},
            Ok(resolved) => {
                let meta = spec_de_escalate(resolved, accounts);
                lemma_add_rejects_forward_reference(
                    extras,
                    from + 1,
                    i,
                    k,
                    accounts.push(meta),
                    account_data.push(spec_lookup(known, meta.pubkey)),
                    known,
                    instruction_data,
                    program_id,
                );
            },
        }
    }
}

} // verus!
