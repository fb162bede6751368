//! Adding the extra accounts to an instruction where the data of each
//! account has to be fetched from outside, one account at a time: the
//! resolution tells which account to fetch next and takes what was fetched.

use crate::error::{AccountResolutionError, ProgramError};
use crate::resolution::account::{
    de_escalate_account_meta, spec_data_views, spec_de_escalate, spec_extra_views,
    spec_meta_views, spec_resolve, AccountMeta, AccountMetaView, ExtraAccountMeta,
    ExtraAccountMetaView, Instruction,
};
use crate::resolution::passes::{
    copy_metas, spec_add_from, spec_lookup, spec_lookup_all, AccountSnapshotView,
};
use crate::resolution::state::{spec_load_metas, ExtraAccountMetaList};
use crate::state::Pubkey;
use crate::tlv::SplDiscriminate;
use vstd::prelude::*;

verus! {

/// What a fetch of the data of one account came back with.
#[derive(Clone, Debug, PartialEq, Eq)]
pub enum FetchOutcome {
    /// The account exists and holds these bytes.
    Found(Vec<u8>),
    /// No account has the address.
    Missing,
    /// The fetch itself failed.
    Failed,
}

/// What a resolution asks for next.
#[derive(Clone, Copy, Debug, PartialEq, Eq)]
pub enum Step {
    /// The data of the account with this address is to be fetched.
    Fetch(Pubkey),
    /// Every extra account is added.
    Done,
}

/// What a resolution asks for next, with the address as a sequence of bytes.
pub enum StepView {
    Fetch(Seq<u8>),
    Done,
}

impl View for Step {
    type V = StepView;

    open spec fn view(&self) -> StepView {
        match self {
            Step::Fetch(key) => StepView::Fetch(key@),
            Step::Done => StepView::Done,
        }
    }
}

/// A resolution under way: the accounts of the instruction so far, the data
/// fetched for them so far, and the records that are still to be resolved.
#[derive(Clone, Debug, PartialEq, Eq)]
pub struct AccountResolution {
    /// The program that the instruction calls
    pub program_id: Pubkey,
    /// The data of the instruction
    pub instruction_data: Vec<u8>,
    /// The accounts of the instruction, with the extra accounts added so far
    pub accounts: Vec<AccountMeta>,
    /// The data fetched for the accounts, in their order
    pub account_data_list: Vec<Option<Vec<u8>>>,
    /// The records of the extra accounts
    pub extra_account_metas: Vec<ExtraAccountMeta>,
    /// How many records are resolved
    pub resolved: usize,
}

/// What a resolution holds.
pub struct AccountResolutionView {
    pub program_id: Seq<u8>,
    pub instruction_data: Seq<u8>,
    pub accounts: Seq<AccountMetaView>,
    pub account_data: Seq<Option<Seq<u8>>>,
    pub extras: Seq<ExtraAccountMetaView>,
    pub resolved: int,
}

impl View for AccountResolution {
    type V = AccountResolutionView;

    open spec fn view(&self) -> AccountResolutionView {
        AccountResolutionView {
            program_id: self.program_id@,
            instruction_data: self.instruction_data@,
            accounts: spec_meta_views(self.accounts@),
            account_data: spec_data_views(self.account_data_list@),
            extras: spec_extra_views(self.extra_account_metas@),
            resolved: self.resolved as int,
        }
    }
}

/// Whether a resolution is in a state that its steps can reach: no more
/// records are resolved than there are, and data is fetched for all accounts
/// or for all but the last.
pub open spec fn spec_resolution_wf(state: AccountResolutionView) -> bool {
    &&& 0 <= state.resolved <= state.extras.len()
    &&& state.account_data.len() <= state.accounts.len()
    &&& state.resolved > 0 ==> state.account_data.len() + 1 >= state.accounts.len()
}

/// Whether a resolution waits for the data of an account.
pub open spec fn spec_awaits(state: AccountResolutionView) -> bool {
    state.account_data.len() < state.accounts.len()
}

/// The resolution after what was fetched for the account it waits for is
/// taken in. A fetch that failed ends the resolution with
/// `AccountFetchFailed`.
pub open spec fn spec_supply(state: AccountResolutionView, fetched: Option<Option<Seq<u8>>>)
    -> Result<AccountResolutionView, ProgramError> {
    match fetched {
        None => Err(ProgramError::Resolution(AccountResolutionError::AccountFetchFailed)),
        Some(data) => Ok(
            AccountResolutionView { account_data: state.account_data.push(data), ..state },
        ),
    }
}

/// The next step of a resolution and the state it leaves: the account whose
/// data is missing is fetched first; where none is missing, the next record
/// is resolved against the accounts and their data, de-escalated against the
/// accounts, added, and its data is fetched; where no record is left, the
/// resolution is done.
pub open spec fn spec_decide(state: AccountResolutionView) -> Result<
    (AccountResolutionView, StepView),
    ProgramError,
> {
    if spec_awaits(state) {
        Ok((state, StepView::Fetch(state.accounts[state.account_data.len() as int].pubkey)))
    } else if state.resolved < state.extras.len() {
        match spec_resolve(
            state.extras[state.resolved],
            state.accounts,
            state.account_data,
            state.instruction_data,
            state.program_id,
        ) {
            Err(e) => Err(e),
            Ok(resolved) => {
                let meta = spec_de_escalate(resolved, state.accounts);
                Ok(
                    (
                        AccountResolutionView {
                            accounts: state.accounts.push(meta),
                            resolved: state.resolved + 1,
                            ..state
                        },
                        StepView::Fetch(meta.pubkey),
                    ),
                )
            },
        }
    } else {
        Ok((state, StepView::Done))
    }
}

/// The view of what a fetch came back with: the data or its absence, or
/// nothing where the fetch failed.
pub open spec fn spec_outcome_view(outcome: FetchOutcome) -> Option<Option<Seq<u8>>> {
    match outcome {
        FetchOutcome::Found(data) => Some(Some(data@)),
        FetchOutcome::Missing => Some(None),
        FetchOutcome::Failed => None,
    }
}

impl AccountResolution {
    /// Starts to add the extra accounts stored in `data` under the
    /// discriminator of `T` to `instruction`: nothing is fetched or resolved
    /// yet.
    pub fn start<T: SplDiscriminate>(instruction: &Instruction, data: &[u8]) -> (r: Result<
        Self,
        ProgramError,
    >)
        ensures
            match spec_load_metas(data@, T::SPL_DISCRIMINATOR@) {
                Err(e) => r matches Err(f) && f == e,
                Ok(extras) => r matches Ok(state) && spec_resolution_wf(state@) && state@ == (
                AccountResolutionView {
                    program_id: instruction.program_id@,
                    instruction_data: instruction.data@,
                    accounts: spec_meta_views(instruction.accounts@),
                    account_data: Seq::empty(),
                    extras,
                    resolved: 0,
                }),
            },
    {
        let extra_account_metas = match ExtraAccountMetaList::load::<T>(data) {
            Ok(metas) => metas,
            Err(e) => {
                return Err(e);
            },
        };
        let accounts = copy_metas(instruction.accounts.as_slice());
        let instruction_data = crate::resolution::account::copy_range(
            instruction.data.as_slice(),
            0,
            instruction.data.len(),
        );
        assert(instruction_data@ =~= instruction.data@);
        let account_data_list: Vec<Option<Vec<u8>>> = Vec::new();
        assert(spec_data_views(account_data_list@) =~= Seq::<Option<Seq<u8>>>::empty());
        Ok(
            AccountResolution {
                program_id: instruction.program_id,
                instruction_data,
                accounts,
                account_data_list,
                extra_account_metas,
                resolved: 0,
            },
        )
    }

    /// Takes in what was fetched for the account that the resolution waits
    /// for: see `spec_supply`. A resolution that fails is left as it is.
    pub fn supply(&mut self, outcome: FetchOutcome) -> (r: Result<(), ProgramError>)
        requires
            spec_resolution_wf(old(self)@),
            spec_awaits(old(self)@),
        ensures
            match spec_supply(old(self)@, spec_outcome_view(outcome)) {
                Ok(state) => r == Ok::<(), ProgramError>(()) && final(self)@ == state
                    && spec_resolution_wf(final(self)@),
                Err(e) => r == Err::<(), ProgramError>(e) && *final(self) == *old(self),
            },
    {
        let fetched = match outcome {
            FetchOutcome::Found(data) => Some(data),
            FetchOutcome::Missing => None,
            FetchOutcome::Failed => {
                return Err(
                    ProgramError::Resolution(AccountResolutionError::AccountFetchFailed),
                );
            },
        };
        proof {
            assert(spec_data_views(self.account_data_list@.push(fetched)) =~= spec_data_views(
                self.account_data_list@,
            ).push(spec_outcome_view(outcome).unwrap()));
        }
        self.account_data_list.push(fetched);
        Ok(())
    }

    /// Decides the next step: see `spec_decide`. A resolution that fails is
    /// left as it is.
    pub fn advance(&mut self) -> (r: Result<Step, ProgramError>)
        requires
            spec_resolution_wf(old(self)@),
        ensures
            match spec_decide(old(self)@) {
                Ok((state, step)) => r matches Ok(found) && found@ == step && final(self)@
                    == state && spec_resolution_wf(final(self)@),
                Err(e) => r matches Err(f) && f == e && *final(self) == *old(self),
            },
    {
        let fetched = self.account_data_list.len();
        if fetched < self.accounts.len() {
            let ghost views = spec_meta_views(self.accounts@);
            assert(views[fetched as int] == self.accounts@[fetched as int]@);
            return Ok(Step::Fetch(self.accounts[fetched].pubkey));
        }
        if self.resolved < self.extra_account_metas.len() {
            assert(spec_extra_views(self.extra_account_metas@)[self.resolved as int]
                == self.extra_account_metas@[self.resolved as int]@);
            let mut meta = match self.extra_account_metas[self.resolved].resolve(
                &self.account_data_list,
                self.accounts.as_slice(),
                self.instruction_data.as_slice(),
                &self.program_id,
            ) {
                Ok(m) => m,
                Err(e) => {
                    return Err(e);
                },
            };
            de_escalate_account_meta(&mut meta, self.accounts.as_slice());
            proof {
                assert(spec_meta_views(self.accounts@.push(meta)) =~= spec_meta_views(
                    self.accounts@,
                ).push(meta@));
            }
            self.accounts.push(meta);
            self.resolved = self.resolved + 1;
            return Ok(Step::Fetch(meta.pubkey));
        }
        Ok(Step::Done)
    }

    /// Hands the accounts of a finished resolution to `instruction`.
    pub fn finish(self, instruction: &mut Instruction)
        ensures
            final(instruction).program_id == old(instruction).program_id,
            final(instruction).data == old(instruction).data,
            final(instruction).accounts == self.accounts,
    {
        instruction.accounts = self.accounts;
    }
}

/// The accounts that a resolution ends with where every fetch is answered
/// from the table `known`: what is fetched is taken in, and the next step is
/// decided, until the resolution is done or fails.
pub open spec fn spec_run(state: AccountResolutionView, known: Seq<AccountSnapshotView>) -> Result<
    Seq<AccountMetaView>,
    ProgramError,
>
    decreases state.extras.len() - state.resolved, state.accounts.len() - state.account_data.len(),
{
    if spec_awaits(state) {
        let key = state.accounts[state.account_data.len() as int].pubkey;
        spec_run(
            AccountResolutionView {
                account_data: state.account_data.push(spec_lookup(known, key)),
                ..state
            },
            known,
        )
    } else if 0 <= state.resolved < state.extras.len() {
        match spec_decide(state) {
            Err(e) => Err(e),
            Ok((next, _)) => spec_run(next, known),
        }
    } else {
        Ok(state.accounts)
    }
}

/// A resolution that holds the data of all its accounts ends with the
/// accounts that adding the remaining records at once gives.
pub proof fn lemma_run_is_add(state: AccountResolutionView, known: Seq<AccountSnapshotView>)
    requires
        0 <= state.resolved <= state.extras.len(),
        state.account_data.len() == state.accounts.len(),
    ensures
        spec_run(state, known) == spec_add_from(
            state.extras,
            state.resolved,
            state.accounts,
            state.account_data,
            known,
            state.instruction_data,
            state.program_id,
        ),
    decreases state.extras.len() - state.resolved,
{
    if state.resolved < state.extras.len() {
        match spec_decide(state) {
            Err(_) => {},
            Ok((next, _)) => {
                let key = next.accounts[next.account_data.len() as int].pubkey;
                let fed = AccountResolutionView {
                    account_data: next.account_data.push(spec_lookup(known, key)),
                    ..next
                };
                assert(spec_run(next, known) == spec_run(fed, known));
                lemma_run_is_add(fed, known);
            },
        }
    }
}

/// Taking in the data of the accounts one by one gives the data that the
/// table holds for them all.
proof fn lemma_run_fetches_all(state: AccountResolutionView, known: Seq<AccountSnapshotView>)
    requires
        state.resolved == 0,
        state.account_data.len() <= state.accounts.len(),
        state.account_data == spec_lookup_all(
            state.accounts.subrange(0, state.account_data.len() as int),
            known,
        ),
    ensures
        spec_run(state, known) == spec_run(
            AccountResolutionView {
                account_data: spec_lookup_all(state.accounts, known),
                ..state
            },
            known,
        ),
    decreases state.accounts.len() - state.account_data.len(),
{
    let n = state.account_data.len() as int;
    if n < state.accounts.len() {
        let key = state.accounts[n].pubkey;
        let fed = AccountResolutionView {
            account_data: state.account_data.push(spec_lookup(known, key)),
            ..state
        };
        assert(fed.account_data =~= spec_lookup_all(state.accounts.subrange(0, n + 1), known));
        lemma_run_fetches_all(fed, known);
    } else {
        assert(state.accounts.subrange(0, n) =~= state.accounts);
    }
}

/// Step by step or at once, the extra accounts are the same: a resolution
/// that starts with the accounts of an instruction and is answered from a
/// table ends with the accounts that adding the records to the instruction
/// with that table gives.
pub proof fn lemma_steps_are_add(state: AccountResolutionView, known: Seq<AccountSnapshotView>)
    requires
        state.resolved == 0,
        state.account_data.len() == 0,
    ensures
        spec_run(state, known) == spec_add_from(
            state.extras,
            0,
            state.accounts,
            spec_lookup_all(state.accounts, known),
            known,
            state.instruction_data,
            state.program_id,
        ),
{
    assert(state.account_data =~= spec_lookup_all(state.accounts.subrange(0, 0), known));
    lemma_run_fetches_all(state, known);
    lemma_run_is_add(
        AccountResolutionView { account_data: spec_lookup_all(state.accounts, known), ..state },
        known,
    );
}

} // verus!
