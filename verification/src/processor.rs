//! The handler: one invocation, start to finish.
//!
//! An invocation names the executing program, lists accounts and carries a
//! payload. The handler decodes the payload, takes the first account as the
//! updater, checks that it signed and that the executing program owns it,
//! and overwrites the price in its storage. The first check that fails ends
//! the invocation, and a failed invocation changes nothing.

use crate::account::{Account, AccountView, Identity};
use crate::error::PriceUpdateError;
use crate::instruction::PriceUpdateInstruction;
use crate::little_endian::lemma_encode_decode;
use crate::state::PriceLogger;
use vstd::prelude::*;

verus! {

/// The entry point of the program. It keeps nothing between invocations.
pub struct Processor;

impl Processor {
    /// Whether program `program_id` may write a price to the first of
    /// `accounts`, and if not, the first reason why not.
    pub open spec fn admits(accounts: Seq<AccountView>, program_id: Identity) -> Result<
        (),
        PriceUpdateError,
    > {
        if accounts.len() == 0 {
            Err(PriceUpdateError::MissingAccount)
        } else if !accounts[0].is_signer {
            Err(PriceUpdateError::MissingRequiredSignature)
        } else if accounts[0].owner != program_id {
            Err(PriceUpdateError::IncorrectProgramId)
        } else if accounts[0].data.len() < 8 {
            Err(PriceUpdateError::Codec)
        } else {
            Ok(())
        }
    }

    /// `accounts` with `target_price` stored in the first of them: its record
    /// is overwritten, and nothing else differs.
    pub open spec fn with_price(accounts: Seq<AccountView>, target_price: u64) -> Seq<AccountView>
        recommends
            accounts.len() > 0,
            accounts[0].data.len() >= 8,
    {
        accounts.update(
            0,
            AccountView {
                data: PriceLogger { price: target_price }.written_over(accounts[0].data),
                ..accounts[0]
            },
        )
    }

    /// How an invocation ends.
    pub open spec fn outcome(
        program_id: Identity,
        accounts: Seq<AccountView>,
        instruction_data: Seq<u8>,
    ) -> Result<(), PriceUpdateError> {
        match PriceUpdateInstruction::decode(instruction_data) {
            Err(e) => Err(e),
            Ok(PriceUpdateInstruction::UpdatePrice { target_price }) => Self::admits(
                accounts,
                program_id,
            ),
        }
    }

    /// The accounts as an invocation leaves them.
    pub open spec fn processed(
        program_id: Identity,
        accounts: Seq<AccountView>,
        instruction_data: Seq<u8>,
    ) -> Seq<AccountView> {
        match PriceUpdateInstruction::decode(instruction_data) {
            Ok(PriceUpdateInstruction::UpdatePrice { target_price }) if Self::admits(
                accounts,
                program_id,
            ) is Ok => Self::with_price(accounts, target_price),
            _ => accounts,
        }
    }

    /// Handles one invocation of program `program_id`.
    pub fn process(program_id: &Identity, accounts: &mut [Account], instruction_data: &[u8]) -> (result:
        Result<(), PriceUpdateError>)
        ensures
            result == Self::outcome(*program_id, old(accounts).deep_view(), instruction_data@),
            final(accounts).deep_view() == Self::processed(
                *program_id,
                old(accounts).deep_view(),
                instruction_data@,
            ),
            result is Err ==> final(accounts).deep_view() == old(accounts).deep_view(),
            ({
                let payload = instruction_data@;
                let before = old(accounts).deep_view();
                let after = final(accounts).deep_view();
                let well_formed = payload.len() >= 8;
                let present = well_formed && before.len() > 0;
                let signed = present && before[0].is_signer;
                let owned = signed && before[0].owner == *program_id;
                &&& !well_formed ==> result == Err::<(), PriceUpdateError>(
                    PriceUpdateError::InvalidInstruction,
                )
                &&& well_formed && !present ==> result == Err::<(), PriceUpdateError>(
                    PriceUpdateError::MissingAccount,
                )
                &&& present && !signed ==> result == Err::<(), PriceUpdateError>(
                    PriceUpdateError::MissingRequiredSignature,
                )
                &&& signed && !owned ==> result == Err::<(), PriceUpdateError>(
                    PriceUpdateError::IncorrectProgramId,
                )
                &&& owned && before[0].data.len() < 8 ==> result == Err::<(), PriceUpdateError>(
                    PriceUpdateError::Codec,
                )
                &&& owned && before[0].data.len() >= 8 ==> result == Ok::<(), PriceUpdateError>(())
                &&& result is Ok ==> {
                    &&& after.len() == before.len()
                    &&& after[0].is_signer == before[0].is_signer
                    &&& after[0].owner == before[0].owner
                    &&& after[0].data.len() == before[0].data.len()
                    &&& after[0].data.take(8) == payload.take(8)
                    &&& after[0].data.skip(8) == before[0].data.skip(8)
                    &&& forall|i: int| 0 < i < before.len() ==> after[i] == before[i]
                }
            }),
    {
        proof {
            let before = old(accounts).deep_view();
            lemma_process_changes_only_the_record(*program_id, before, instruction_data@);
            if Self::outcome(*program_id, before, instruction_data@) is Ok {
                lemma_authorized_update_stores_payload(*program_id, before, instruction_data@);
            }
        }
        let instruction = PriceUpdateInstruction::unpack(instruction_data)?;
        match instruction {
            PriceUpdateInstruction::UpdatePrice { target_price } => {
                Self::update_price(accounts, target_price, program_id)
            },
        }
    }

    /// Stores `target_price` in the first account, provided that it signed,
    /// that program `program_id` owns it and that its storage can hold a
    /// record.
    pub fn update_price(accounts: &mut [Account], target_price: u64, program_id: &Identity) -> (result:
        Result<(), PriceUpdateError>)
        ensures
            result == Self::admits(old(accounts).deep_view(), *program_id),
            result is Ok ==> final(accounts).deep_view() == Self::with_price(
                old(accounts).deep_view(),
                target_price,
            ),
            result is Err ==> final(accounts).deep_view() == old(accounts).deep_view(),
    {
        if accounts.len() == 0 {
            return Err(PriceUpdateError::MissingAccount);
        }
        let updater = &mut accounts[0];
        if !updater.is_signer {
            return Err(PriceUpdateError::MissingRequiredSignature);
        }
        // Only the program that owns an account may change its storage.
        if updater.owner != *program_id {
            return Err(PriceUpdateError::IncorrectProgramId);
        }
        let mut price_info = PriceLogger::unpack_unchecked(updater.data.as_slice())?;
        price_info.price = target_price;
        PriceLogger::pack(price_info, updater.data.as_mut_slice())?;
        Ok(())
    }
}

/// An authorised invocation succeeds and stores its payload: afterwards the
/// first eight bytes of the updater's storage are the first eight bytes of
/// the payload, and every later byte of the storage is as before.
pub proof fn lemma_authorized_update_stores_payload(
    program_id: Identity,
    accounts: Seq<AccountView>,
    instruction_data: Seq<u8>,
)
    requires
        instruction_data.len() >= 8,
        accounts.len() > 0,
        accounts[0].is_signer,
        accounts[0].owner == program_id,
        accounts[0].data.len() >= 8,
    ensures
        Processor::outcome(program_id, accounts, instruction_data) == Ok::<(), PriceUpdateError>(()),
        Processor::processed(program_id, accounts, instruction_data)[0].data.len()
            == accounts[0].data.len(),
        Processor::processed(program_id, accounts, instruction_data)[0].data.take(8)
            == instruction_data.take(8),
        Processor::processed(program_id, accounts, instruction_data)[0].data.skip(8)
            == accounts[0].data.skip(8),
{
    lemma_encode_decode(instruction_data);
    let after = Processor::processed(program_id, accounts, instruction_data)[0].data;
    assert(after.take(8) =~= instruction_data.take(8));
    assert(after.skip(8) =~= accounts[0].data.skip(8));
}

/// An invocation touches nothing but the record of the first account: the
/// number of accounts, every other account, and the first account's signer
/// flag, owner, storage length and bytes from offset eight on stay as they
/// were.
pub proof fn lemma_process_changes_only_the_record(
    program_id: Identity,
    accounts: Seq<AccountView>,
    instruction_data: Seq<u8>,
)
    ensures
        Processor::processed(program_id, accounts, instruction_data).len() == accounts.len(),
        forall|i: int|
            0 < i < accounts.len() ==> Processor::processed(
                program_id,
                accounts,
                instruction_data,
            )[i] == accounts[i],
        accounts.len() > 0 ==> {
            let after = Processor::processed(program_id, accounts, instruction_data)[0];
            &&& after.is_signer == accounts[0].is_signer
            &&& after.owner == accounts[0].owner
            &&& after.data.len() == accounts[0].data.len()
            &&& after.data.skip(8) == accounts[0].data.skip(8)
        },
{
    if Processor::outcome(program_id, accounts, instruction_data) is Ok {
        let after = Processor::processed(program_id, accounts, instruction_data)[0];
        assert(after.data.skip(8) =~= accounts[0].data.skip(8));
    }
}

/// Handling the same payload a second time changes nothing more and ends as
/// the first time did.
pub proof fn lemma_process_is_idempotent(
    program_id: Identity,
    accounts: Seq<AccountView>,
    instruction_data: Seq<u8>,
)
    ensures
        Processor::outcome(
            program_id,
            Processor::processed(program_id, accounts, instruction_data),
            instruction_data,
        ) == Processor::outcome(program_id, accounts, instruction_data),
        Processor::processed(
            program_id,
            Processor::processed(program_id, accounts, instruction_data),
            instruction_data,
        ) == Processor::processed(program_id, accounts, instruction_data),
{
    let once = Processor::processed(program_id, accounts, instruction_data);
    let twice = Processor::processed(program_id, once, instruction_data);
    if Processor::outcome(program_id, accounts, instruction_data) is Ok {
        assert(twice[0].data =~= once[0].data);
        assert(twice =~= once);
    }
}

/// A payload of fewer than eight bytes is rejected as `InvalidInstruction`,
/// whatever the accounts are, and changes nothing.
pub proof fn lemma_short_payload_is_rejected(
    program_id: Identity,
    accounts: Seq<AccountView>,
    instruction_data: Seq<u8>,
)
    requires
        instruction_data.len() < 8,
    ensures
        Processor::outcome(program_id, accounts, instruction_data) == Err::<(), PriceUpdateError>(
            PriceUpdateError::InvalidInstruction,
        ),
        Processor::processed(program_id, accounts, instruction_data) == accounts,
{
}

/// With a well-formed payload and no account at all, the invocation is
/// rejected as `MissingAccount`.
pub proof fn lemma_missing_account_is_rejected(program_id: Identity, instruction_data: Seq<u8>)
    requires
        instruction_data.len() >= 8,
    ensures
        Processor::outcome(program_id, Seq::<AccountView>::empty(), instruction_data) == Err::<
            (),
            PriceUpdateError,
        >(PriceUpdateError::MissingAccount),
        Processor::processed(program_id, Seq::<AccountView>::empty(), instruction_data)
            == Seq::<AccountView>::empty(),
{
}

/// With a well-formed payload, an updater that did not sign is rejected as
/// `MissingRequiredSignature`, and its storage is left as it was.
pub proof fn lemma_unsigned_update_is_rejected(
    program_id: Identity,
    accounts: Seq<AccountView>,
    instruction_data: Seq<u8>,
)
    requires
        instruction_data.len() >= 8,
        accounts.len() > 0,
        !accounts[0].is_signer,
    ensures
        Processor::outcome(program_id, accounts, instruction_data) == Err::<(), PriceUpdateError>(
            PriceUpdateError::MissingRequiredSignature,
        ),
        Processor::processed(program_id, accounts, instruction_data) == accounts,
{
}

/// With a well-formed payload, an updater that signed but is owned by another
/// program is rejected as `IncorrectProgramId`, and its storage is left as it
/// was.
pub proof fn lemma_foreign_owner_is_rejected(
    program_id: Identity,
    accounts: Seq<AccountView>,
    instruction_data: Seq<u8>,
)
    requires
        instruction_data.len() >= 8,
        accounts.len() > 0,
        accounts[0].is_signer,
        accounts[0].owner != program_id,
    ensures
        Processor::outcome(program_id, accounts, instruction_data) == Err::<(), PriceUpdateError>(
            PriceUpdateError::IncorrectProgramId,
        ),
        Processor::processed(program_id, accounts, instruction_data) == accounts,
{
}

/// With a well-formed payload, an authorised updater whose storage holds
/// fewer than eight bytes is rejected as `Codec`, and its storage is left as
/// it was.
pub proof fn lemma_short_storage_is_rejected(
    program_id: Identity,
    accounts: Seq<AccountView>,
    instruction_data: Seq<u8>,
)
    requires
        instruction_data.len() >= 8,
        accounts.len() > 0,
        accounts[0].is_signer,
        accounts[0].owner == program_id,
        accounts[0].data.len() < 8,
    ensures
        Processor::outcome(program_id, accounts, instruction_data) == Err::<(), PriceUpdateError>(
            PriceUpdateError::Codec,
        ),
        Processor::processed(program_id, accounts, instruction_data) == accounts,
{
}

} // verus!
