//! How requests for an APY are accepted and answered.
use vstd::prelude::*;

use crate::address::{address_value, checksum_text, law_checksum_is_read_back, Address};
use crate::amount::{amount_value, parse_amount};
use crate::dto::ApyResponseDto;
use crate::query::{opening, VaultQuery};
use crate::service::MorphoService;

verus! {

/// The answer to a request.
#[derive(Debug)]
pub enum ApyReply {
    /// The APY was computed.
    Found(ApyResponseDto),
    /// The request names no vault, or no amount.
    BadRequest,
    /// The APY could not be computed.
    BadGateway,
}

impl ApyReply {
    /// The status code of HTTP.
    pub fn status(&self) -> (r: u16)
        ensures
            r == (match *self {
                ApyReply::Found(_) => 200u16,
                ApyReply::BadRequest => 400u16,
                ApyReply::BadGateway => 502u16,
            }),
    {
        match self {
            ApyReply::Found(_) => 200,
            ApyReply::BadRequest => 400,
            ApyReply::BadGateway => 502,
        }
    }
}

/// Accepts a request for the current APY of a vault, or refuses it.
pub fn apy_handler<P>(service: &MorphoService<P>, vault_addr: &str) -> (r: Result<
    VaultQuery,
    ApyReply,
>)
    ensures
        match address_value(vault_addr@) {
            Some(vault) => r is Ok && r->Ok_0@ == opening(vault, 0),
            None => r is Err && r->Err_0 is BadRequest,
        },
{
    match Address::parse(vault_addr) {
        Some(addr) => Ok(service.compute_vault_net_apy_percent(addr)),
        None => Err(ApyReply::BadRequest),
    }
}

/// Accepts a request for the APY of a vault after a deposit, or refuses it.
pub fn apy_after_deposit_handler<P>(
    service: &MorphoService<P>,
    vault_addr: &str,
    amount: &str,
) -> (r: Result<VaultQuery, ApyReply>)
    ensures
        match (address_value(vault_addr@), amount_value(amount@)) {
            (Some(vault), Some(deposit)) => r is Ok && r->Ok_0@ == opening(vault, deposit),
            _ => r is Err && r->Err_0 is BadRequest,
        },
{
    let amount = match parse_amount(amount) {
        Some(amount) => amount,
        None => {
            return Err(ApyReply::BadRequest);
        },
    };
    match Address::parse(vault_addr) {
        Some(addr) => Ok(service.compute_vault_net_apy_after_deposit(addr, amount)),
        None => Err(ApyReply::BadRequest),
    }
}

/// Answers an accepted request once its query has ended: with the APY, if there
/// is one.
pub fn apy_response(vault: &Address, apy: Option<String>) -> (r: ApyReply)
    ensures
        match apy {
            Some(text) => r is Found && r->Found_0.vault@ == checksum_text(vault@) && r->Found_0.apy@
                == text@,
            None => r is BadGateway,
        },
{
    match apy {
        Some(apy) => ApyReply::Found(ApyResponseDto { vault: vault.to_checksum(), apy }),
        None => ApyReply::BadGateway,
    }
}

/// The vault that an answer names is the one that the request named.
pub proof fn law_answer_names_requested_vault(vault_addr: Seq<char>)
    requires
        address_value(vault_addr) is Some,
    ensures
        address_value(checksum_text(address_value(vault_addr).unwrap())) == address_value(
            vault_addr,
        ),
{
    law_checksum_is_read_back(address_value(vault_addr).unwrap());
}

} // verus!
