use indexer_morpho::abi::{fee_call, morpho_call, withdraw_queue_call, withdraw_queue_length_call};
use indexer_morpho::address::Address;
use indexer_morpho::http::{apy_after_deposit_handler, apy_handler, apy_response, ApyReply};
use indexer_morpho::market::{Market, MarketId, MarketParams, Position};
use indexer_morpho::query::{Outcome, QueryError, Reply, Request, VaultQuery};
use indexer_morpho::service::MorphoService;
use indexer_morpho::u256::U256;

const VAULT: &str = "0xd8dA6BF26964aF9D7eEd9e03E53415D37aA96045";

fn u(n: u128) -> U256 {
    U256::from_limbs([n as u64, (n >> 64) as u64, 0, 0])
}

fn vault() -> Address {
    Address::parse(VAULT).unwrap()
}

fn morpho() -> Address {
    Address { bytes: [0x11; 20] }
}

fn irm() -> Address {
    Address { bytes: [0x22; 20] }
}

fn number_word(n: u128) -> Vec<u8> {
    let mut word = vec![0u8; 16];
    word.extend(n.to_be_bytes());
    word
}

fn address_word(a: Address) -> Vec<u8> {
    let mut word = vec![0u8; 12];
    word.extend(a.bytes);
    word
}

/// The markets of the vault: totals, the vault's shares, and a rate where the
/// market has an interest rate model.
fn chain() -> Vec<(Market, u128, Option<u128>)> {
    let market = |assets, shares, borrowed, fee| Market {
        total_supply_assets: assets,
        total_supply_shares: shares,
        total_borrow_assets: borrowed,
        total_borrow_shares: 5,
        last_update: 6,
        fee,
    };
    vec![
        (
            market(
                1_000_000_000_000,
                1_000_000_000_000_000_000,
                900_000_000_000,
                100_000_000_000_000_000,
            ),
            500_000_000_000_000_000,
            Some(1_500_000_000),
        ),
        (
            market(2_000_000_000_000, 1_900_000_000_000_000_000, 1_000_000_000_000, 0),
            100_000_000_000_000_000,
            Some(3_000_000_000),
        ),
        (
            market(5_000_000_000_000, 4_000_000_000_000_000_000, 1_000_000_000_000, 0),
            1_000_000_000_000_000_000,
            None,
        ),
    ]
}

fn id(i: usize) -> MarketId {
    MarketId { bytes: [i as u8 + 1; 32] }
}

fn params(i: usize, has_irm: bool) -> MarketParams {
    MarketParams {
        loan_token: Address { bytes: [1; 20] },
        collateral_token: Address { bytes: [2; 20] },
        oracle: Address { bytes: [3; 20] },
        irm: if has_irm { irm() } else { Address { bytes: [0; 20] } },
        lltv: u(i as u128),
    }
}

fn index_of(id: MarketId) -> usize {
    id.bytes[0] as usize - 1
}

/// Answers a request as the chain would.
fn reply(request: &Request) -> Reply {
    let chain = chain();
    match request {
        Request::Vault { vault: to, inputs } => {
            assert_eq!(*to, vault());
            Reply::Vault(
                inputs
                    .iter()
                    .map(|input| {
                        if *input == morpho_call() {
                            address_word(morpho())
                        } else if *input == fee_call() {
                            number_word(100_000_000_000_000_000)
                        } else if *input == withdraw_queue_length_call() {
                            number_word(chain.len() as u128)
                        } else {
                            let i = (0..chain.len())
                                .find(|i| *input == withdraw_queue_call(*i))
                                .unwrap();
                            id(i).bytes.to_vec()
                        }
                    })
                    .collect(),
            )
        }
        Request::MarketParams { morpho: to, id } => {
            assert_eq!(*to, morpho());
            let i = index_of(*id);
            Reply::MarketParams(params(i, chain[i].2.is_some()))
        }
        Request::Market { morpho: to, id } => {
            assert_eq!(*to, morpho());
            Reply::Market(chain[index_of(*id)].0)
        }
        Request::Position { morpho: to, id, user } => {
            assert_eq!(*to, morpho());
            assert_eq!(*user, vault());
            Reply::Position(Position {
                supply_shares: u(chain[index_of(*id)].1),
                borrow_shares: 7,
                collateral: 8,
            })
        }
        Request::BorrowRate { irm: to, params, market } => {
            assert_eq!(*to, irm());
            let i = params.lltv.into_limbs()[0] as usize;
            assert_eq!(*market, chain[i].0);
            Reply::BorrowRate(u(chain[i].2.unwrap()))
        }
    }
}

/// Runs a query to its end, and counts the replies.
fn run(query: VaultQuery) -> (String, usize) {
    let mut query = query;
    let mut replies = 0;
    loop {
        replies += 1;
        let answer = reply(&query.request());
        match query.resume(answer).unwrap() {
            Outcome::Pending(next) => query = next,
            Outcome::Finished(text) => return (text, replies),
        }
    }
}

fn resume(query: VaultQuery, reply: Reply) -> VaultQuery {
    match query.resume(reply).unwrap() {
        Outcome::Pending(next) => next,
        Outcome::Finished(text) => panic!("ended with {}", text),
    }
}

fn head(n: Vec<u8>) -> Reply {
    Reply::Vault(vec![address_word(morpho()), number_word(0), n])
}

#[test]
fn queries_end_with_the_net_apy() {
    let service = MorphoService::new(());
    // Two replies, four for each market with a rate model, three without.
    assert_eq!(run(service.compute_vault_net_apy_percent(vault())), ("1.20%".to_string(), 13));
}

#[test]
fn queries_take_a_deposit_into_account() {
    let service = MorphoService::new(());
    let after = |n| run(service.compute_vault_net_apy_after_deposit(vault(), u(n))).0;
    assert_eq!(after(0), "1.20%");
    assert_eq!(after(1_000_000_000_000), "0.99%");
    assert_eq!(after(10_000_000_000_000), "0.45%");
}

#[test]
fn services_keep_their_provider() {
    let service = MorphoService::new(17);
    assert_eq!(*service.provider(), 17);
    assert_eq!(*service.clone().provider(), 17);
}

#[test]
fn queries_first_ask_the_vault_for_its_head_data() {
    let query = VaultQuery::new(vault(), u(0));
    assert_eq!(query.vault(), vault());
    match query.request() {
        Request::Vault { vault: to, inputs } => {
            assert_eq!(to, vault());
            assert_eq!(inputs, vec![morpho_call(), fee_call(), withdraw_queue_length_call()]);
        }
        other => panic!("asked {:?}", other),
    }
}

#[test]
fn queries_then_ask_for_every_id() {
    let query = resume(VaultQuery::new(vault(), u(0)), head(number_word(2)));
    match query.request() {
        Request::Vault { vault: to, inputs } => {
            assert_eq!(to, vault());
            assert_eq!(inputs, vec![withdraw_queue_call(0), withdraw_queue_call(1)]);
        }
        other => panic!("asked {:?}", other),
    }
}

#[test]
fn vaults_without_markets_end_at_once() {
    match VaultQuery::new(vault(), u(5)).resume(head(number_word(0))).unwrap() {
        Outcome::Finished(text) => assert_eq!(text, "0.00%"),
        other => panic!("went on with {:?}", other),
    }
}

fn refusal(query: VaultQuery, reply: Reply) -> QueryError {
    match query.resume(reply) {
        Err(e) => e,
        Ok(outcome) => panic!("went on with {:?}", outcome),
    }
}

#[test]
fn undecodable_head_data_is_refused() {
    let query = || VaultQuery::new(vault(), u(0));
    let good = || number_word(1);
    let bad = || vec![0u8; 31];
    assert_eq!(refusal(query(), Reply::Vault(vec![bad(), bad(), bad()])), QueryError::Morpho);
    assert_eq!(refusal(query(), Reply::Vault(vec![good(), bad(), bad()])), QueryError::Fee);
    assert_eq!(
        refusal(query(), Reply::Vault(vec![good(), good(), bad()])),
        QueryError::QueueLength
    );
}

#[test]
fn endless_queues_are_refused() {
    let query = VaultQuery::new(vault(), u(0));
    assert_eq!(refusal(query, head(vec![1u8; 32])), QueryError::QueueTooLong);
}

#[test]
fn undecodable_ids_are_refused() {
    let query = resume(VaultQuery::new(vault(), u(0)), head(number_word(2)));
    let replies = Reply::Vault(vec![vec![1; 32], vec![1; 31]]);
    assert_eq!(refusal(query, replies), QueryError::MarketId);
}

#[test]
fn replies_to_something_else_are_refused() {
    let query = || VaultQuery::new(vault(), u(0));
    assert_eq!(refusal(query(), Reply::BorrowRate(u(1))), QueryError::UnexpectedReply);
    assert_eq!(refusal(query(), Reply::Vault(vec![])), QueryError::UnexpectedReply);
    let queue = || resume(query(), head(number_word(1)));
    assert_eq!(refusal(queue(), Reply::Vault(vec![])), QueryError::UnexpectedReply);
    let at_market = resume(queue(), Reply::Vault(vec![vec![1; 32]]));
    assert_eq!(refusal(at_market, Reply::BorrowRate(u(1))), QueryError::UnexpectedReply);
}

#[test]
fn requests_for_a_vault_are_accepted() {
    let service = MorphoService::new(());
    let query = apy_handler(&service, VAULT).unwrap();
    assert_eq!(query.vault(), vault());
    assert_eq!(run(query).0, "1.20%");
    let query = apy_after_deposit_handler(&service, VAULT, "1,000,000,000,000").unwrap();
    assert_eq!(run(query).0, "0.99%");
}

#[test]
fn requests_without_vault_or_amount_are_refused() {
    let service = MorphoService::new(());
    let status = |r: Result<VaultQuery, ApyReply>| r.unwrap_err().status();
    assert_eq!(status(apy_handler(&service, "vault")), 400);
    assert_eq!(status(apy_after_deposit_handler(&service, "vault", "1")), 400);
    assert_eq!(status(apy_after_deposit_handler(&service, VAULT, "one")), 400);
    assert_eq!(status(apy_after_deposit_handler(&service, "vault", "one")), 400);
}

#[test]
fn answers_name_the_vault_and_its_apy() {
    let vault = Address::parse(&VAULT.to_lowercase()).unwrap();
    let reply = apy_response(&vault, Some("1.20%".to_string()));
    assert_eq!(reply.status(), 200);
    match reply {
        ApyReply::Found(body) => {
            assert_eq!(body.vault, VAULT);
            assert_eq!(body.apy, "1.20%");
        }
        other => panic!("answered {:?}", other),
    }
}

#[test]
fn failed_computations_are_answered_as_such() {
    let reply = apy_response(&vault(), None);
    assert_eq!(reply.status(), 502);
    assert!(matches!(reply, ApyReply::BadGateway));
}
