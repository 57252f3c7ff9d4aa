//! What holds of every dialogue with the chain.
use vstd::prelude::*;

use crate::abi::{
    fee_input, morpho_input, returned_address, returned_bytes32, returned_uint256, returned_uint96,
    withdraw_queue_input, withdraw_queue_length_input,
};
use crate::address::{law_zero_address, zero_address, Address};
use crate::apy::sum_exposure;
use crate::apy_laws::law_no_assets_no_yield;
use crate::market::{Market, MarketId, MarketParams, MarketReading, Position};
use crate::percent::{apy_text, hundredths, percent_text};
use crate::query::{
    at_stage, current_id, market_count, next_market, opening, pending_request, step, with_reading,
    Outcome, OutcomeView, ProgressView, QueryError, QueryView, Reply, ReplyView, Request, RequestView,
    StageView, VaultQuery,
};
use crate::u256::U256;

verus! {

/// The chain, as a vault query sees it: what it replies depends on the request
/// alone.
pub struct Chain {
    /// What a contract returns for an input.
    pub call: spec_fn(Seq<u8>, Seq<u8>) -> Seq<u8>,
    /// The parameters that a Morpho contract holds for a market.
    pub params: spec_fn(Seq<u8>, Seq<u8>) -> MarketParams,
    /// The totals that a Morpho contract holds for a market.
    pub market: spec_fn(Seq<u8>, Seq<u8>) -> Market,
    /// The position that a Morpho contract holds for a market and an account.
    pub position: spec_fn(Seq<u8>, Seq<u8>, Seq<u8>) -> Position,
    /// The rate that an interest rate model sets for a market.
    pub borrow_rate: spec_fn(Seq<u8>, MarketParams, Market) -> U256,
}

impl Chain {
    /// What the chain replies to a request.
    pub open spec fn reply(self, request: RequestView) -> ReplyView {
        match request {
            RequestView::Vault { vault, inputs } => ReplyView::Vault(
                Seq::new(inputs.len(), |i: int| (self.call)(vault, inputs[i])),
            ),
            RequestView::MarketParams { morpho, id } => ReplyView::MarketParams(
                (self.params)(morpho, id),
            ),
            RequestView::Market { morpho, id } => ReplyView::Market((self.market)(morpho, id)),
            RequestView::Position { morpho, id, user } => ReplyView::Position(
                (self.position)(morpho, id, user),
            ),
            RequestView::BorrowRate { irm, params, market } => ReplyView::BorrowRate(
                (self.borrow_rate)(irm, params, market),
            ),
        }
    }

    /// The Morpho contract of a vault.
    pub open spec fn morpho_of(self, vault: Seq<u8>) -> Option<Seq<u8>> {
        returned_address((self.call)(vault, morpho_input()))
    }

    /// The fee of a vault.
    pub open spec fn fee_of(self, vault: Seq<u8>) -> Option<nat> {
        returned_uint96((self.call)(vault, fee_input()))
    }

    /// The length of a vault's withdraw queue.
    pub open spec fn queue_length_of(self, vault: Seq<u8>) -> Option<nat> {
        returned_uint256((self.call)(vault, withdraw_queue_length_input()))
    }

    /// The id at an index of a vault's withdraw queue.
    pub open spec fn id_of(self, vault: Seq<u8>, i: int) -> Option<Seq<u8>> {
        returned_bytes32((self.call)(vault, withdraw_queue_input(i as nat)))
    }

    /// Whether an address is that of a vault: it has a Morpho contract, a fee
    /// and a withdraw queue of a length that this machine can count.
    pub open spec fn has_vault(self, vault: Seq<u8>) -> bool {
        &&& self.morpho_of(vault) is Some
        &&& self.fee_of(vault) is Some
        &&& self.queue_length_of(vault) is Some
        &&& self.queue_length_of(vault).unwrap() <= usize::MAX
        &&& forall|i: int|
            0 <= i < self.queue_length_of(vault).unwrap() ==> (#[trigger] self.id_of(
                vault,
                i,
            )) is Some
    }

    /// What there is to read of a market on behalf of a vault.
    pub open spec fn reading(self, vault: Seq<u8>, id: Seq<u8>) -> MarketReading {
        let morpho = self.morpho_of(vault).unwrap();
        let params = (self.params)(morpho, id);
        let market = (self.market)(morpho, id);
        MarketReading {
            market,
            vault_shares: (self.position)(morpho, id, vault).supply_shares,
            borrow_rate: if params.irm@ == zero_address() {
                None
            } else {
                Some((self.borrow_rate)(params.irm@, params, market))
            },
        }
    }

    /// What there is to read of the first `n` markets of a vault.
    pub open spec fn readings(self, vault: Seq<u8>, n: nat) -> Seq<MarketReading> {
        Seq::new(n, |i: int| self.reading(vault, self.id_of(vault, i).unwrap()))
    }

    /// How a query ends that is answered by this chain, within a number of
    /// replies.
    pub open spec fn answer(self, q: QueryView, replies: nat) -> Option<
        Result<Seq<char>, QueryError>,
    >
        decreases replies,
    {
        if replies == 0 {
            None
        } else {
            match step(q, self.reply(pending_request(q))) {
                Err(e) => Some(Err(e)),
                Ok(OutcomeView::Finished(text)) => Some(Ok(text)),
                Ok(OutcomeView::Pending(next)) => self.answer(next, (replies - 1) as nat),
            }
        }
    }
}

/// The ids in a vault's withdraw queue.
spec fn ids_of(chain: Chain, vault: Seq<u8>) -> Seq<Seq<u8>> {
    Seq::new(chain.queue_length_of(vault).unwrap(), |i: int| chain.id_of(vault, i).unwrap())
}

/// A query that has read the first `k` markets of a vault.
spec fn at_market(chain: Chain, vault: Seq<u8>, deposit: nat, k: nat) -> QueryView {
    let p = ProgressView {
        morpho: chain.morpho_of(vault).unwrap(),
        fee: chain.fee_of(vault).unwrap(),
        ids: ids_of(chain, vault),
        readings: chain.readings(vault, k),
    };
    QueryView { vault, deposit, stage: StageView::Params(p) }
}

/// What a query for a vault is to end with.
spec fn expected(chain: Chain, vault: Seq<u8>, deposit: nat) -> Option<
    Result<Seq<char>, QueryError>,
> {
    let n = chain.queue_length_of(vault).unwrap();
    Some(Ok(apy_text(chain.readings(vault, n), chain.fee_of(vault).unwrap(), deposit)))
}

/// The answer to a query is that to the query one reply later.
proof fn lemma_one_reply(chain: Chain, q: QueryView, next: QueryView, replies: nat)
    requires
        replies > 0,
        step(q, chain.reply(pending_request(q))) == Ok::<OutcomeView, QueryError>(
            OutcomeView::Pending(next),
        ),
    ensures
        chain.answer(q, replies) == chain.answer(next, (replies - 1) as nat),
{
}

/// A query ends with the last reply.
proof fn lemma_last_reply(chain: Chain, q: QueryView, text: Seq<char>, replies: nat)
    requires
        replies > 0,
        step(q, chain.reply(pending_request(q))) == Ok::<OutcomeView, QueryError>(
            OutcomeView::Finished(text),
        ),
    ensures
        chain.answer(q, replies) == Some(Ok::<Seq<char>, QueryError>(text)),
{
}

/// How many replies it takes to read a market.
spec fn replies_for(chain: Chain, vault: Seq<u8>, k: nat) -> nat {
    if chain.readings(vault, k + 1)[k as int].borrow_rate is None {
        3
    } else {
        4
    }
}

/// A query reads one market, and goes on.
proof fn lemma_market_is_read(chain: Chain, vault: Seq<u8>, deposit: nat, k: nat, replies: nat)
    requires
        k < chain.queue_length_of(vault).unwrap(),
        replies >= 4,
    ensures
        k + 1 < chain.queue_length_of(vault).unwrap() ==> chain.answer(
            at_market(chain, vault, deposit, k),
            replies,
        ) == chain.answer(
            at_market(chain, vault, deposit, k + 1),
            (replies - replies_for(chain, vault, k)) as nat,
        ),
        k + 1 == chain.queue_length_of(vault).unwrap() ==> chain.answer(
            at_market(chain, vault, deposit, k),
            replies,
        ) == expected(chain, vault, deposit),
{
    let n = chain.queue_length_of(vault).unwrap();
    let q0 = at_market(chain, vault, deposit, k);
    let p = q0.stage->Params_0;
    let id = chain.id_of(vault, k as int).unwrap();
    assert(current_id(p) == id);
    let params = (chain.params)(p.morpho, id);
    let market = (chain.market)(p.morpho, id);
    let position = (chain.position)(p.morpho, id, vault);
    let q1 = QueryView { stage: StageView::Market(p, params), ..q0 };
    lemma_one_reply(chain, q0, q1, replies);
    let q2 = QueryView { stage: StageView::Position(p, params, market), ..q0 };
    lemma_one_reply(chain, q1, q2, (replies - 1) as nat);
    let reading = chain.reading(vault, id);
    assert(p.readings.push(reading) =~= chain.readings(vault, k + 1));
    let q4 = at_market(chain, vault, deposit, k + 1);
    let text = apy_text(chain.readings(vault, k + 1), p.fee, deposit);
    if params.irm@ == zero_address() {
        assert(with_reading(p, market, position, None).readings == chain.readings(vault, k + 1));
        if k + 1 < n {
            lemma_one_reply(chain, q2, q4, (replies - 2) as nat);
        } else {
            lemma_last_reply(chain, q2, text, (replies - 2) as nat);
        }
    } else {
        let q3 = QueryView { stage: StageView::BorrowRate(p, params, market, position), ..q0 };
        lemma_one_reply(chain, q2, q3, (replies - 2) as nat);
        let rate = (chain.borrow_rate)(params.irm@, params, market);
        assert(with_reading(p, market, position, Some(rate)).readings == chain.readings(
            vault,
            k + 1,
        ));
        if k + 1 < n {
            lemma_one_reply(chain, q3, q4, (replies - 3) as nat);
        } else {
            lemma_last_reply(chain, q3, text, (replies - 3) as nat);
        }
    }
}

/// A query that has read `k` markets reads the others, with at most four
/// replies for each.
proof fn lemma_markets_are_read(chain: Chain, vault: Seq<u8>, deposit: nat, k: nat, replies: nat)
    requires
        k < chain.queue_length_of(vault).unwrap(),
        replies >= 4 * (chain.queue_length_of(vault).unwrap() - k),
    ensures
        chain.answer(at_market(chain, vault, deposit, k), replies) == expected(
            chain,
            vault,
            deposit,
        ),
    decreases chain.queue_length_of(vault).unwrap() - k,
{
    lemma_market_is_read(chain, vault, deposit, k, replies);
    if k + 1 < chain.queue_length_of(vault).unwrap() {
        let left = (replies - replies_for(chain, vault, k)) as nat;
        lemma_markets_are_read(chain, vault, deposit, k + 1, left);
    }
}

/// What a query makes of a vault's head data.
proof fn lemma_head_is_read(chain: Chain, vault: Seq<u8>, deposit: nat)
    requires
        chain.morpho_of(vault) is Some,
        chain.fee_of(vault) is Some,
        chain.queue_length_of(vault) is Some,
        chain.queue_length_of(vault).unwrap() <= usize::MAX,
    ensures
        ({
            let q = opening(vault, deposit);
            let morpho = chain.morpho_of(vault).unwrap();
            let fee = chain.fee_of(vault).unwrap();
            let count = chain.queue_length_of(vault).unwrap();
            let none = ProgressView { morpho, fee, ids: seq![], readings: seq![] };
            step(q, chain.reply(pending_request(q))) == Ok::<OutcomeView, QueryError>(
                if count == 0 {
                    next_market(q, none)
                } else {
                    at_stage(q, StageView::Queue { morpho, fee, count })
                },
            )
        }),
{
    let n = chain.queue_length_of(vault).unwrap();
    assert(market_count(n) == n) by {
        vstd::arithmetic::div_mod::lemma_small_mod(n, usize::MAX as nat + 1);
    }
}

/// What a query makes of a vault's withdraw queue.
proof fn lemma_queue_is_read(chain: Chain, vault: Seq<u8>, deposit: nat)
    requires
        chain.has_vault(vault),
        chain.queue_length_of(vault).unwrap() > 0,
    ensures
        ({
            let morpho = chain.morpho_of(vault).unwrap();
            let fee = chain.fee_of(vault).unwrap();
            let count = chain.queue_length_of(vault).unwrap();
            let stage = StageView::Queue { morpho, fee, count };
            let q = QueryView { vault, deposit, stage };
            step(q, chain.reply(pending_request(q))) == Ok::<OutcomeView, QueryError>(
                OutcomeView::Pending(at_market(chain, vault, deposit, 0)),
            )
        }),
{
    let n = chain.queue_length_of(vault).unwrap();
    let replies = Seq::new(n, |i: int| (chain.call)(vault, withdraw_queue_input(i as nat)));
    let inputs = Seq::new(n, |i: int| withdraw_queue_input(i as nat));
    assert(Seq::new(n, |i: int| (chain.call)(vault, inputs[i])) =~= replies);
    assert forall|i: int| 0 <= i < n implies returned_bytes32(#[trigger] replies[i])
        == chain.id_of(vault, i) && chain.id_of(vault, i) is Some by {
    }
    assert(Seq::new(n, |i: int| returned_bytes32(replies[i]).unwrap()) =~= ids_of(chain, vault));
    assert(chain.readings(vault, 0) =~= seq![]);
}

/// A query for a vault ends with the net APY of the vault's markets as the
/// chain holds them, after at most two replies and four more for each market.
pub proof fn law_query_reports_net_apy(chain: Chain, vault: Seq<u8>, deposit: nat)
    requires
        chain.has_vault(vault),
    ensures
        ({
            let n = chain.queue_length_of(vault).unwrap();
            let fee = chain.fee_of(vault).unwrap();
            chain.answer(opening(vault, deposit), 2 + 4 * n) == Some(
                Ok::<Seq<char>, QueryError>(apy_text(chain.readings(vault, n), fee, deposit)),
            )
        }),
{
    let morpho = chain.morpho_of(vault).unwrap();
    let fee = chain.fee_of(vault).unwrap();
    let n = chain.queue_length_of(vault).unwrap();
    let q0 = opening(vault, deposit);
    lemma_head_is_read(chain, vault, deposit);
    if n == 0 {
        assert(chain.readings(vault, 0) =~= seq![]);
        lemma_last_reply(chain, q0, apy_text(seq![], fee, deposit), 2);
    } else {
        let stage = StageView::Queue { morpho, fee, count: n };
        let q1 = QueryView { vault, deposit, stage };
        lemma_one_reply(chain, q0, q1, 2 + 4 * n);
        lemma_queue_is_read(chain, vault, deposit);
        lemma_one_reply(chain, q1, at_market(chain, vault, deposit, 0), 1 + 4 * n);
        lemma_markets_are_read(chain, vault, deposit, 0, 4 * n);
    }
}

/// A query ends in an error after the first reply where the address is not
/// that of a vault, or its queue is longer than 128 bits can count.
pub proof fn law_unreadable_head_is_an_error(
    chain: Chain,
    vault: Seq<u8>,
    deposit: nat,
    replies: nat,
)
    requires
        replies > 0,
    ensures
        ({
            let answer = chain.answer(opening(vault, deposit), replies);
            let length = chain.queue_length_of(vault);
            if chain.morpho_of(vault) is None {
                answer == Some(Err::<Seq<char>, QueryError>(QueryError::Morpho))
            } else if chain.fee_of(vault) is None {
                answer == Some(Err::<Seq<char>, QueryError>(QueryError::Fee))
            } else if length is None {
                answer == Some(Err::<Seq<char>, QueryError>(QueryError::QueueLength))
            } else if length.unwrap() > u128::MAX {
                answer == Some(Err::<Seq<char>, QueryError>(QueryError::QueueTooLong))
            } else {
                true
            }
        }),
{
    let q = opening(vault, deposit);
    let r = chain.reply(pending_request(q));
    assert(r->Vault_0.len() == 3);
}

/// A query ends in an error after the second reply where an entry of the
/// vault's withdraw queue is no id.
pub proof fn law_unreadable_id_is_an_error(
    chain: Chain,
    vault: Seq<u8>,
    deposit: nat,
    replies: nat,
    i: int,
)
    requires
        replies > 1,
        chain.morpho_of(vault) is Some,
        chain.fee_of(vault) is Some,
        chain.queue_length_of(vault) is Some,
        0 <= i < chain.queue_length_of(vault).unwrap() <= usize::MAX,
        chain.id_of(vault, i) is None,
    ensures
        chain.answer(opening(vault, deposit), replies) == Some(
            Err::<Seq<char>, QueryError>(QueryError::MarketId),
        ),
{
    let morpho = chain.morpho_of(vault).unwrap();
    let fee = chain.fee_of(vault).unwrap();
    let n = chain.queue_length_of(vault).unwrap();
    lemma_head_is_read(chain, vault, deposit);
    let q0 = opening(vault, deposit);
    let q1 = QueryView { vault, deposit, stage: StageView::Queue { morpho, fee, count: n } };
    lemma_one_reply(chain, q0, q1, replies);
    let r = chain.reply(pending_request(q1))->Vault_0;
    assert(r.len() == n);
    assert(returned_bytes32(r[i]) is None);
    assert(step(q1, chain.reply(pending_request(q1))) == Err::<OutcomeView, QueryError>(
        QueryError::MarketId,
    ));
}

/// A vault without assets reports zero percent.
pub proof fn law_no_assets_reports_zero(ms: Seq<MarketReading>, fee: nat, deposit: nat)
    requires
        sum_exposure(ms) == 0,
    ensures
        apy_text(ms, fee, deposit) == "0.00%"@,
{
    law_no_assets_no_yield(ms, fee, deposit);
    reveal_strlit("0.00%");
    assert(hundredths(0) == 0);
    assert(percent_text(0) =~= "0.00%"@);
}

/// A query opens with the vault and the deposit that it is for, and first asks
/// that vault for its Morpho contract, its fee and the length of its queue.
pub proof fn law_query_opens_at_its_vault(vault: Seq<u8>, deposit: nat)
    ensures
        ({
            let q = opening(vault, deposit);
            &&& q.vault == vault
            &&& q.deposit == deposit
            &&& q.stage is Head
            &&& pending_request(q) matches RequestView::Vault { vault: asked, inputs }
            &&& asked == vault
            &&& inputs == seq![morpho_input(), fee_input(), withdraw_queue_length_input()]
        }),
{
}

/// A queue length is counted whole where this machine can count it, and without
/// its upper bits where it cannot.
pub proof fn law_queue_length_is_counted(length: nat)
    ensures
        length <= usize::MAX ==> market_count(length) == length,
        market_count(length) <= usize::MAX,
        market_count(length + usize::MAX as nat + 1) == market_count(length),
{
    let span = usize::MAX as nat + 1;
    vstd::arithmetic::div_mod::lemma_mod_bound(length as int, span as int);
    vstd::arithmetic::div_mod::lemma_mod_add_multiples_vanish(length as int, span as int);
    if length <= usize::MAX {
        vstd::arithmetic::div_mod::lemma_small_mod(length, span);
    }
}

/// Once the vault has told its head data, a query for it asks the same vault
/// for the ids of its markets, in order and each once, and for the same deposit.
/// Without markets it ends with the APY of none.
pub proof fn law_head_leads_to_queue(
    vault: Seq<u8>,
    deposit: nat,
    replies: Seq<Seq<u8>>,
    morpho: Seq<u8>,
    fee: nat,
    length: nat,
    i: int,
)
    requires
        replies.len() == 3,
        returned_address(replies[0]) == Some(morpho),
        returned_uint96(replies[1]) == Some(fee),
        returned_uint256(replies[2]) == Some(length),
        length <= u128::MAX,
    ensures
        ({
            let r = step(opening(vault, deposit), ReplyView::Vault(replies));
            let n = market_count(length);
            &&& n == 0 ==> r == Ok::<OutcomeView, QueryError>(
                OutcomeView::Finished(apy_text(seq![], fee, deposit)),
            )
            &&& n > 0 ==> ({
                &&& r is Ok
                &&& r->Ok_0 matches OutcomeView::Pending(q)
                &&& q.vault == vault
                &&& q.deposit == deposit
                &&& q.stage == (StageView::Queue { morpho, fee, count: n })
                &&& pending_request(q) matches RequestView::Vault { vault: asked, inputs }
                &&& asked == vault
                &&& inputs.len() == n
                &&& 0 <= i < n ==> inputs[i] == withdraw_queue_input(i as nat)
            })
        }),
{
}

/// A head that is not read in full ends the query, with the error of the first
/// reply that is not read.
pub proof fn law_head_is_read_in_order(vault: Seq<u8>, deposit: nat, replies: Seq<Seq<u8>>)
    ensures
        ({
            let r = step(opening(vault, deposit), ReplyView::Vault(replies));
            let failed = |e: QueryError| r == Err::<OutcomeView, QueryError>(e);
            &&& failed(QueryError::UnexpectedReply) <==> replies.len() != 3
            &&& failed(QueryError::Morpho) <==> replies.len() == 3 && replies[0].len() < 32
            &&& failed(QueryError::Fee) <==> replies.len() == 3 && replies[0].len() >= 32
                && replies[1].len() < 32
            &&& failed(QueryError::QueueLength) <==> replies.len() == 3 && replies[0].len() >= 32
                && replies[1].len() >= 32 && replies[2].len() < 32
            &&& failed(QueryError::QueueTooLong) <==> replies.len() == 3 && replies[0].len() >= 32
                && replies[1].len() >= 32 && replies[2].len() >= 32 && returned_uint256(
                replies[2],
            ).unwrap() > u128::MAX
            &&& !failed(QueryError::MarketId)
        }),
{
}

/// The ids that the vault has told are taken over in order, and the first
/// market is asked about next; one reply that is no id, or one too many or too
/// few, ends the query. Nothing else that the query knows changes.
pub proof fn law_queue_leads_to_first_market(q: QueryView, replies: Seq<Seq<u8>>, i: int)
    requires
        q.stage is Queue,
        q.stage->count > 0,
    ensures
        ({
            let r = step(q, ReplyView::Vault(replies));
            let n = q.stage->count;
            &&& replies.len() != n ==> r == Err::<OutcomeView, QueryError>(
                QueryError::UnexpectedReply,
            )
            &&& replies.len() == n && 0 <= i < n && replies[i].len() < 32 ==> r == Err::<
                OutcomeView,
                QueryError,
            >(QueryError::MarketId)
            &&& replies.len() == n && (forall|j: int|
                0 <= j < n ==> (#[trigger] replies[j]).len() >= 32) ==> ({
                &&& r is Ok
                &&& r->Ok_0 matches OutcomeView::Pending(next)
                &&& next.vault == q.vault
                &&& next.deposit == q.deposit
                &&& next.stage matches StageView::Params(p)
                &&& p.morpho == q.stage->Queue_morpho
                &&& p.fee == q.stage->Queue_fee
                &&& p.readings.len() == 0
                &&& p.ids.len() == n
                &&& 0 <= i < n ==> p.ids[i] == replies[i].take(32)
                &&& pending_request(next) == (RequestView::MarketParams {
                    morpho: p.morpho,
                    id: replies[0].take(32),
                })
            })
        }),
{
    let r = step(q, ReplyView::Vault(replies));
    let n = q.stage->count;
    if replies.len() == n && 0 <= i < n && replies[i].len() < 32 {
        assert(returned_bytes32(replies[i]) is None);
    }
    if replies.len() == n && (forall|j: int| 0 <= j < n ==> (#[trigger] replies[j]).len() >= 32) {
        assert forall|j: int| 0 <= j < n implies returned_bytes32(#[trigger] replies[j]) is Some by {
            assert(replies[j].len() >= 32);
        }
        assert(replies[0].subrange(0, 32) =~= replies[0].take(32));
        if 0 <= i < n {
            assert(replies[i].subrange(0, 32) =~= replies[i].take(32));
        }
    }
}

/// A market is read by asking for its parameters, its totals, the vault's
/// position in it and then, where it has an interest rate model, that model for
/// the rate. What was read is added as it came, and the query goes on to the
/// next market, or ends with the APY of all of them.
pub proof fn law_market_is_read_in_four_replies(
    q: QueryView,
    p: ProgressView,
    params: MarketParams,
    market: Market,
    position: Position,
    rate: U256,
)
    requires
        q.stage == StageView::Params(p),
        p.readings.len() < p.ids.len(),
    ensures
        ({
            let id = p.ids[p.readings.len() as int];
            let morpho = p.morpho;
            let q1 = QueryView { stage: StageView::Market(p, params), ..q };
            let q2 = QueryView { stage: StageView::Position(p, params, market), ..q };
            let q3 = QueryView { stage: StageView::BorrowRate(p, params, market, position), ..q };
            let without_model = forall|i: int| 0 <= i < 20 ==> #[trigger] params.irm.bytes@[i] == 0;
            let end = if without_model {
                step(q2, ReplyView::Position(position))
            } else {
                step(q3, ReplyView::BorrowRate(rate))
            };
            let reading = MarketReading {
                market,
                vault_shares: position.supply_shares,
                borrow_rate: if without_model {
                    None
                } else {
                    Some(rate)
                },
            };
            let readings = p.readings.push(reading);
            &&& pending_request(q) == (RequestView::MarketParams { morpho, id })
            &&& step(q, ReplyView::MarketParams(params)) == Ok::<OutcomeView, QueryError>(
                OutcomeView::Pending(q1),
            )
            &&& pending_request(q1) == (RequestView::Market { morpho, id })
            &&& step(q1, ReplyView::Market(market)) == Ok::<OutcomeView, QueryError>(
                OutcomeView::Pending(q2),
            )
            &&& pending_request(q2) == (RequestView::Position { morpho, id, user: q.vault })
            &&& !without_model ==> step(q2, ReplyView::Position(position)) == Ok::<
                OutcomeView,
                QueryError,
            >(OutcomeView::Pending(q3))
            &&& pending_request(q3) == (RequestView::BorrowRate {
                irm: params.irm.bytes@,
                params,
                market,
            })
            &&& readings.len() < p.ids.len() ==> end == Ok::<OutcomeView, QueryError>(
                OutcomeView::Pending(
                    QueryView {
                        vault: q.vault,
                        deposit: q.deposit,
                        stage: StageView::Params(
                            ProgressView { morpho, fee: p.fee, ids: p.ids, readings },
                        ),
                    },
                ),
            )
            &&& readings.len() == p.ids.len() ==> end == Ok::<OutcomeView, QueryError>(
                OutcomeView::Finished(apy_text(readings, p.fee, q.deposit)),
            )
        }),
{
    law_zero_address(params.irm@);
}

/// A reply of another kind than what was asked ends the query.
pub proof fn law_other_reply_is_refused(q: QueryView, reply: ReplyView)
    requires
        match pending_request(q) {
            RequestView::Vault { .. } => !(reply is Vault),
            RequestView::MarketParams { .. } => !(reply is MarketParams),
            RequestView::Market { .. } => !(reply is Market),
            RequestView::Position { .. } => !(reply is Position),
            RequestView::BorrowRate { .. } => !(reply is BorrowRate),
        },
    ensures
        step(q, reply) == Err::<OutcomeView, QueryError>(QueryError::UnexpectedReply),
{
}

/// A query that is answered by a chain stands where the chain's reply brings
/// it, and has no answer before its first reply.
pub proof fn law_answer_goes_reply_by_reply(chain: Chain, q: QueryView, replies: nat)
    ensures
        chain.answer(q, 0) is None,
        ({
            let r = step(q, chain.reply(pending_request(q)));
            let answer = chain.answer(q, replies + 1);
            &&& r matches Err(e) ==> answer == Some(Err::<Seq<char>, QueryError>(e))
            &&& r matches Ok(OutcomeView::Finished(text)) ==> answer == Some(
                Ok::<Seq<char>, QueryError>(text),
            )
            &&& r matches Ok(OutcomeView::Pending(next)) ==> answer == chain.answer(next, replies)
        }),
{
}

/// What a chain holds of a vault's market: its totals, the vault's own shares
/// in it, and the rate of its interest rate model, if it has one.
pub proof fn law_reading_is_what_chain_holds(
    chain: Chain,
    vault: Seq<u8>,
    morpho: Seq<u8>,
    id: Seq<u8>,
    n: nat,
    i: int,
)
    requires
        chain.morpho_of(vault) == Some(morpho),
        0 <= i < n,
        chain.id_of(vault, i) == Some(id),
    ensures
        ({
            let reading = chain.readings(vault, n)[i];
            let params = (chain.params)(morpho, id);
            let without_model = forall|j: int| 0 <= j < 20 ==> #[trigger] params.irm.bytes@[j] == 0;
            &&& chain.readings(vault, n).len() == n
            &&& reading.market == (chain.market)(morpho, id)
            &&& reading.vault_shares == (chain.position)(morpho, id, vault).supply_shares
            &&& without_model ==> reading.borrow_rate is None
            &&& !without_model ==> reading.borrow_rate == Some(
                (chain.borrow_rate)(params.irm.bytes@, params, reading.market),
            )
        }),
{
    law_zero_address((chain.params)(morpho, id).irm@);
}

/// A request is taken by its own bytes: those of the addresses, of the ids and
/// of each input.
pub proof fn law_request_is_taken_by_its_bytes(
    a: Address,
    b: Address,
    id: MarketId,
    inputs: Vec<Vec<u8>>,
    params: MarketParams,
    market: Market,
    i: int,
)
    ensures
        (Request::Vault { vault: a, inputs })@ is Vault,
        (Request::Vault { vault: a, inputs })@->Vault_vault == a.bytes@,
        (Request::Vault { vault: a, inputs })@->inputs.len() == inputs@.len(),
        0 <= i < inputs@.len() ==> (Request::Vault { vault: a, inputs })@->inputs[i] == inputs@[i]@,
        (Request::MarketParams { morpho: a, id })@ == (RequestView::MarketParams {
            morpho: a.bytes@,
            id: id.bytes@,
        }),
        (Request::Market { morpho: a, id })@ == (RequestView::Market {
            morpho: a.bytes@,
            id: id.bytes@,
        }),
        (Request::Position { morpho: a, id, user: b })@ == (RequestView::Position {
            morpho: a.bytes@,
            id: id.bytes@,
            user: b.bytes@,
        }),
        (Request::BorrowRate { irm: a, params, market })@ == (RequestView::BorrowRate {
            irm: a.bytes@,
            params,
            market,
        }),
{
}

/// A reply and a result are taken as they are.
pub proof fn law_reply_is_taken_as_it_is(
    replies: Vec<Vec<u8>>,
    params: MarketParams,
    market: Market,
    position: Position,
    rate: U256,
    text: String,
    query: VaultQuery,
    i: int,
)
    ensures
        ({
            &&& Reply::Vault(replies)@ matches ReplyView::Vault(taken)
            &&& taken.len() == replies@.len()
            &&& 0 <= i < replies@.len() ==> taken[i] == replies@[i]@
        }),
        Reply::MarketParams(params)@ == ReplyView::MarketParams(params),
        Reply::Market(market)@ == ReplyView::Market(market),
        Reply::Position(position)@ == ReplyView::Position(position),
        Reply::BorrowRate(rate)@ == ReplyView::BorrowRate(rate),
        Outcome::Finished(text)@ == OutcomeView::Finished(text@),
        Outcome::Pending(query)@ == OutcomeView::Pending(query@),
{
}

} // verus!
