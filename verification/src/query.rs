//! The dialogue with the chain that gathers what a vault's APY is made of.
//!
//! A [`VaultQuery`] never talks to the chain itself. It names what it needs next
//! ([`VaultQuery::request`]), is handed the reply ([`VaultQuery::resume`]), and
//! ends with the vault's net APY as text. It first asks the vault for the
//! address of the Morpho contract, its fee and the length of its withdraw
//! queue, then for the ids of the markets in that queue, and then goes through
//! these markets in order.
use vstd::prelude::*;

use crate::abi::{
    fee_call, fee_input, morpho_call, morpho_input, read_address, read_bytes32, read_uint256,
    read_uint96, returned_address, returned_bytes32, returned_uint256, returned_uint96,
    withdraw_queue_call, withdraw_queue_input, withdraw_queue_length_call,
    withdraw_queue_length_input,
};
use crate::address::{zero_address, Address};
use crate::market::{Market, MarketId, MarketParams, MarketReading, Position};
use crate::percent::{apy_text, net_apy_percent};
use crate::u256::U256;

verus! {

/// What a query asks of the chain.
#[derive(Debug)]
pub enum Request {
    /// Call the vault once for each input, all at the pending block.
    Vault { vault: Address, inputs: Vec<Vec<u8>> },
    /// The parameters of a market.
    MarketParams { morpho: Address, id: MarketId },
    /// The totals of a market.
    Market { morpho: Address, id: MarketId },
    /// The position of an account in a market.
    Position { morpho: Address, id: MarketId, user: Address },
    /// The borrow rate that an interest rate model sets for a market.
    BorrowRate { irm: Address, params: MarketParams, market: Market },
}

/// What the chain replies to a [`Request`].
#[derive(Debug)]
pub enum Reply {
    /// What each call returned, in the order of the inputs.
    Vault(Vec<Vec<u8>>),
    MarketParams(MarketParams),
    Market(Market),
    Position(Position),
    /// A rate per second, as a WAD.
    BorrowRate(U256),
}

/// Why a query ends without a result.
#[derive(Clone, Copy, Debug, PartialEq, Eq)]
pub enum QueryError {
    /// The reply is not one to what was asked.
    UnexpectedReply,
    /// What `MORPHO()` returned is no address.
    Morpho,
    /// What `fee()` returned is no number.
    Fee,
    /// What `withdrawQueueLength()` returned is no number.
    QueueLength,
    /// The withdraw queue is longer than 128 bits can count.
    QueueTooLong,
    /// What `withdrawQueue(index)` returned is no id.
    MarketId,
}

/// What is known once the ids of the markets are.
#[derive(Debug)]
struct Progress {
    morpho: Address,
    fee: U256,
    ids: Vec<MarketId>,
    /// What was read of the markets so far, in the order of the ids.
    readings: Vec<MarketReading>,
}

#[derive(Debug)]
enum Stage {
    Head,
    Queue { morpho: Address, fee: U256, count: usize },
    Params(Progress),
    Market(Progress, MarketParams),
    Position(Progress, MarketParams, Market),
    BorrowRate(Progress, MarketParams, Market, Position),
}

/// A query for the net APY of a vault, were `deposit` added to its assets.
#[derive(Debug)]
pub struct VaultQuery {
    vault: Address,
    deposit: U256,
    stage: Stage,
}

/// How a query stands after a reply.
#[derive(Debug)]
pub enum Outcome {
    /// There is more to ask.
    Pending(VaultQuery),
    /// The net APY, as a percentage.
    Finished(String),
}

/// [`Request`], in mathematical values.
pub enum RequestView {
    Vault { vault: Seq<u8>, inputs: Seq<Seq<u8>> },
    MarketParams { morpho: Seq<u8>, id: Seq<u8> },
    Market { morpho: Seq<u8>, id: Seq<u8> },
    Position { morpho: Seq<u8>, id: Seq<u8>, user: Seq<u8> },
    BorrowRate { irm: Seq<u8>, params: MarketParams, market: Market },
}

/// [`Reply`], in mathematical values.
pub enum ReplyView {
    Vault(Seq<Seq<u8>>),
    MarketParams(MarketParams),
    Market(Market),
    Position(Position),
    BorrowRate(U256),
}

/// What is known once the ids of the markets are.
pub struct ProgressView {
    pub morpho: Seq<u8>,
    pub fee: nat,
    pub ids: Seq<Seq<u8>>,
    pub readings: Seq<MarketReading>,
}

/// How far a query has come: what it waits for, and what it has learned.
pub enum StageView {
    Head,
    Queue { morpho: Seq<u8>, fee: nat, count: nat },
    Params(ProgressView),
    Market(ProgressView, MarketParams),
    Position(ProgressView, MarketParams, Market),
    BorrowRate(ProgressView, MarketParams, Market, Position),
}

/// [`VaultQuery`], in mathematical values.
pub struct QueryView {
    pub vault: Seq<u8>,
    pub deposit: nat,
    pub stage: StageView,
}

/// [`Outcome`], in mathematical values.
pub enum OutcomeView {
    Pending(QueryView),
    Finished(Seq<char>),
}

/// The contents of each of a number of byte vectors.
pub open spec fn contents(v: Seq<Vec<u8>>) -> Seq<Seq<u8>> {
    Seq::new(v.len(), |i: int| v[i]@)
}

impl View for Request {
    type V = RequestView;

    open spec fn view(&self) -> RequestView {
        match *self {
            Request::Vault { vault, inputs } => RequestView::Vault {
                vault: vault@,
                inputs: contents(inputs@),
            },
            Request::MarketParams { morpho, id } => RequestView::MarketParams {
                morpho: morpho@,
                id: id@,
            },
            Request::Market { morpho, id } => RequestView::Market { morpho: morpho@, id: id@ },
            Request::Position { morpho, id, user } => RequestView::Position {
                morpho: morpho@,
                id: id@,
                user: user@,
            },
            Request::BorrowRate { irm, params, market } => RequestView::BorrowRate {
                irm: irm@,
                params,
                market,
            },
        }
    }
}

impl View for Reply {
    type V = ReplyView;

    open spec fn view(&self) -> ReplyView {
        match *self {
            Reply::Vault(replies) => ReplyView::Vault(contents(replies@)),
            Reply::MarketParams(params) => ReplyView::MarketParams(params),
            Reply::Market(market) => ReplyView::Market(market),
            Reply::Position(position) => ReplyView::Position(position),
            Reply::BorrowRate(rate) => ReplyView::BorrowRate(rate),
        }
    }
}

impl View for Progress {
    type V = ProgressView;

    closed spec fn view(&self) -> ProgressView {
        ProgressView {
            morpho: self.morpho@,
            fee: self.fee@,
            ids: Seq::new(self.ids@.len(), |i: int| self.ids@[i]@),
            readings: self.readings@,
        }
    }
}

impl View for Stage {
    type V = StageView;

    closed spec fn view(&self) -> StageView {
        match *self {
            Stage::Head => StageView::Head,
            Stage::Queue { morpho, fee, count } => StageView::Queue {
                morpho: morpho@,
                fee: fee@,
                count: count as nat,
            },
            Stage::Params(p) => StageView::Params(p@),
            Stage::Market(p, params) => StageView::Market(p@, params),
            Stage::Position(p, params, market) => StageView::Position(p@, params, market),
            Stage::BorrowRate(p, params, market, position) => StageView::BorrowRate(
                p@,
                params,
                market,
                position,
            ),
        }
    }
}

impl View for VaultQuery {
    type V = QueryView;

    closed spec fn view(&self) -> QueryView {
        QueryView { vault: self.vault@, deposit: self.deposit@, stage: self.stage@ }
    }
}

impl View for Outcome {
    type V = OutcomeView;

    open spec fn view(&self) -> OutcomeView {
        match *self {
            Outcome::Pending(query) => OutcomeView::Pending(query@),
            Outcome::Finished(text) => OutcomeView::Finished(text@),
        }
    }
}

/// A query that has not asked anything yet.
pub open spec fn opening(vault: Seq<u8>, deposit: nat) -> QueryView {
    QueryView { vault, deposit, stage: StageView::Head }
}

/// The id of the market that a query is at.
pub open spec fn current_id(p: ProgressView) -> Seq<u8> {
    p.ids[p.readings.len() as int]
}

/// What a query asks next.
pub open spec fn pending_request(q: QueryView) -> RequestView {
    match q.stage {
        StageView::Head => RequestView::Vault {
            vault: q.vault,
            inputs: seq![morpho_input(), fee_input(), withdraw_queue_length_input()],
        },
        StageView::Queue { count, .. } => RequestView::Vault {
            vault: q.vault,
            inputs: Seq::new(count, |i: int| withdraw_queue_input(i as nat)),
        },
        StageView::Params(p) => RequestView::MarketParams { morpho: p.morpho, id: current_id(p) },
        StageView::Market(p, _) => RequestView::Market { morpho: p.morpho, id: current_id(p) },
        StageView::Position(p, _, _) => RequestView::Position {
            morpho: p.morpho,
            id: current_id(p),
            user: q.vault,
        },
        StageView::BorrowRate(_, params, market, _) => RequestView::BorrowRate {
            irm: params.irm@,
            params,
            market,
        },
    }
}

/// The query `q` at another stage.
pub open spec fn at_stage(q: QueryView, stage: StageView) -> OutcomeView {
    OutcomeView::Pending(QueryView { stage, ..q })
}

/// How a query goes on from a market to the next, or ends after the last.
pub open spec fn next_market(q: QueryView, p: ProgressView) -> OutcomeView {
    if p.readings.len() < p.ids.len() {
        at_stage(q, StageView::Params(p))
    } else {
        OutcomeView::Finished(apy_text(p.readings, p.fee, q.deposit))
    }
}

/// The number of markets that a queue length stands for: its last bits, as many
/// as an index of this machine has.
pub open spec fn market_count(length: nat) -> nat {
    length % (usize::MAX as nat + 1)
}

/// How a query goes on once the vault has told its head data.
pub open spec fn after_head(q: QueryView, replies: Seq<Seq<u8>>) -> Result<
    OutcomeView,
    QueryError,
> {
    if replies.len() != 3 {
        Err(QueryError::UnexpectedReply)
    } else {
        match (
            returned_address(replies[0]),
            returned_uint96(replies[1]),
            returned_uint256(replies[2]),
        ) {
            (None, _, _) => Err(QueryError::Morpho),
            (_, None, _) => Err(QueryError::Fee),
            (_, _, None) => Err(QueryError::QueueLength),
            (Some(morpho), Some(fee), Some(length)) => if length > u128::MAX {
                Err(QueryError::QueueTooLong)
            } else if market_count(length) == 0 {
                Ok(next_market(q, ProgressView { morpho, fee, ids: seq![], readings: seq![] }))
            } else {
                Ok(at_stage(q, StageView::Queue { morpho, fee, count: market_count(length) }))
            },
        }
    }
}

/// How a query goes on once the vault has told the ids of its markets.
pub open spec fn after_queue(
    q: QueryView,
    morpho: Seq<u8>,
    fee: nat,
    count: nat,
    replies: Seq<Seq<u8>>,
) -> Result<OutcomeView, QueryError> {
    if replies.len() != count {
        Err(QueryError::UnexpectedReply)
    } else if exists|i: int|
        0 <= i < replies.len() && returned_bytes32(#[trigger] replies[i]) is None {
        Err(QueryError::MarketId)
    } else {
        let ids = Seq::new(count, |i: int| returned_bytes32(replies[i]).unwrap());
        Ok(next_market(q, ProgressView { morpho, fee, ids, readings: seq![] }))
    }
}

/// The progress `p` with what was read of one more market.
pub open spec fn with_reading(
    p: ProgressView,
    market: Market,
    position: Position,
    borrow_rate: Option<U256>,
) -> ProgressView {
    let reading = MarketReading { market, vault_shares: position.supply_shares, borrow_rate };
    ProgressView { readings: p.readings.push(reading), ..p }
}

/// How a query stands after a reply.
pub open spec fn step(q: QueryView, reply: ReplyView) -> Result<OutcomeView, QueryError> {
    match (q.stage, reply) {
        (StageView::Head, ReplyView::Vault(replies)) => after_head(q, replies),
        (StageView::Queue { morpho, fee, count }, ReplyView::Vault(replies)) => after_queue(
            q,
            morpho,
            fee,
            count,
            replies,
        ),
        (StageView::Params(p), ReplyView::MarketParams(params)) => Ok(
            at_stage(q, StageView::Market(p, params)),
        ),
        (StageView::Market(p, params), ReplyView::Market(market)) => Ok(
            at_stage(q, StageView::Position(p, params, market)),
        ),
        (StageView::Position(p, params, market), ReplyView::Position(position)) => Ok(
            if params.irm@ == zero_address() {
                next_market(q, with_reading(p, market, position, None))
            } else {
                at_stage(q, StageView::BorrowRate(p, params, market, position))
            },
        ),
        (StageView::BorrowRate(p, _, market, position), ReplyView::BorrowRate(rate)) => Ok(
            next_market(q, with_reading(p, market, position, Some(rate))),
        ),
        _ => Err(QueryError::UnexpectedReply),
    }
}

impl Progress {
    spec fn at_market(self) -> bool {
        self.readings@.len() < self.ids@.len()
    }
}

impl Stage {
    spec fn well_formed(self) -> bool {
        match self {
            Stage::Head => true,
            Stage::Queue { .. } => true,
            Stage::Params(p) => p.at_market(),
            Stage::Market(p, _) => p.at_market(),
            Stage::Position(p, _, _) => p.at_market(),
            Stage::BorrowRate(p, _, _, _) => p.at_market(),
        }
    }
}

/// The inputs of the calls that return the ids of the first `count` markets.
fn queue_inputs(count: usize) -> (r: Vec<Vec<u8>>)
    ensures
        contents(r@) == Seq::new(count as nat, |i: int| withdraw_queue_input(i as nat)),
{
    let mut inputs: Vec<Vec<u8>> = Vec::new();
    for i in 0..count
        invariant
            inputs.len() == i,
            forall|j: int|
                0 <= j < i ==> (#[trigger] inputs[j])@ == withdraw_queue_input(j as nat),
    {
        inputs.push(withdraw_queue_call(i));
    }
    inputs
}

/// The ids that calls returned, if each returned one.
fn read_ids(replies: &Vec<Vec<u8>>) -> (r: Option<Vec<MarketId>>)
    ensures
        r is None <==> exists|i: int|
            0 <= i < replies.len() && returned_bytes32(#[trigger] contents(replies@)[i]) is None,
        r matches Some(ids) ==> ids.len() == replies.len() && forall|i: int|
            0 <= i < ids.len() ==> returned_bytes32(contents(replies@)[i]) == Some(
                (#[trigger] ids[i])@,
            ),
{
    let mut ids: Vec<MarketId> = Vec::with_capacity(replies.len());
    for i in 0..replies.len()
        invariant
            ids.len() == i,
            forall|j: int|
                0 <= j < i ==> returned_bytes32(contents(replies@)[j]) == Some(
                    (#[trigger] ids[j])@,
                ),
    {
        assert(contents(replies@)[i as int] == replies[i as int]@);
        match read_bytes32(replies[i].as_slice()) {
            Some(id) => ids.push(id),
            None => {
                return None;
            },
        }
    }
    assert forall|i: int| 0 <= i < replies.len() implies returned_bytes32(
        #[trigger] contents(replies@)[i],
    ) is Some by {
        assert(returned_bytes32(contents(replies@)[i]) == Some(ids[i]@));
    }
    Some(ids)
}

impl VaultQuery {
    #[verifier::type_invariant]
    spec fn well_formed(self) -> bool {
        self.stage.well_formed()
    }

    /// A query for the net APY of a vault, were `deposit` added to its assets.
    pub fn new(vault: Address, deposit: U256) -> (r: VaultQuery)
        ensures
            r@ == opening(vault@, deposit@),
    {
        VaultQuery { vault, deposit, stage: Stage::Head }
    }

    /// The vault that is asked about.
    pub fn vault(&self) -> (r: Address)
        ensures
            r@ == self@.vault,
    {
        self.vault
    }

    /// What to ask of the chain next.
    pub fn request(&self) -> (r: Request)
        ensures
            r@ == pending_request(self@),
    {
        proof {
            use_type_invariant(self);
        }
        match &self.stage {
            Stage::Head => {
                let mut inputs: Vec<Vec<u8>> = Vec::new();
                inputs.push(morpho_call());
                inputs.push(fee_call());
                inputs.push(withdraw_queue_length_call());
                assert(contents(inputs@) =~= seq![
                    morpho_input(),
                    fee_input(),
                    withdraw_queue_length_input(),
                ]);
                Request::Vault { vault: self.vault, inputs }
            },
            Stage::Queue { count, .. } => {
                Request::Vault { vault: self.vault, inputs: queue_inputs(*count) }
            },
            Stage::Params(p) => {
                Request::MarketParams { morpho: p.morpho, id: p.ids[p.readings.len()] }
            },
            Stage::Market(p, _) => {
                Request::Market { morpho: p.morpho, id: p.ids[p.readings.len()] }
            },
            Stage::Position(p, _, _) => {
                Request::Position {
                    morpho: p.morpho,
                    id: p.ids[p.readings.len()],
                    user: self.vault,
                }
            },
            Stage::BorrowRate(_, params, market, _) => {
                Request::BorrowRate { irm: params.irm, params: *params, market: *market }
            },
        }
    }

    /// The query at its next market, or the result after the last.
    fn go_on(vault: Address, deposit: U256, p: Progress) -> (r: Outcome)
        ensures
            forall|q: QueryView|
                q.vault == vault@ && q.deposit == deposit@ ==> r@ == #[trigger] next_market(q, p@),
    {
        if p.readings.len() < p.ids.len() {
            Outcome::Pending(VaultQuery { vault, deposit, stage: Stage::Params(p) })
        } else {
            Outcome::Finished(net_apy_percent(&p.readings, p.fee, deposit))
        }
    }

    /// The query with what was read of one more market.
    fn record(
        vault: Address,
        deposit: U256,
        p: Progress,
        market: Market,
        position: Position,
        borrow_rate: Option<U256>,
    ) -> (r: Outcome)
        ensures
            forall|q: QueryView|
                q.vault == vault@ && q.deposit == deposit@ ==> r@ == #[trigger] next_market(
                    q,
                    with_reading(p@, market, position, borrow_rate),
                ),
    {
        let mut p = p;
        let ghost before = p@;
        p.readings.push(
            MarketReading { market, vault_shares: position.supply_shares, borrow_rate },
        );
        assert(p@ == with_reading(before, market, position, borrow_rate));
        Self::go_on(vault, deposit, p)
    }

    fn resume_head(vault: Address, deposit: U256, replies: Vec<Vec<u8>>) -> (r: Result<
        Outcome,
        QueryError,
    >)
        ensures
            r matches Ok(o) ==> after_head(opening(vault@, deposit@), contents(replies@)) == Ok::<
                OutcomeView,
                QueryError,
            >(o@),
            r matches Err(e) ==> after_head(opening(vault@, deposit@), contents(replies@)) == Err::<
                OutcomeView,
                QueryError,
            >(e),
    {
        if replies.len() != 3 {
            return Err(QueryError::UnexpectedReply);
        }
        let morpho = match read_address(replies[0].as_slice()) {
            Some(a) => a,
            None => {
                return Err(QueryError::Morpho);
            },
        };
        let fee = match read_uint96(replies[1].as_slice()) {
            Some(n) => n,
            None => {
                return Err(QueryError::Fee);
            },
        };
        let length = match read_uint256(replies[2].as_slice()) {
            Some(n) => n,
            None => {
                return Err(QueryError::QueueLength);
            },
        };
        if !length.fits_u128() {
            return Err(QueryError::QueueTooLong);
        }
        let count = (length.to_u128() % (usize::MAX as u128 + 1)) as usize;
        if count == 0 {
            let p = Progress { morpho, fee, ids: Vec::new(), readings: Vec::new() };
            assert(p@.ids =~= seq![]);
            assert(p@.readings =~= seq![]);
            return Ok(Self::go_on(vault, deposit, p));
        }
        Ok(
            Outcome::Pending(
                VaultQuery { vault, deposit, stage: Stage::Queue { morpho, fee, count } },
            ),
        )
    }

    fn resume_queue(
        vault: Address,
        deposit: U256,
        morpho: Address,
        fee: U256,
        count: usize,
        replies: Vec<Vec<u8>>,
    ) -> (r: Result<Outcome, QueryError>)
        ensures
            forall|q: QueryView|
                #![trigger after_queue(q, morpho@, fee@, count as nat, contents(replies@))]
                q.vault == vault@ && q.deposit == deposit@ ==> (match r {
                    Ok(o) => after_queue(q, morpho@, fee@, count as nat, contents(replies@)) == Ok::<
                        OutcomeView,
                        QueryError,
                    >(o@),
                    Err(e) => after_queue(q, morpho@, fee@, count as nat, contents(replies@))
                        == Err::<OutcomeView, QueryError>(e),
                }),
    {
        if replies.len() != count {
            return Err(QueryError::UnexpectedReply);
        }
        match read_ids(&replies) {
            None => Err(QueryError::MarketId),
            Some(ids) => {
                let p = Progress { morpho, fee, ids, readings: Vec::new() };
                assert(p@.ids =~= Seq::new(
                    count as nat,
                    |i: int| returned_bytes32(contents(replies@)[i]).unwrap(),
                )) by {
                    assert forall|i: int| 0 <= i < count implies p@.ids[i] == returned_bytes32(
                        contents(replies@)[i],
                    ).unwrap() by {
                        assert(returned_bytes32(contents(replies@)[i]) == Some(ids[i]@));
                    }
                }
                assert(p@.readings =~= seq![]);
                Ok(Self::go_on(vault, deposit, p))
            },
        }
    }

    /// Takes the reply to [`VaultQuery::request`] and goes on.
    pub fn resume(self, reply: Reply) -> (r: Result<Outcome, QueryError>)
        ensures
            r matches Ok(o) ==> step(self@, reply@) == Ok::<OutcomeView, QueryError>(o@),
            r matches Err(e) ==> step(self@, reply@) == Err::<OutcomeView, QueryError>(e),
    {
        proof {
            use_type_invariant(&self);
        }
        let vault = self.vault;
        let deposit = self.deposit;
        match (self.stage, reply) {
            (Stage::Head, Reply::Vault(replies)) => Self::resume_head(vault, deposit, replies),
            (Stage::Queue { morpho, fee, count }, Reply::Vault(replies)) => Self::resume_queue(
                vault,
                deposit,
                morpho,
                fee,
                count,
                replies,
            ),
            (Stage::Params(p), Reply::MarketParams(params)) => Ok(
                Outcome::Pending(
                    VaultQuery { vault, deposit, stage: Stage::Market(p, params) },
                ),
            ),
            (Stage::Market(p, params), Reply::Market(market)) => Ok(
                Outcome::Pending(
                    VaultQuery { vault, deposit, stage: Stage::Position(p, params, market) },
                ),
            ),
            (Stage::Position(p, params, market), Reply::Position(position)) => {
                if params.irm.is_zero() {
                    Ok(Self::record(vault, deposit, p, market, position, None))
                } else {
                    let stage = Stage::BorrowRate(p, params, market, position);
                    Ok(Outcome::Pending(VaultQuery { vault, deposit, stage }))
                }
            },
            (Stage::BorrowRate(p, _, market, position), Reply::BorrowRate(rate)) => Ok(
                Self::record(vault, deposit, p, market, position, Some(rate)),
            ),
            _ => Err(QueryError::UnexpectedReply),
        }
    }
}

} // verus!
