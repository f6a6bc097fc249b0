//! The order-protection contract: markets are registered with their pair
//! denominations, users place orders with stop-loss / take-profit bounds,
//! and once a bound is reached the order is claimed and swapped; the swap's
//! reply forwards the received funds, less a fee, to the user.

use vstd::prelude::*;

verus! {

use crate::autosltp::fin::Side;
use crate::autosltp::msg::{ConfigResponse, ExecuteMsg, InstantiateMsg, QueryMsg};
use crate::autosltp::state::{Config, PoolKey, State, UserOrder};
use crate::common::ContractCommand;
use crate::host::{
    Attribute, AttributeV, Coin, CoinV, Env, Event, EventV, MessageInfo, OutMsg, OutMsgV,
    parse_coin, parse_coin_spec, Reply, ReplyOn, Response, SubMsg, SubMsgResult, SubMsgV,
};
use crate::text::str_eq_str;
use vstd::string::StringExecFns;

/// The handle under which the protective swap's reply arrives.
pub const FIN_REPLY_SWAP_SLTP: u64 = 200;

/// The stubbed oracle price: 1.0 in 18-decimal atomics.
pub const ORACLE_PRICE_ONE: u128 = 1_000_000_000_000_000_000;

/// The flat fee withheld from forwarded swap proceeds.
pub const SWAP_FORWARD_FEE: u128 = 1;

/// Initializes the contract with its owner.
pub fn instantiate(state: &mut State, msg: InstantiateMsg) -> (r: Result<Response, String>)
    requires
        old(state).tables_wf(),
    ensures
        final(state).wf(),
        r is Ok,
        final(state).config == Some(Config { owner: msg.owner }),
        final(state).markets() == old(state).markets(),
        final(state).orders() == old(state).orders(),
        final(state).in_flight_user == old(state).in_flight_user,
        r->Ok_0@.messages == Seq::<SubMsgV>::empty(),
        r->Ok_0@.events == Seq::<EventV>::empty(),
        r->Ok_0@.attributes == seq![AttributeV { key: "action"@, value: "instantiate"@ }],
{
    state.config = Some(Config { owner: msg.owner });
    proof {
        assert(state.markets() =~= old(state).markets());
        assert(state.orders() =~= old(state).orders());
    }
    let mut attributes: Vec<Attribute> = Vec::new();
    attributes.push(Attribute::new("action", String::from_str("instantiate")));
    let resp = Response { messages: Vec::new(), attributes, events: Vec::new() };
    proof {
        assert(resp@.messages =~= Seq::<SubMsgV>::empty());
        assert(resp@.events =~= Seq::<EventV>::empty());
        assert(resp@.attributes =~= seq![AttributeV { key: "action"@, value: "instantiate"@ }]);
    }
    Ok(resp)
}

/// The stubbed oracle: every pair trades at 1.0.
fn load_oracle_price(base: &str, quote: &str) -> (r: u128)
    ensures
        r == ORACLE_PRICE_ONE,
{
    ORACLE_PRICE_ONE
}

/// Whether an order's protection triggers at the given price: its stop-loss
/// bound is at or above the price, or its take-profit bound is at or below
/// it.
pub open spec fn protection_triggered(order: UserOrder, price: u128) -> bool {
    ||| (order.price_sl is Some && order.price_sl->0 >= price)
    ||| (order.price_tp is Some && order.price_tp->0 <= price)
}

/// The event the contract emits for an execute action.
pub open spec fn sltp_event(action: Seq<char>, sender: Seq<char>) -> EventV {
    EventV {
        ty: "autorujira.autosltp"@,
        attributes: seq![
            AttributeV { key: "action"@, value: action },
            AttributeV { key: "sender"@, value: sender },
        ],
    }
}

fn make_sltp_event(action: &str, sender: &String) -> (r: Event)
    ensures
        r@ == sltp_event(action@, sender@),
{
    let mut attributes: Vec<Attribute> = Vec::new();
    attributes.push(Attribute::new("action", String::from_str(action)));
    attributes.push(Attribute::new("sender", sender.clone()));
    let r = Event { ty: String::from_str("autorujira.autosltp"), attributes };
    proof {
        assert(r@.attributes =~= sltp_event(action@, sender@).attributes);
        assert(r@ =~= sltp_event(action@, sender@));
    }
    r
}

/// Handles one execute call.
///
/// Registering a market is owner-only. Placing an order demands exactly the
/// order's amount, in the side's denomination, as attached funds, and one
/// order per (user, market, side, price); the order is recorded and
/// submitted to the market. Executing a protection demands that the order's
/// bound is reached at the oracle price; the order is then claimed and its
/// proceeds swapped, the swap replying under its fixed handle, and the user
/// is noted as in flight for that reply.
pub fn execute(state: &mut State, info: MessageInfo, msg: ExecuteMsg) -> (r: Result<
    Response,
    String,
>)
    requires
        old(state).wf(),
    ensures
        final(state).wf(),
        ({
            let sender = info.sender@;
            match msg {
                ExecuteMsg::AddMarket { fin_contract_address, denoms } => {
                    &&& (sender != old(state).owner() ==> r is Err && r->Err_0@ == "Unauthorized"@
                        && *final(state) == *old(state))
                    &&& (sender == old(state).owner() ==> r is Ok && final(state).markets() == old(state).markets().insert(fin_contract_address@, denoms@) && final(state).orders()
                        == old(state).orders() && final(state).config == old(state).config && final(state).in_flight_user == old(state).in_flight_user && r->Ok_0@.messages
                        == Seq::<SubMsgV>::empty() && r->Ok_0@.events == Seq::<EventV>::empty()
                        && r->Ok_0@.attributes == Seq::<AttributeV>::empty())
                },
                ExecuteMsg::PlaceOrder { fin_contract_address, side, price, amount, price_sl, price_tp } => {
                    let key = (sender, fin_contract_address@, PoolKey { side, price });
                    &&& (!old(state).markets().dom().contains(fin_contract_address@) ==> r is Err
                        && r->Err_0@ == "market not found"@ && *final(state) == *old(state))
                    &&& (old(state).markets().dom().contains(fin_contract_address@) ==> {
                        let denoms = old(state).markets()[fin_contract_address@];
                        &&& (info.funds@.len() != 1 ==> r is Err && r->Err_0@
                            == "Must send exactly one coin"@ && *final(state) == *old(state))
                        &&& (info.funds@.len() == 1 && side is Base && info.funds@[0]@.denom
                            != denoms.base ==> r is Err && r->Err_0@ == "Must send base coin"@
                            && *final(state) == *old(state))
                        &&& (info.funds@.len() == 1 && side is Quote && info.funds@[0]@.denom
                            != denoms.quote ==> r is Err && r->Err_0@ == "Must send quote coin"@
                            && *final(state) == *old(state))
                        &&& (info.funds@.len() == 1 && (if side is Base {
                            info.funds@[0]@.denom == denoms.base
                        } else {
                            info.funds@[0]@.denom == denoms.quote
                        }) && info.funds@[0]@.amount != amount ==> r is Err && r->Err_0@
                            == "Must send the correct amount"@ && *final(state) == *old(state))
                        &&& (info.funds@.len() == 1 && (if side is Base {
                            info.funds@[0]@.denom == denoms.base
                        } else {
                            info.funds@[0]@.denom == denoms.quote
                        }) && info.funds@[0]@.amount == amount && old(state).orders().dom().contains(key) ==> r is Err && r->Err_0@
                            == "User already has an order at that price"@ && *final(state) == *old(state))
                        &&& (info.funds@.len() == 1 && (if side is Base {
                            info.funds@[0]@.denom == denoms.base
                        } else {
                            info.funds@[0]@.denom == denoms.quote
                        }) && info.funds@[0]@.amount == amount && !old(state).orders().dom().contains(key) ==> {
                            &&& r is Ok
                            &&& final(state).orders() == old(state).orders().insert(
                                key,
                                UserOrder { amount, price_sl, price_tp },
                            )
                            &&& final(state).markets() == old(state).markets()
                            &&& final(state).config == old(state).config
                            &&& final(state).in_flight_user == old(state).in_flight_user
                            &&& r->Ok_0@.events == seq![sltp_event("place_order"@, sender)]
                            &&& r->Ok_0@.attributes == Seq::<AttributeV>::empty()
                            &&& r->Ok_0@.messages == seq![
                                SubMsgV {
                                    id: 0,
                                    msg: OutMsgV::Wasm {
                                        contract_addr: fin_contract_address@,
                                        command: ContractCommand::Order { side, price, amount },
                                        funds: seq![info.funds@[0]@],
                                    },
                                    reply_on: crate::host::ReplyOn::Never,
                                },
                            ]
                        })
                    })
                },
                ExecuteMsg::ExecuteSlTp { user_address, fin_contract_address, side, price, claim_amount } => {
                    let key = (user_address@, fin_contract_address@, PoolKey { side, price });
                    &&& (!old(state).markets().dom().contains(fin_contract_address@) ==> r is Err
                        && r->Err_0@ == "market not found"@ && *final(state) == *old(state))
                    &&& (old(state).markets().dom().contains(fin_contract_address@) && !old(state).orders().dom().contains(key) ==> r is Err && r->Err_0@ == "order not found"@
                        && *final(state) == *old(state))
                    &&& (old(state).markets().dom().contains(fin_contract_address@) && old(state).orders().dom().contains(key) ==> {
                        let denoms = old(state).markets()[fin_contract_address@];
                        let order = old(state).orders()[key];
                        &&& (!protection_triggered(order, ORACLE_PRICE_ONE) ==> r is Err
                            && r->Err_0@ == "SL/TP not reached yet"@ && *final(state) == *old(state))
                        &&& (protection_triggered(order, ORACLE_PRICE_ONE) ==> {
                            &&& r is Ok
                            &&& final(state).in_flight() == Some(user_address@)
                            &&& final(state).orders() == old(state).orders()
                            &&& final(state).markets() == old(state).markets()
                            &&& final(state).config == old(state).config
                            &&& r->Ok_0@.events == seq![sltp_event("claim_order"@, sender)]
                            &&& r->Ok_0@.attributes == Seq::<AttributeV>::empty()
                            &&& r->Ok_0@.messages == seq![
                                SubMsgV {
                                    id: 0,
                                    msg: OutMsgV::Wasm {
                                        contract_addr: fin_contract_address@,
                                        command: ContractCommand::Order {
                                            side,
                                            price,
                                            amount: 0,
                                        },
                                        funds: seq![CoinV { denom: denoms.quote, amount: 0 }],
                                    },
                                    reply_on: crate::host::ReplyOn::Never,
                                },
                                SubMsgV {
                                    id: FIN_REPLY_SWAP_SLTP,
                                    msg: OutMsgV::Wasm {
                                        contract_addr: fin_contract_address@,
                                        command: ContractCommand::Swap,
                                        funds: seq![
                                            CoinV {
                                                denom: if side is Base {
                                                    denoms.quote
                                                } else {
                                                    denoms.base
                                                },
                                                amount: claim_amount,
                                            },
                                        ],
                                    },
                                    reply_on: crate::host::ReplyOn::Success,
                                },
                            ]
                        })
                    })
                },
            }
        }),
{
    match msg {
        ExecuteMsg::AddMarket { fin_contract_address, denoms } => {
            let owner_ok = match &state.config {
                Some(c) => crate::text::str_eq(&c.owner, &info.sender),
                None => false,
            };
            if !owner_ok {
                return Err(String::from_str("Unauthorized"));
            }
            let ghost fcav = fin_contract_address@;
            let ghost dv = denoms@;
            state.fin_contracts.insert(fin_contract_address, denoms);
            proof {
                assert(state.markets() =~= old(state).markets().insert(fcav, dv));
                assert(state.orders() =~= old(state).orders());
            }
            let resp = Response { messages: Vec::new(), attributes: Vec::new(), events: Vec::new() };
            proof {
                assert(resp@.messages =~= Seq::<SubMsgV>::empty());
                assert(resp@.events =~= Seq::<EventV>::empty());
                assert(resp@.attributes =~= Seq::<AttributeV>::empty());
            }
            Ok(resp)
        },
        ExecuteMsg::PlaceOrder { fin_contract_address, side, price, amount, price_sl, price_tp } => {
            let denoms_base: String;
            let denoms_quote: String;
            match state.fin_contracts.get(fin_contract_address.as_str()) {
                Some(d) => {
                    denoms_base = d.base.clone();
                    denoms_quote = d.quote.clone();
                },
                None => {
                    return Err(String::from_str("market not found"));
                },
            }
            if info.funds.len() != 1 {
                return Err(String::from_str("Must send exactly one coin"));
            }
            if side == Side::Base && !str_eq_str(info.funds[0].denom.as_str(), denoms_base.as_str()) {
                return Err(String::from_str("Must send base coin"));
            }
            if side == Side::Quote && !str_eq_str(info.funds[0].denom.as_str(), denoms_quote.as_str()) {
                return Err(String::from_str("Must send quote coin"));
            }
            if info.funds[0].amount != amount {
                return Err(String::from_str("Must send the correct amount"));
            }

            let ghost fcav = fin_contract_address@;
            let user_order_key = (
                info.sender.clone(),
                fin_contract_address.clone(),
                PoolKey::new(side, price),
            );
            if state.user_orders.get(&user_order_key).is_some() {
                return Err(String::from_str("User already has an order at that price"));
            }

            state.user_orders.insert(user_order_key, UserOrder { amount, price_sl, price_tp });
            proof {
                assert(state.orders() =~= old(state).orders().insert(
                    (info.sender@, fcav, PoolKey { side, price }),
                    UserOrder { amount, price_sl, price_tp },
                ));
                assert(state.markets() =~= old(state).markets());
            }

            let event = make_sltp_event("place_order", &info.sender);
            let mut events: Vec<Event> = Vec::new();
            events.push(event);
            let mut messages: Vec<SubMsg> = Vec::new();
            let ghost fund0 = info.funds@[0]@;
            messages.push(
                SubMsg {
                    id: 0,
                    msg: OutMsg::Wasm {
                        contract_addr: fin_contract_address,
                        command: ContractCommand::Order { side, price, amount },
                        funds: info.funds,
                    },
                    reply_on: ReplyOn::Never,
                },
            );
            let resp = Response { messages, attributes: Vec::new(), events };
            proof {
                assert(info.funds@.map_values(|c: Coin| c@) =~= seq![fund0]);
                assert(resp@.attributes =~= Seq::<AttributeV>::empty());
                assert(resp@.events =~= seq![sltp_event("place_order"@, info.sender@)]);
                assert(resp@.messages =~= seq![resp.messages@[0]@]);
            }
            Ok(resp)
        },
        ExecuteMsg::ExecuteSlTp { user_address, fin_contract_address, side, price, claim_amount } => {
            let ghost fcav = fin_contract_address@;
            let denoms_base: String;
            let denoms_quote: String;
            match state.fin_contracts.get(fin_contract_address.as_str()) {
                Some(d) => {
                    denoms_base = d.base.clone();
                    denoms_quote = d.quote.clone();
                },
                None => {
                    return Err(String::from_str("market not found"));
                },
            }

            let user_order_key = (
                user_address.clone(),
                fin_contract_address.clone(),
                PoolKey::new(side, price),
            );
            let user_order = match state.user_orders.get(&user_order_key) {
                Some(o) => *o,
                None => {
                    return Err(String::from_str("order not found"));
                },
            };

            let current_price = load_oracle_price(denoms_base.as_str(), denoms_quote.as_str());
            let sl_hit = match user_order.price_sl {
                Some(sl) => sl >= current_price,
                None => false,
            };
            let tp_hit = match user_order.price_tp {
                Some(tp) => tp <= current_price,
                None => false,
            };
            if !(sl_hit || tp_hit) {
                return Err(String::from_str("SL/TP not reached yet"));
            }

            let mut claim_funds: Vec<Coin> = Vec::new();
            claim_funds.push(Coin { denom: denoms_quote.clone(), amount: 0 });
            let ghost claim_funds_v = claim_funds@.map_values(|c: Coin| c@);
            let claiming_denom = if side == Side::Base {
                denoms_quote
            } else {
                denoms_base
            };
            let mut swap_funds: Vec<Coin> = Vec::new();
            swap_funds.push(Coin { denom: claiming_denom, amount: claim_amount });
            let ghost swap_funds_v = swap_funds@.map_values(|c: Coin| c@);

            let mut messages: Vec<SubMsg> = Vec::new();
            messages.push(
                SubMsg {
                    id: 0,
                    msg: OutMsg::Wasm {
                        contract_addr: fin_contract_address.clone(),
                        command: ContractCommand::Order { side, price, amount: 0 },
                        funds: claim_funds,
                    },
                    reply_on: ReplyOn::Never,
                },
            );
            messages.push(
                SubMsg {
                    id: FIN_REPLY_SWAP_SLTP,
                    msg: OutMsg::Wasm {
                        contract_addr: fin_contract_address,
                        command: ContractCommand::Swap,
                        funds: swap_funds,
                    },
                    reply_on: ReplyOn::Success,
                },
            );

            let event = make_sltp_event("claim_order", &info.sender);
            let mut events: Vec<Event> = Vec::new();
            events.push(event);

            // Note the user so the swap's reply can forward the proceeds.
            state.in_flight_user = Some(user_address);
            proof {
                assert(state.orders() =~= old(state).orders());
                assert(state.markets() =~= old(state).markets());
            }

            let resp = Response { messages, attributes: Vec::new(), events };
            proof {
                let dv = old(state).markets()[fcav];
                assert(claim_funds_v =~= seq![CoinV { denom: dv.quote, amount: 0 }]);
                assert(swap_funds_v =~= seq![
                    CoinV {
                        denom: if side is Base {
                            dv.quote
                        } else {
                            dv.base
                        },
                        amount: claim_amount,
                    },
                ]);
                assert(resp@.attributes =~= Seq::<AttributeV>::empty());
                assert(resp@.events =~= seq![sltp_event("claim_order"@, info.sender@)]);
                assert(resp@.messages =~= seq![resp.messages@[0]@, resp.messages@[1]@]);
            }
            Ok(resp)
        },
    }
}

// ---------------------------------------------------------------------------
// Reading the received funds out of the host's events.
// ---------------------------------------------------------------------------

/// The coin an account starts from: nothing of no denomination.
pub open spec fn default_coin() -> CoinV {
    CoinV { denom: Seq::empty(), amount: 0 }
}

/// Whether an attribute names this contract as the receiver.
pub open spec fn is_receiver_attr(contract: Seq<char>, a: AttributeV) -> bool {
    a.key == "receiver"@ && a.value == contract
}

/// Whether some attribute names this contract as the receiver.
pub open spec fn has_receiver(contract: Seq<char>, attrs: Seq<AttributeV>) -> bool {
    exists|i: int| 0 <= i < attrs.len() && is_receiver_attr(contract, #[trigger] attrs[i])
}

/// The value of the last amount attribute, if any.
pub open spec fn last_amount(attrs: Seq<AttributeV>) -> Option<Seq<char>>
    decreases attrs.len(),
{
    if attrs.len() == 0 {
        None::<Seq<char>>
    } else if attrs.last().key == "amount"@ {
        Some(attrs.last().value)
    } else {
        last_amount(attrs.drop_last())
    }
}

/// Whether some amount attribute does not parse as a coin.
pub open spec fn has_bad_amount(attrs: Seq<AttributeV>) -> bool {
    exists|i: int|
        0 <= i < attrs.len() && (#[trigger] attrs[i]).key == "amount"@ && parse_coin_spec(
            attrs[i].value,
        ) is None
}

/// Whether a coin-received event credits this contract.
pub open spec fn qualifying_event(contract: Seq<char>, e: EventV) -> bool {
    e.ty == "coin_received"@ && has_receiver(contract, e.attributes)
}

/// The coin a qualifying event reports: its last amount attribute, or
/// nothing at all.
pub open spec fn event_coin(e: EventV) -> CoinV {
    match last_amount(e.attributes) {
        Some(v) => if parse_coin_spec(v) is Some {
            parse_coin_spec(v)->0
        } else {
            default_coin()
        },
        None => default_coin(),
    }
}

/// Whether any coin-received event carries an unparsable amount.
pub open spec fn any_bad_amount(events: Seq<EventV>) -> bool {
    exists|i: int|
        0 <= i < events.len() && (#[trigger] events[i]).ty == "coin_received"@ && has_bad_amount(
            events[i].attributes,
        )
}

/// The coin the host reports as received by this contract: what the last
/// qualifying coin-received event says, or nothing.
pub open spec fn extract_spec(contract: Seq<char>, events: Seq<EventV>) -> CoinV
    decreases events.len(),
{
    if events.len() == 0 {
        default_coin()
    } else if qualifying_event(contract, events.last()) {
        event_coin(events.last())
    } else {
        extract_spec(contract, events.drop_last())
    }
}

/// Scans a settled operation's events for the funds this contract received:
/// the last coin-received event naming it as receiver wins; an amount that
/// does not parse as a coin fails the call.
pub fn extract_received_tokens(contract_address: &str, msg: SubMsgResult) -> (r: Result<
    Coin,
    String,
>)
    ensures
        msg@ is Failure ==> r is Ok && r->Ok_0@ == default_coin(),
        msg@ is Success && any_bad_amount(msg@->Success_events) ==> r is Err,
        msg@ is Success && !any_bad_amount(msg@->Success_events) ==> r is Ok && r->Ok_0@
            == extract_spec(contract_address@, msg@->Success_events),
{
    let mut received_coin = Coin { denom: String::new(), amount: 0 };
    assert(received_coin@ == default_coin());

    match msg {
        SubMsgResult::Success { events } => {
            let ghost evs = events@.map_values(|e: Event| e@);
            let n = events.len();
            let mut i: usize = 0;
            proof {
                assert(evs.take(0) =~= Seq::<EventV>::empty());
            }
            while i < n
                invariant
                    i <= n,
                    n == events@.len(),
                    evs == events@.map_values(|e: Event| e@),
                    msg@ is Success,
                    msg@->Success_events == evs,
                    forall|w: int|
                        0 <= w < i ==> !((#[trigger] evs[w]).ty == "coin_received"@
                            && has_bad_amount(evs[w].attributes)),
                    received_coin@ == extract_spec(contract_address@, evs.take(i as int)),
                decreases n - i,
            {
                let e = &events[i];
                let ghost ev = evs[i as int];
                proof {
                    assert(evs.take(i as int + 1).drop_last() =~= evs.take(i as int));
                    assert(evs.take(i as int + 1).last() == ev);
                }
                if str_eq_str(e.ty.as_str(), "coin_received") {
                    let mut event_received_coin = Coin { denom: String::new(), amount: 0 };
                    let mut event_receiver_ok = false;
                    let ghost attrs = ev.attributes;
                    let na = e.attributes.len();
                    let mut j: usize = 0;
                    proof {
                        assert(attrs.take(0) =~= Seq::<AttributeV>::empty());
                        assert(event_received_coin@ == default_coin());
                    }
                    while j < na
                        invariant
                            j <= na,
                            i < n,
                            n == events@.len(),
                            evs == events@.map_values(|e2: Event| e2@),
                            msg@ is Success,
                            msg@->Success_events == evs,
                            ev == evs[i as int],
                            ev.ty == "coin_received"@,
                            attrs == ev.attributes,
                            na == e.attributes@.len(),
                            attrs == e@.attributes,
                            attrs.len() == na,
                            forall|w: int| 0 <= w < j ==> attrs[w] == (#[trigger] e.attributes@[w])@,
                            forall|w: int|
                                0 <= w < na ==> attrs[w] == (#[trigger] e.attributes@[w])@,
                            event_receiver_ok == has_receiver(
                                contract_address@,
                                attrs.take(j as int),
                            ),
                            forall|w: int|
                                0 <= w < j ==> !((#[trigger] attrs[w]).key == "amount"@
                                    && parse_coin_spec(attrs[w].value) is None),
                            event_received_coin@ == (match last_amount(attrs.take(j as int)) {
                                Some(v) => if parse_coin_spec(v) is Some {
                                    parse_coin_spec(v)->0
                                } else {
                                    default_coin()
                                },
                                None => default_coin(),
                            }),
                        decreases na - j,
                    {
                        let attr = &e.attributes[j];
                        proof {
                            assert(attrs.take(j as int + 1).drop_last() =~= attrs.take(j as int));
                            assert(attrs.take(j as int + 1).last() == attrs[j as int]);
                            reveal_strlit("receiver");
                            reveal_strlit("amount");
                            assert("receiver"@.len() != "amount"@.len());
                        }
                        if str_eq_str(attr.key.as_str(), "receiver") && str_eq_str(
                            attr.value.as_str(),
                            contract_address,
                        ) {
                            event_receiver_ok = true;
                            proof {
                                assert(is_receiver_attr(contract_address@, attrs[j as int]));
                            }
                        } else if str_eq_str(attr.key.as_str(), "amount") {
                            match parse_coin(attr.value.as_str()) {
                                Some(c) => {
                                    event_received_coin = c;
                                },
                                None => {
                                    proof {
                                        assert(attrs[j as int].key == "amount"@ && parse_coin_spec(
                                            attrs[j as int].value,
                                        ) is None);
                                        assert(has_bad_amount(ev.attributes));
                                        assert(any_bad_amount(evs));
                                    }
                                    return Err(String::from_str("invalid coin string"));
                                },
                            }
                        }
                        proof {
                            if !event_receiver_ok {
                                if has_receiver(contract_address@, attrs.take(j as int + 1)) {
                                    let w = choose|w: int|
                                        0 <= w < j + 1 && is_receiver_attr(
                                            contract_address@,
                                            #[trigger] attrs.take(j as int + 1)[w],
                                        );
                                    assert(is_receiver_attr(contract_address@, attrs[w]));
                                    assert(w < j);
                                    assert(attrs.take(j as int)[w] == attrs[w]);
                                    assert(false);
                                }
                            } else {
                                if !has_receiver(contract_address@, attrs.take(j as int + 1)) {
                                    let w = choose|w: int|
                                        0 <= w < j && is_receiver_attr(
                                            contract_address@,
                                            #[trigger] attrs.take(j as int)[w],
                                        );
                                    assert(attrs.take(j as int + 1)[w] == attrs[w]);
                                    assert(false);
                                }
                            }
                        }
                        j = j + 1;
                    }
                    proof {
                        assert(attrs.take(na as int) =~= attrs);
                    }
                    if event_receiver_ok {
                        received_coin = event_received_coin;
                        proof {
                            assert(qualifying_event(contract_address@, ev));
                            assert(received_coin@ == event_coin(ev));
                        }
                    } else {
                        proof {
                            if qualifying_event(contract_address@, ev) {
                                assert(has_receiver(contract_address@, attrs));
                                assert(false);
                            }
                        }
                    }
                    proof {
                        assert(!has_bad_amount(ev.attributes)) by {
                            if has_bad_amount(ev.attributes) {
                                let w = choose|w: int|
                                    0 <= w < attrs.len() && (#[trigger] attrs[w]).key == "amount"@
                                        && parse_coin_spec(attrs[w].value) is None;
                                assert(false);
                            }
                        }
                    }
                } else {
                    proof {
                        assert(!qualifying_event(contract_address@, ev));
                    }
                }
                i = i + 1;
            }
            proof {
                assert(evs.take(n as int) =~= evs);
            }
            Ok(received_coin)
        },
        SubMsgResult::Failure { error: _ } => Ok(received_coin),
    }
}

// ---------------------------------------------------------------------------
// The reply handler.
// ---------------------------------------------------------------------------

/// Settles the protective swap: the funds the host reports as received,
/// less a flat fee, are forwarded to the in-flight user, who is then
/// cleared. A reply with no received funds, or under any other handle,
/// fails the invocation.
pub fn reply(state: &mut State, env: &Env, reply_msg: Reply) -> (r: Result<Response, String>)
    requires
        old(state).wf(),
    ensures
        final(state).wf(),
        reply_msg.id != FIN_REPLY_SWAP_SLTP ==> r is Err && r->Err_0@ == "unknown reply id"@
            && *final(state) == *old(state),
        reply_msg.id == FIN_REPLY_SWAP_SLTP ==> {
            let outcome = reply_msg@.result;
            &&& (outcome is Success && any_bad_amount(outcome->Success_events) ==> r is Err
                && *final(state) == *old(state))
            &&& ({
                let received = if outcome is Success {
                    extract_spec(env.contract_address@, outcome->Success_events)
                } else {
                    default_coin()
                };
                &&& ((outcome is Failure || !any_bad_amount(outcome->Success_events))
                    && received.amount == 0 ==> r is Err && r->Err_0@ == "no received coins"@
                    && *final(state) == *old(state))
                &&& ((outcome is Failure || !any_bad_amount(outcome->Success_events))
                    && received.amount > 0 && old(state).in_flight_user is None ==> r is Err
                    && *final(state) == *old(state))
                &&& ((outcome is Failure || !any_bad_amount(outcome->Success_events))
                    && received.amount > 0 && old(state).in_flight_user is Some ==> {
                    &&& r is Ok
                    &&& final(state).in_flight() == Some(""@)
                    &&& final(state).markets() == old(state).markets()
                    &&& final(state).orders() == old(state).orders()
                    &&& final(state).config == old(state).config
                    &&& r->Ok_0@.events == Seq::<EventV>::empty()
                    &&& r->Ok_0@.attributes == Seq::<AttributeV>::empty()
                    &&& r->Ok_0@.messages == seq![
                        SubMsgV {
                            id: 0,
                            msg: OutMsgV::Bank {
                                to_address: old(state).in_flight()->0,
                                amount: seq![
                                    CoinV {
                                        denom: received.denom,
                                        amount: (received.amount - SWAP_FORWARD_FEE) as u128,
                                    },
                                ],
                            },
                            reply_on: crate::host::ReplyOn::Never,
                        },
                    ]
                })
            })
        },
{
    if reply_msg.id != FIN_REPLY_SWAP_SLTP {
        return Err(String::from_str("unknown reply id"));
    }
    let received_coin = match extract_received_tokens(env.contract_address.as_str(), reply_msg.result) {
        Ok(c) => c,
        Err(e) => {
            return Err(e);
        },
    };
    if received_coin.amount > 0 {
        let user_address = match &state.in_flight_user {
            Some(u) => u.clone(),
            None => {
                return Err(String::from_str("in flight user not found"));
            },
        };
        state.in_flight_user = Some(String::new());
        proof {
            reveal_strlit("");
            assert(state.in_flight()->0 =~= ""@);
            assert(state.markets() =~= old(state).markets());
            assert(state.orders() =~= old(state).orders());
        }
        let fees: u128 = SWAP_FORWARD_FEE;
        let user_amount = received_coin.amount - fees;
        let mut send_amount: Vec<Coin> = Vec::new();
        send_amount.push(Coin { denom: received_coin.denom, amount: user_amount });
        let ghost send_amount_v = send_amount@.map_values(|c: Coin| c@);
        let mut messages: Vec<SubMsg> = Vec::new();
        messages.push(
            SubMsg {
                id: 0,
                msg: OutMsg::Bank { to_address: user_address, amount: send_amount },
                reply_on: ReplyOn::Never,
            },
        );
        let resp = Response { messages, attributes: Vec::new(), events: Vec::new() };
        proof {
            assert(send_amount_v =~= seq![send_amount_v[0]]);
            assert(resp@.attributes =~= Seq::<AttributeV>::empty());
            assert(resp@.events =~= Seq::<EventV>::empty());
            assert(resp@.messages =~= seq![resp.messages@[0]@]);
        }
        return Ok(resp);
    }
    Err(String::from_str("no received coins"))
}

// ---------------------------------------------------------------------------
// Queries.
// ---------------------------------------------------------------------------

/// Reads the stored configuration.
fn query_config(state: &State) -> (r: ConfigResponse)
    requires
        state.wf(),
    ensures
        r.owner@ == state.owner(),
{
    let owner = match &state.config {
        Some(c) => c.owner.clone(),
        None => String::new(),
    };
    ConfigResponse { owner }
}

/// Answers a query; the host boundary serializes the answer.
pub fn query(state: &State, msg: QueryMsg) -> (r: ConfigResponse)
    requires
        state.wf(),
    ensures
        r.owner@ == state.owner(),
{
    match msg {
        QueryMsg::Config {} => query_config(state),
    }
}

} // verus!
