//! Models of the values exchanged with the contract host: coins, events and
//! their attributes, dispatched sub-operations, replies, responses, the
//! invocation context, and a snapshot of the external bank ledger.
//!
//! The host performs dispatched operations between invocations and reports
//! their outcome in a reply; these types carry exactly the data the contract
//! logic reads and produces at that boundary.

use vstd::prelude::*;

verus! {

use vstd::string::StrSliceExecFns;
use vstd::string::StringExecFns;
use crate::common::AuthzMessageType;
use crate::common::AuthzMessageTypeV;
use crate::text::{
    is_dec_digit, digit_val, dec_val, u128_to_string,
};

// ---------------------------------------------------------------------------
// Coins.
// ---------------------------------------------------------------------------

/// An amount of one token denomination.
#[derive(Debug)]
pub struct Coin {
    pub denom: String,
    pub amount: u128,
}

pub struct CoinV {
    pub denom: Seq<char>,
    pub amount: u128,
}

impl View for Coin {
    type V = CoinV;

    open spec fn view(&self) -> CoinV {
        CoinV { denom: self.denom@, amount: self.amount }
    }
}

// ---------------------------------------------------------------------------
// Events and attributes.
// ---------------------------------------------------------------------------

/// One key-value pair of an emitted event.
#[derive(Debug)]
pub struct Attribute {
    pub key: String,
    pub value: String,
}

pub struct AttributeV {
    pub key: Seq<char>,
    pub value: Seq<char>,
}

impl View for Attribute {
    type V = AttributeV;

    open spec fn view(&self) -> AttributeV {
        AttributeV { key: self.key@, value: self.value@ }
    }
}

impl Attribute {
    /// An attribute under a literal key.
    pub fn new(key: &str, value: String) -> (r: Attribute)
        ensures
            r@.key == key@,
            r@.value == value@,
    {
        Attribute { key: String::from_str(key), value }
    }

    /// An attribute whose value is a decimal number.
    pub fn new_number(key: &str, value: u128) -> (r: Attribute)
        ensures
            r@.key == key@,
            r@.value == crate::text::dec_str(value as int),
    {
        Attribute { key: String::from_str(key), value: u128_to_string(value) }
    }
}

/// An emitted event: a type tag and attributes, observational only.
#[derive(Debug)]
pub struct Event {
    pub ty: String,
    pub attributes: Vec<Attribute>,
}

pub struct EventV {
    pub ty: Seq<char>,
    pub attributes: Seq<AttributeV>,
}

impl View for Event {
    type V = EventV;

    open spec fn view(&self) -> EventV {
        EventV { ty: self.ty@, attributes: self.attributes@.map_values(|a: Attribute| a@) }
    }
}

// ---------------------------------------------------------------------------
// Dispatched operations.
// ---------------------------------------------------------------------------

/// An instruction handed to the host for execution after this invocation.
#[derive(Debug)]
pub enum OutMsg {
    /// Run `msg_type` with the user's authorization, this contract acting as
    /// the authorized grantee. How the instruction is put on the wire is the
    /// host boundary's concern.
    Authz { user: String, msg_type: AuthzMessageType },
    /// Execute a command on a contract, with funds attached.
    Wasm { contract_addr: String, command: crate::common::ContractCommand, funds: Vec<Coin> },
    /// Transfer funds held by this contract.
    Bank { to_address: String, amount: Vec<Coin> },
}

pub enum OutMsgV {
    Authz { user: Seq<char>, msg_type: AuthzMessageTypeV },
    Wasm { contract_addr: Seq<char>, command: crate::common::ContractCommand, funds: Seq<CoinV> },
    Bank { to_address: Seq<char>, amount: Seq<CoinV> },
}

impl View for OutMsg {
    type V = OutMsgV;

    open spec fn view(&self) -> OutMsgV {
        match self {
            OutMsg::Authz { user, msg_type } => OutMsgV::Authz {
                user: user@,
                msg_type: msg_type@,
            },
            OutMsg::Wasm { contract_addr, command, funds } => OutMsgV::Wasm {
                contract_addr: contract_addr@,
                command: *command,
                funds: funds@.map_values(|c: Coin| c@),
            },
            OutMsg::Bank { to_address, amount } => OutMsgV::Bank {
                to_address: to_address@,
                amount: amount@.map_values(|c: Coin| c@),
            },
        }
    }
}

/// When the host must deliver a reply for a dispatched operation.
#[derive(Clone, Copy, PartialEq, Eq, Structural, Debug)]
pub enum ReplyOn {
    Always,
    Success,
    Never,
}

/// One dispatched operation with its correlation handle.
#[derive(Debug)]
pub struct SubMsg {
    pub id: u64,
    pub msg: OutMsg,
    pub reply_on: ReplyOn,
}

pub struct SubMsgV {
    pub id: u64,
    pub msg: OutMsgV,
    pub reply_on: ReplyOn,
}

impl View for SubMsg {
    type V = SubMsgV;

    open spec fn view(&self) -> SubMsgV {
        SubMsgV { id: self.id, msg: self.msg@, reply_on: self.reply_on }
    }
}

// ---------------------------------------------------------------------------
// Replies.
// ---------------------------------------------------------------------------

/// The settled outcome of one dispatched operation, as the host reports it.
#[derive(Debug)]
pub enum SubMsgResult {
    Success { events: Vec<Event> },
    Failure { error: String },
}

pub enum SubMsgResultV {
    Success { events: Seq<EventV> },
    Failure { error: Seq<char> },
}

impl View for SubMsgResult {
    type V = SubMsgResultV;

    open spec fn view(&self) -> SubMsgResultV {
        match self {
            SubMsgResult::Success { events } => SubMsgResultV::Success {
                events: events@.map_values(|e: Event| e@),
            },
            SubMsgResult::Failure { error } => SubMsgResultV::Failure { error: error@ },
        }
    }
}

/// The host's callback for one dispatched operation.
#[derive(Debug)]
pub struct Reply {
    pub id: u64,
    pub result: SubMsgResult,
}

pub struct ReplyV {
    pub id: u64,
    pub result: SubMsgResultV,
}

impl View for Reply {
    type V = ReplyV;

    open spec fn view(&self) -> ReplyV {
        ReplyV { id: self.id, result: self.result@ }
    }
}

// ---------------------------------------------------------------------------
// Responses.
// ---------------------------------------------------------------------------

/// What one invocation hands back to the host: operations to dispatch,
/// response attributes, and events.
#[derive(Debug)]
pub struct Response {
    pub messages: Vec<SubMsg>,
    pub attributes: Vec<Attribute>,
    pub events: Vec<Event>,
}

pub struct ResponseV {
    pub messages: Seq<SubMsgV>,
    pub attributes: Seq<AttributeV>,
    pub events: Seq<EventV>,
}

impl View for Response {
    type V = ResponseV;

    open spec fn view(&self) -> ResponseV {
        ResponseV {
            messages: self.messages@.map_values(|m: SubMsg| m@),
            attributes: self.attributes@.map_values(|a: Attribute| a@),
            events: self.events@.map_values(|e: Event| e@),
        }
    }
}

impl Response {
    pub fn new() -> (r: Response)
        ensures
            r@.messages == Seq::<SubMsgV>::empty(),
            r@.attributes == Seq::<AttributeV>::empty(),
            r@.events == Seq::<EventV>::empty(),
    {
        let r = Response { messages: Vec::new(), attributes: Vec::new(), events: Vec::new() };
        proof {
            assert(r@.messages =~= Seq::<SubMsgV>::empty());
            assert(r@.attributes =~= Seq::<AttributeV>::empty());
            assert(r@.events =~= Seq::<EventV>::empty());
        }
        r
    }
}

// ---------------------------------------------------------------------------
// Invocation context.
// ---------------------------------------------------------------------------

/// The environment of one invocation.
#[derive(Debug)]
pub struct Env {
    /// This contract's own address.
    pub contract_address: String,
    /// The block time, in nanoseconds.
    pub time_nanos: u64,
}

/// Who called and what funds they attached.
#[derive(Debug)]
pub struct MessageInfo {
    pub sender: String,
    pub funds: Vec<Coin>,
}

// ---------------------------------------------------------------------------
// The external bank ledger.
// ---------------------------------------------------------------------------

/// One balance of the external ledger.
#[derive(Debug)]
pub struct BankEntry {
    pub address: String,
    pub denom: String,
    pub amount: u128,
}

pub struct BankEntryV {
    pub address: Seq<char>,
    pub denom: Seq<char>,
    pub amount: u128,
}

impl View for BankEntry {
    type V = BankEntryV;

    open spec fn view(&self) -> BankEntryV {
        BankEntryV { address: self.address@, denom: self.denom@, amount: self.amount }
    }
}

/// A snapshot of the external bank ledger, as queried by the invocation that
/// receives it. The ledger itself lives outside the contract; within one
/// invocation its answers do not change.
#[derive(Debug)]
pub struct Bank {
    pub balances: Vec<BankEntry>,
}

impl View for Bank {
    type V = Seq<BankEntryV>;

    open spec fn view(&self) -> Seq<BankEntryV> {
        self.balances@.map_values(|b: BankEntry| b@)
    }
}

/// The balance the snapshot reports: the first matching entry, or zero for an
/// account the ledger has never credited.
pub open spec fn spec_balance(entries: Seq<BankEntryV>, address: Seq<char>, denom: Seq<char>) -> u128
    decreases entries.len(),
{
    if entries.len() == 0 {
        0
    } else if entries[0].address == address && entries[0].denom == denom {
        entries[0].amount
    } else {
        spec_balance(entries.skip(1), address, denom)
    }
}

impl Bank {
    /// Looks a balance up in the snapshot.
    pub fn balance_of(&self, address: &str, denom: &str) -> (r: u128)
        ensures
            r == spec_balance(self@, address@, denom@),
    {
        let n = self.balances.len();
        let mut i: usize = 0;
        proof {
            assert(self@.skip(0) =~= self@);
        }
        while i < n
            invariant
                i <= n,
                n == self.balances@.len(),
                spec_balance(self@, address@, denom@) == spec_balance(
                    self@.skip(i as int),
                    address@,
                    denom@,
                ),
            decreases n - i,
        {
            let e = &self.balances[i];
            proof {
                assert(self@.skip(i as int)[0] == self@[i as int]);
                assert(self@.skip(i as int).skip(1) =~= self@.skip(i as int + 1));
            }
            if crate::text::str_eq_str(e.address.as_str(), address) && crate::text::str_eq_str(
                e.denom.as_str(),
                denom,
            ) {
                return e.amount;
            }
            i = i + 1;
        }
        assert(self@.skip(i as int).len() == 0);
        0
    }
}

// ---------------------------------------------------------------------------
// Parsing a coin string: "<amount><denom>", as the host renders coins in
// event attributes.
// ---------------------------------------------------------------------------

/// The length of the leading run of ASCII digits.
pub open spec fn digit_prefix_len(s: Seq<char>) -> int
    decreases s.len(),
{
    if s.len() == 0 {
        0
    } else if !is_dec_digit(s[0]) {
        0
    } else {
        1 + digit_prefix_len(s.skip(1))
    }
}

/// What parsing a coin string yields: the leading digits as the amount and
/// the rest as the denomination. Parsing fails when there is no digit to
/// start with, no denomination after the digits, or the amount overflows.
pub open spec fn parse_coin_spec(s: Seq<char>) -> Option<CoinV> {
    let p = digit_prefix_len(s);
    if p == 0 || p == s.len() || dec_val(s.take(p)) > u128::MAX {
        None::<CoinV>
    } else {
        Some(CoinV { amount: dec_val(s.take(p)) as u128, denom: s.skip(p) })
    }
}

/// The digit-prefix length is the first position holding no digit.
proof fn lemma_digit_prefix_at(s: Seq<char>, p: int)
    requires
        0 <= p <= s.len(),
        forall|j: int| 0 <= j < p ==> is_dec_digit(#[trigger] s[j]),
        p < s.len() ==> !is_dec_digit(s[p]),
    ensures
        digit_prefix_len(s) == p,
    decreases s.len(),
{
    if p == 0 {
    } else {
        assert(is_dec_digit(s[0]));
        assert(forall|j: int| 0 <= j < p - 1 ==> s.skip(1)[j] == s[j + 1]);
        lemma_digit_prefix_at(s.skip(1), p - 1);
    }
}

/// A sequence of digits has a non-negative value.
proof fn lemma_dec_val_nonneg(s: Seq<char>)
    requires
        crate::text::all_dec_digits(s),
    ensures
        dec_val(s) >= 0,
    decreases s.len(),
{
    if s.len() > 0 {
        assert(crate::text::all_dec_digits(s.drop_last()));
        lemma_dec_val_nonneg(s.drop_last());
        assert(is_dec_digit(s.last()));
    }
}

/// Taking one more digit multiplies the value by ten and adds the digit.
proof fn lemma_dec_val_step(s: Seq<char>, j: int)
    requires
        0 <= j < s.len(),
    ensures
        dec_val(s.take(j + 1)) == dec_val(s.take(j)) * 10 + digit_val(s[j]),
{
    assert(s.take(j + 1).drop_last() =~= s.take(j));
    assert(s.take(j + 1).last() == s[j]);
}

/// Once the value of a digit prefix exceeds a bound, longer prefixes do too.
proof fn lemma_dec_val_monotone(s: Seq<char>, j: int, p: int)
    requires
        0 <= j <= p <= s.len(),
        forall|i: int| 0 <= i < p ==> is_dec_digit(#[trigger] s[i]),
    ensures
        dec_val(s.take(j)) <= dec_val(s.take(p)),
    decreases p - j,
{
    if j < p {
        lemma_dec_val_step(s, p - 1);
        assert(crate::text::all_dec_digits(s.take(p - 1))) by {
            assert(forall|i: int| 0 <= i < p - 1 ==> s.take(p - 1)[i] == s[i]);
        }
        lemma_dec_val_nonneg(s.take(p - 1));
        assert(is_dec_digit(s[p - 1]));
        assert(dec_val(s.take(p - 1)) <= dec_val(s.take(p))) by {
            assert(dec_val(s.take(p)) == dec_val(s.take(p - 1)) * 10 + digit_val(s[p - 1]));
        }
        lemma_dec_val_monotone(s, j, p - 1);
    }
}

/// Whether a character is an ASCII decimal digit.
fn is_digit_char(c: char) -> (r: bool)
    ensures
        r == is_dec_digit(c),
{
    (c as u32) >= 48 && (c as u32) <= 57
}

/// Parses "<amount><denom>" as the host renders a coin.
pub fn parse_coin(s: &str) -> (r: Option<Coin>)
    ensures
        match r {
            Some(c) => parse_coin_spec(s@) == Some(c@),
            None => parse_coin_spec(s@) == None::<CoinV>,
        },
{
    let n = s.unicode_len();
    // Find the end of the digit prefix.
    let mut p: usize = 0;
    while p < n && is_digit_char(s.get_char(p))
        invariant
            p <= n,
            n == s@.len(),
            forall|j: int| 0 <= j < p ==> is_dec_digit(#[trigger] s@[j]),
        decreases n - p,
    {
        p = p + 1;
    }
    // p is the first position holding no digit (or the length).
    proof {
        lemma_digit_prefix_at(s@, p as int);
    }
    if p == 0 || p == n {
        return None;
    }
    // Accumulate the amount, watching for overflow.
    let mut amount: u128 = 0;
    let mut i: usize = 0;
    while i < p
        invariant
            i <= p,
            0 < p < n,
            n == s@.len(),
            digit_prefix_len(s@) == p as int,
            forall|j: int| 0 <= j < p ==> is_dec_digit(#[trigger] s@[j]),
            amount == dec_val(s@.take(i as int)),
        decreases p - i,
    {
        let c = s.get_char(i);
        assert(is_dec_digit(s@[i as int]));
        let d: u128 = ((c as u32) - 48) as u128;
        proof {
            lemma_dec_val_step(s@, i as int);
        }
        if amount > (u128::MAX - d) / 10 {
            // The full prefix can only be larger still.
            proof {
                let md = (u128::MAX - d) as int;
                vstd::arithmetic::div_mod::lemma_fundamental_div_mod(md, 10);
                vstd::arithmetic::div_mod::lemma_mod_bound(md, 10);
                assert((amount as int) * 10 + d > u128::MAX) by (nonlinear_arith)
                    requires
                        amount as int >= md / 10 + 1,
                        md == 10 * (md / 10) + md % 10,
                        0 <= md % 10 < 10,
                        md == u128::MAX - d;
                assert(dec_val(s@.take(i as int + 1)) > u128::MAX);
                lemma_dec_val_monotone(s@, i as int + 1, p as int);
                assert(dec_val(s@.take(p as int)) > u128::MAX);
            }
            return None;
        }
        amount = amount * 10 + d;
        i = i + 1;
    }
    assert(amount == dec_val(s@.take(p as int)));
    let denom = s.substring_char(p, n);
    proof {
        assert(denom@ =~= s@.skip(p as int));
    }
    Some(Coin { denom: String::from_str(denom), amount })
}

} // verus!
