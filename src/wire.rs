use vstd::prelude::*;
use vstd::utf8::encode_utf8;
use crate::order::{OrderSide, OrderType, TradeMode, WSOrder, WSOrderRequest};

verus! {

pub const QUOTE: u8 = 0x22;
pub const BACKSLASH: u8 = 0x5c;
pub const COLON: u8 = 0x3a;
pub const COMMA: u8 = 0x2c;
pub const OPEN_BRACE: u8 = 0x7b;
pub const CLOSE_BRACE: u8 = 0x7d;
pub const OPEN_BRACKET: u8 = 0x5b;
pub const CLOSE_BRACKET: u8 = 0x5d;

/// Lower-case hexadecimal digit for `n < 16`.
pub open spec fn hex_digit(n: u8) -> u8 {
    if n < 10 { (0x30 + n) as u8 } else { (0x61 + n - 10) as u8 }
}

/// How one byte of a string's UTF-8 encoding is written inside a JSON
/// string literal: quote and backslash are escaped with a backslash, control
/// bytes are written as `\u00XX`, every other byte stands for itself (so
/// multi-byte characters pass through unchanged).
pub open spec fn escape_byte(b: u8) -> Seq<u8> {
    if b == QUOTE {
        seq![BACKSLASH, QUOTE]
    } else if b == BACKSLASH {
        seq![BACKSLASH, BACKSLASH]
    } else if b < 0x20 {
        seq![BACKSLASH, 0x75u8, 0x30u8, 0x30u8, hex_digit(b / 16), hex_digit(b % 16)]
    } else {
        seq![b]
    }
}

pub open spec fn escaped(s: Seq<u8>) -> Seq<u8>
    decreases s.len(),
{
    if s.len() == 0 {
        seq![]
    } else {
        escape_byte(s[0]) + escaped(s.drop_first())
    }
}

/// A JSON string literal holding the text whose UTF-8 encoding is `s`.
pub open spec fn json_string(s: Seq<u8>) -> Seq<u8> {
    seq![QUOTE] + escaped(s) + seq![QUOTE]
}

/// The value of one member of a JSON object, as this library writes them.
pub enum WireValue {
    Str(Seq<u8>),
    Bool(bool),
    Null,
}

pub open spec fn value_text(v: WireValue) -> Seq<u8> {
    match v {
        WireValue::Str(s) => json_string(s),
        WireValue::Bool(true) => true_text(),
        WireValue::Bool(false) => false_text(),
        WireValue::Null => null_text(),
    }
}

/// `null`
pub open spec fn null_text() -> Seq<u8> {
    seq![0x6eu8, 0x75u8, 0x6cu8, 0x6cu8]
}

/// `true`
pub open spec fn true_text() -> Seq<u8> {
    seq![0x74u8, 0x72u8, 0x75u8, 0x65u8]
}

/// `false`
pub open spec fn false_text() -> Seq<u8> {
    seq![0x66u8, 0x61u8, 0x6cu8, 0x73u8, 0x65u8]
}

/// `"key":`
pub open spec fn key_text(key: Seq<char>) -> Seq<u8> {
    json_string(encode_utf8(key)) + seq![COLON]
}

/// `"key":value`
#[verifier::opaque]
pub open spec fn member_text(key: Seq<char>, v: WireValue) -> Seq<u8> {
    key_text(key) + value_text(v)
}

pub open spec fn str_value(s: Seq<char>) -> WireValue {
    WireValue::Str(encode_utf8(s))
}

pub open spec fn opt_str_value(o: Option<String>) -> WireValue {
    match o {
        Some(s) => str_value(s@),
        None => WireValue::Null,
    }
}

pub open spec fn opt_bool_value(o: Option<bool>) -> WireValue {
    match o {
        Some(b) => WireValue::Bool(b),
        None => WireValue::Null,
    }
}

pub open spec fn trade_mode_name(m: TradeMode) -> Seq<char> {
    match m {
        TradeMode::Isolated => "isolated"@,
        TradeMode::Cross => "cross"@,
        TradeMode::Cash => "cash"@,
    }
}

pub open spec fn side_name(s: OrderSide) -> Seq<char> {
    match s {
        OrderSide::Buy => "buy"@,
        OrderSide::Sell => "sell"@,
    }
}

pub open spec fn order_type_name(t: OrderType) -> Seq<char> {
    match t {
        OrderType::Market => "market"@,
        OrderType::Limit => "limit"@,
        OrderType::PostOnly => "post_only"@,
        OrderType::Fok => "fok"@,
        OrderType::Ioc => "ioc"@,
        OrderType::OptimalLimitIoc => "optimal_limit_ioc"@,
    }
}

/// The members of an order's JSON object, in the order they are written,
/// under the venue's field names.
pub open spec fn order_fields(o: WSOrder) -> Seq<(Seq<char>, WireValue)> {
    seq![
        ("instId"@, str_value(o.symbol@)),
        ("tdMode"@, str_value(trade_mode_name(o.trade_mode))),
        ("ccy"@, opt_str_value(o.currency)),
        ("clOrdId"@, opt_str_value(o.client_order_id)),
        ("tag"@, opt_str_value(o.tag)),
        ("side"@, str_value(side_name(o.side))),
        ("posSide"@, opt_str_value(o.position_side)),
        ("ordType"@, str_value(order_type_name(o.order_type))),
        ("sz"@, str_value(o.qty@)),
        ("px"@, opt_str_value(o.price)),
        ("reduceOnly"@, opt_bool_value(o.reduce_only)),
        ("tgtCcy"@, opt_str_value(o.target_currency)),
    ]
}

/// Comma-separated members.
pub open spec fn members_text(fields: Seq<(Seq<char>, WireValue)>) -> Seq<u8>
    decreases fields.len(),
{
    if fields.len() == 0 {
        seq![]
    } else if fields.len() == 1 {
        member_text(fields[0].0, fields[0].1)
    } else {
        members_text(fields.drop_last()) + seq![COMMA] + member_text(fields.last().0, fields.last().1)
    }
}

proof fn lemma_members_take(f: Seq<(Seq<char>, WireValue)>, k: int)
    requires
        1 <= k < f.len(),
    ensures
        members_text(f.take(k + 1)) == members_text(f.take(k)) + seq![COMMA] + member_text(f[k].0, f[k].1),
{
    assert(f.take(k + 1).drop_last() =~= f.take(k));
}

pub open spec fn object_text(fields: Seq<(Seq<char>, WireValue)>) -> Seq<u8> {
    seq![OPEN_BRACE] + members_text(fields) + seq![CLOSE_BRACE]
}

/// The JSON text of one order.
#[verifier::opaque]
pub open spec fn order_text(o: WSOrder) -> Seq<u8> {
    object_text(order_fields(o))
}

/// Comma-separated order objects.
pub open spec fn orders_text(orders: Seq<WSOrder>) -> Seq<u8>
    decreases orders.len(),
{
    if orders.len() == 0 {
        seq![]
    } else if orders.len() == 1 {
        order_text(orders[0])
    } else {
        orders_text(orders.drop_last()) + seq![COMMA] + order_text(orders.last())
    }
}

/// The JSON text of an envelope: `{"id":..,"op":..,"args":[..]}`.
pub open spec fn request_text(id: Seq<char>, op: Seq<char>, orders: Seq<WSOrder>) -> Seq<u8> {
    seq![OPEN_BRACE] + member_text("id"@, str_value(id)) + seq![COMMA] + member_text("op"@, str_value(op))
        + seq![COMMA] + json_string(encode_utf8("args"@)) + seq![COLON, OPEN_BRACKET] + orders_text(orders)
        + seq![CLOSE_BRACKET, CLOSE_BRACE]
}

pub proof fn lemma_escaped_push(s: Seq<u8>, b: u8)
    ensures
        escaped(s.push(b)) == escaped(s) + escape_byte(b),
    decreases s.len(),
{
    if s.len() == 0 {
        assert(s.push(b).drop_first() =~= s);
        assert(escaped(s.push(b)) =~= escaped(s) + escape_byte(b));
    } else {
        assert(s.push(b).drop_first() =~= s.drop_first().push(b));
        lemma_escaped_push(s.drop_first(), b);
        assert(escaped(s.push(b)) =~= escaped(s) + escape_byte(b));
    }
}

pub(crate) fn push_bytes(out: &mut Vec<u8>, b: &[u8])
    ensures
        final(out)@ == old(out)@ + b@,
{
    let mut i: usize = 0;
    while i < b.len()
        invariant
            i <= b@.len(),
            out@ == old(out)@ + b@.subrange(0, i as int),
        decreases b@.len() - i,
    {
        out.push(b[i]);
        i = i + 1;
        assert(b@.subrange(0, i as int) =~= b@.subrange(0, i - 1).push(b@[i - 1]));
    }
    assert(b@.subrange(0, i as int) =~= b@);
}

fn hex_digit_exec(n: u8) -> (r: u8)
    requires
        n < 16,
    ensures
        r == hex_digit(n),
{
    if n < 10 { 0x30 + n } else { 0x61 + n - 10 }
}

fn push_escaped_byte(out: &mut Vec<u8>, b: u8)
    ensures
        final(out)@ == old(out)@ + escape_byte(b),
{
    if b == QUOTE || b == BACKSLASH {
        out.push(BACKSLASH);
        out.push(b);
    } else if b < 0x20 {
        out.push(BACKSLASH);
        out.push(0x75);
        out.push(0x30);
        out.push(0x30);
        out.push(hex_digit_exec(b / 16));
        out.push(hex_digit_exec(b % 16));
    } else {
        out.push(b);
    }
    assert(final(out)@ =~= old(out)@ + escape_byte(b));
}

/// Appends `s` as a JSON string literal.
fn push_json_string(out: &mut Vec<u8>, s: &str)
    ensures
        final(out)@ == old(out)@ + json_string(encode_utf8(s@)),
{
    let b: &[u8] = s.as_bytes();
    out.push(QUOTE);
    let ghost start = out@;
    let mut i: usize = 0;
    while i < b.len()
        invariant
            i <= b@.len(),
            out@ == start + escaped(b@.subrange(0, i as int)),
        decreases b@.len() - i,
    {
        proof {
            assert(b@.subrange(0, i + 1) =~= b@.subrange(0, i as int).push(b@[i as int]));
            lemma_escaped_push(b@.subrange(0, i as int), b@[i as int]);
        }
        push_escaped_byte(out, b[i]);
        i = i + 1;
    }
    assert(b@.subrange(0, i as int) =~= b@);
    out.push(QUOTE);
    assert(final(out)@ =~= old(out)@ + json_string(encode_utf8(s@)));
}

fn trade_mode_text(m: TradeMode) -> (r: &'static str)
    ensures
        r@ == trade_mode_name(m),
{
    match m {
        TradeMode::Isolated => "isolated",
        TradeMode::Cross => "cross",
        TradeMode::Cash => "cash",
    }
}

fn side_text(s: OrderSide) -> (r: &'static str)
    ensures
        r@ == side_name(s),
{
    match s {
        OrderSide::Buy => "buy",
        OrderSide::Sell => "sell",
    }
}

fn order_type_text(t: OrderType) -> (r: &'static str)
    ensures
        r@ == order_type_name(t),
{
    match t {
        OrderType::Market => "market",
        OrderType::Limit => "limit",
        OrderType::PostOnly => "post_only",
        OrderType::Fok => "fok",
        OrderType::Ioc => "ioc",
        OrderType::OptimalLimitIoc => "optimal_limit_ioc",
    }
}

fn push_null(out: &mut Vec<u8>)
    ensures
        final(out)@ == old(out)@ + null_text(),
{
    out.push(0x6e);
    out.push(0x75);
    out.push(0x6c);
    out.push(0x6c);
    assert(final(out)@ =~= old(out)@ + null_text());
}

fn push_bool(out: &mut Vec<u8>, b: bool)
    ensures
        final(out)@ == old(out)@ + (if b { true_text() } else { false_text() }),
{
    if b {
        out.push(0x74);
        out.push(0x72);
        out.push(0x75);
        out.push(0x65);
    } else {
        out.push(0x66);
        out.push(0x61);
        out.push(0x6c);
        out.push(0x73);
        out.push(0x65);
    }
    assert(final(out)@ =~= old(out)@ + (if b { true_text() } else { false_text() }));
}

fn push_key(out: &mut Vec<u8>, key: &str)
    ensures
        final(out)@ == old(out)@ + key_text(key@),
{
    push_json_string(out, key);
    out.push(COLON);
}

fn push_str_member(out: &mut Vec<u8>, key: &str, val: &str)
    ensures
        final(out)@ == old(out)@ + member_text(key@, str_value(val@)),
{
    push_key(out, key);
    push_json_string(out, val);
    reveal(member_text);
    assert(final(out)@ =~= old(out)@ + member_text(key@, str_value(val@)));
}

fn push_opt_str_member(out: &mut Vec<u8>, key: &str, val: &Option<String>)
    ensures
        final(out)@ == old(out)@ + member_text(key@, opt_str_value(*val)),
{
    push_key(out, key);
    match val {
        Some(v) => push_json_string(out, v.as_str()),
        None => push_null(out),
    }
    reveal(member_text);
    assert(final(out)@ =~= old(out)@ + member_text(key@, opt_str_value(*val)));
}

fn push_opt_bool_member(out: &mut Vec<u8>, key: &str, val: Option<bool>)
    ensures
        final(out)@ == old(out)@ + member_text(key@, opt_bool_value(val)),
{
    push_key(out, key);
    match val {
        Some(b) => push_bool(out, b),
        None => push_null(out),
    }
    reveal(member_text);
    assert(final(out)@ =~= old(out)@ + member_text(key@, opt_bool_value(val)));
}

/// Writes one order as a JSON object.
pub fn encode_order(o: &WSOrder) -> (r: Vec<u8>)
    ensures
        r@ == order_text(*o),
{
    let ghost f = order_fields(*o);
    let mut out: Vec<u8> = Vec::new();
    out.push(OPEN_BRACE);
    push_str_member(&mut out, "instId", o.symbol.as_str());
    proof {
        assert(out@ =~= seq![OPEN_BRACE] + members_text(f.take(1)));
    }
    out.push(COMMA);
    push_str_member(&mut out, "tdMode", trade_mode_text(o.trade_mode));
    proof {
        lemma_members_take(f, 1);
        assert(out@ =~= seq![OPEN_BRACE] + members_text(f.take(2)));
    }
    out.push(COMMA);
    push_opt_str_member(&mut out, "ccy", &o.currency);
    proof {
        lemma_members_take(f, 2);
        assert(out@ =~= seq![OPEN_BRACE] + members_text(f.take(3)));
    }
    out.push(COMMA);
    push_opt_str_member(&mut out, "clOrdId", &o.client_order_id);
    proof {
        lemma_members_take(f, 3);
        assert(out@ =~= seq![OPEN_BRACE] + members_text(f.take(4)));
    }
    out.push(COMMA);
    push_opt_str_member(&mut out, "tag", &o.tag);
    proof {
        lemma_members_take(f, 4);
        assert(out@ =~= seq![OPEN_BRACE] + members_text(f.take(5)));
    }
    out.push(COMMA);
    push_str_member(&mut out, "side", side_text(o.side));
    proof {
        lemma_members_take(f, 5);
        assert(out@ =~= seq![OPEN_BRACE] + members_text(f.take(6)));
    }
    out.push(COMMA);
    push_opt_str_member(&mut out, "posSide", &o.position_side);
    proof {
        lemma_members_take(f, 6);
        assert(out@ =~= seq![OPEN_BRACE] + members_text(f.take(7)));
    }
    out.push(COMMA);
    push_str_member(&mut out, "ordType", order_type_text(o.order_type));
    proof {
        lemma_members_take(f, 7);
        assert(out@ =~= seq![OPEN_BRACE] + members_text(f.take(8)));
    }
    out.push(COMMA);
    push_str_member(&mut out, "sz", o.qty.as_str());
    proof {
        lemma_members_take(f, 8);
        assert(out@ =~= seq![OPEN_BRACE] + members_text(f.take(9)));
    }
    out.push(COMMA);
    push_opt_str_member(&mut out, "px", &o.price);
    proof {
        lemma_members_take(f, 9);
        assert(out@ =~= seq![OPEN_BRACE] + members_text(f.take(10)));
    }
    out.push(COMMA);
    push_opt_bool_member(&mut out, "reduceOnly", o.reduce_only);
    proof {
        lemma_members_take(f, 10);
        assert(out@ =~= seq![OPEN_BRACE] + members_text(f.take(11)));
    }
    out.push(COMMA);
    push_opt_str_member(&mut out, "tgtCcy", &o.target_currency);
    proof {
        lemma_members_take(f, 11);
        assert(out@ =~= seq![OPEN_BRACE] + members_text(f.take(12)));
    }
    out.push(CLOSE_BRACE);
    proof {
        assert(f.take(12) =~= f);
        reveal(order_text);
        assert(out@ =~= order_text(*o));
    }
    out
}

proof fn lemma_orders_take(orders: Seq<WSOrder>, k: int)
    requires
        0 <= k < orders.len(),
    ensures
        orders_text(orders.take(k + 1)) == if k == 0 {
            order_text(orders[k])
        } else {
            orders_text(orders.take(k)) + seq![COMMA] + order_text(orders[k])
        },
{
    assert(orders.take(k + 1).drop_last() =~= orders.take(k));
}

/// Writes an envelope and the orders it carries as one JSON object.
pub fn encode_request(req: &WSOrderRequest) -> (r: Vec<u8>)
    ensures
        r@ == request_text(req.id@, req.op@, req.args@),
{
    let mut out: Vec<u8> = Vec::new();
    out.push(OPEN_BRACE);
    push_str_member(&mut out, "id", req.id.as_str());
    out.push(COMMA);
    push_str_member(&mut out, "op", req.op.as_str());
    out.push(COMMA);
    push_key(&mut out, "args");
    out.push(OPEN_BRACKET);
    let ghost head = out@;
    let mut i: usize = 0;
    while i < req.args.len()
        invariant
            i <= req.args@.len(),
            out@ == head + orders_text(req.args@.take(i as int)),
        decreases req.args@.len() - i,
    {
        proof {
            lemma_orders_take(req.args@, i as int);
        }
        if i > 0 {
            out.push(COMMA);
        }
        let text = encode_order(&req.args[i]);
        push_bytes(&mut out, text.as_slice());
        i = i + 1;
        assert(out@ =~= head + orders_text(req.args@.take(i as int)));
    }
    out.push(CLOSE_BRACKET);
    out.push(CLOSE_BRACE);
    assert(req.args@.take(i as int) =~= req.args@);
    assert(out@ =~= request_text(req.id@, req.op@, req.args@));
    out
}

} // verus!
