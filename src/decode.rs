use vstd::prelude::*;
use vstd::utf8::{decode_utf8, encode_utf8_decode_utf8};
use crate::order::{OrderSide, OrderType, TradeMode, WSOrder};
use crate::wire::{
    object_text, order_fields, order_text, orders_text, request_text, str_value, CLOSE_BRACKET, OPEN_BRACKET, order_type_name, side_name, trade_mode_name,
    escape_byte, escaped, false_text, hex_digit, json_string, key_text, member_text, members_text, null_text,
    true_text, value_text, WireValue, BACKSLASH, CLOSE_BRACE, COMMA, OPEN_BRACE, QUOTE,
};

verus! {

/// The number a lower-case hexadecimal digit stands for.
pub open spec fn hex_value(d: u8) -> Option<u8> {
    if 0x30 <= d <= 0x39 {
        Some((d - 0x30) as u8)
    } else if 0x61 <= d <= 0x66 {
        Some((d - 0x61 + 10) as u8)
    } else {
        None
    }
}

pub open spec fn prepend(b: u8, r: Option<(Seq<u8>, Seq<u8>)>) -> Option<(Seq<u8>, Seq<u8>)> {
    match r {
        Some((c, rest)) => Some((seq![b] + c, rest)),
        None => None,
    }
}

/// Reads the body of a JSON string literal, after its opening quote: the
/// bytes it stands for and what follows its closing quote.
pub open spec fn string_body(t: Seq<u8>) -> Option<(Seq<u8>, Seq<u8>)>
    decreases t.len(),
{
    if t.len() == 0 {
        None
    } else if t[0] == QUOTE {
        Some((seq![], t.drop_first()))
    } else if t[0] == BACKSLASH {
        if t.len() >= 2 && (t[1] == QUOTE || t[1] == BACKSLASH) {
            prepend(t[1], string_body(t.subrange(2, t.len() as int)))
        } else if t.len() >= 6 && t[1] == 0x75 && t[2] == 0x30 && t[3] == 0x30 && hex_value(t[4]) is Some
            && hex_value(t[5]) is Some {
            prepend(
                (hex_value(t[4])->0 * 16 + hex_value(t[5])->0) as u8,
                string_body(t.subrange(6, t.len() as int)),
            )
        } else {
            None
        }
    } else {
        prepend(t[0], string_body(t.drop_first()))
    }
}

/// Reading back an escaped string gives the same bytes back and leaves what
/// follows the closing quote.
pub proof fn lemma_string_body(s: Seq<u8>, rest: Seq<u8>)
    ensures
        string_body(escaped(s) + seq![QUOTE] + rest) == Some((s, rest)),
    decreases s.len(),
{
    let t = escaped(s) + seq![QUOTE] + rest;
    if s.len() == 0 {
        assert(t =~= seq![QUOTE] + rest);
        assert(t.drop_first() =~= rest);
    } else {
        let b = s[0];
        let tail = s.drop_first();
        let u = escaped(tail) + seq![QUOTE] + rest;
        lemma_string_body(tail, rest);
        assert(t =~= escape_byte(b) + u);
        if b == QUOTE || b == BACKSLASH {
            assert(t.subrange(2, t.len() as int) =~= u);
        } else if b < 0x20 {
            assert(t.subrange(6, t.len() as int) =~= u);
            assert(hex_value(hex_digit(b / 16)) == Some(b / 16));
            assert(hex_value(hex_digit(b % 16)) == Some(b % 16));
        } else {
            assert(t.drop_first() =~= u);
        }
        assert(seq![b] + tail =~= s);
    }
}

/// Reads one JSON value of the kinds this library writes, and what follows it.
pub open spec fn value_from(t: Seq<u8>) -> Option<(WireValue, Seq<u8>)> {
    if t.len() > 0 && t[0] == QUOTE {
        match string_body(t.drop_first()) {
            Some((s, r)) => Some((WireValue::Str(s), r)),
            None => None,
        }
    } else if t.len() >= 4 && t.take(4) == null_text() {
        Some((WireValue::Null, t.skip(4)))
    } else if t.len() >= 4 && t.take(4) == true_text() {
        Some((WireValue::Bool(true), t.skip(4)))
    } else if t.len() >= 5 && t.take(5) == false_text() {
        Some((WireValue::Bool(false), t.skip(5)))
    } else {
        None
    }
}

/// Reads the member named `key`: its value and what follows it.
pub open spec fn member_from(t: Seq<u8>, key: Seq<char>) -> Option<(WireValue, Seq<u8>)> {
    let k = key_text(key);
    if t.len() >= k.len() && t.take(k.len() as int) == k {
        value_from(t.skip(k.len() as int))
    } else {
        None
    }
}

/// Reads comma-separated members named `keys`, in that order.
pub open spec fn members_from(t: Seq<u8>, keys: Seq<Seq<char>>) -> Option<(Seq<WireValue>, Seq<u8>)>
    decreases keys.len(),
{
    if keys.len() == 0 {
        Some((seq![], t))
    } else {
        match member_from(t, keys[0]) {
            Some((v, r)) => if keys.len() == 1 {
                Some((seq![v], r))
            } else if r.len() > 0 && r[0] == COMMA {
                match members_from(r.drop_first(), keys.drop_first()) {
                    Some((vs, r2)) => Some((seq![v] + vs, r2)),
                    None => None,
                }
            } else {
                None
            },
            None => None,
        }
    }
}

/// Reads an object whose members are named `keys`, in that order.
pub open spec fn object_from(t: Seq<u8>, keys: Seq<Seq<char>>) -> Option<(Seq<WireValue>, Seq<u8>)> {
    if t.len() > 0 && t[0] == OPEN_BRACE {
        match members_from(t.drop_first(), keys) {
            Some((vs, r)) => if r.len() > 0 && r[0] == CLOSE_BRACE {
                Some((vs, r.drop_first()))
            } else {
                None
            },
            None => None,
        }
    } else {
        None
    }
}

pub proof fn lemma_value_from(v: WireValue, rest: Seq<u8>)
    ensures
        value_from(value_text(v) + rest) == Some((v, rest)),
{
    let t = value_text(v) + rest;
    match v {
        WireValue::Str(s) => {
            assert(t.drop_first() =~= escaped(s) + seq![QUOTE] + rest);
            lemma_string_body(s, rest);
        },
        WireValue::Null => {
            assert(t.take(4) =~= null_text());
            assert(t.skip(4) =~= rest);
        },
        WireValue::Bool(true) => {
            assert(t.take(4) =~= true_text());
            assert(t.take(4) != null_text()) by {
                assert(t.take(4)[0] != null_text()[0]);
            }
            assert(t.skip(4) =~= rest);
        },
        WireValue::Bool(false) => {
            assert(t.take(5) =~= false_text());
            assert(t.take(4) != null_text()) by {
                assert(t.take(4)[0] != null_text()[0]);
            }
            assert(t.take(4) != true_text()) by {
                assert(t.take(4)[0] != true_text()[0]);
            }
            assert(t.skip(5) =~= rest);
        },
    }
}

pub proof fn lemma_member_from(key: Seq<char>, v: WireValue, rest: Seq<u8>)
    ensures
        member_from(member_text(key, v) + rest, key) == Some((v, rest)),
{
    reveal(member_text);
    let t = member_text(key, v) + rest;
    let k = key_text(key);
    assert(t.take(k.len() as int) =~= k);
    assert(t.skip(k.len() as int) =~= value_text(v) + rest);
    lemma_value_from(v, rest);
}

/// The members text, read from its first member.
pub proof fn lemma_members_front(f: Seq<(Seq<char>, WireValue)>)
    requires
        f.len() >= 2,
    ensures
        members_text(f) == member_text(f[0].0, f[0].1) + seq![COMMA] + members_text(f.drop_first()),
    decreases f.len(),
{
    if f.len() == 2 {
        assert(f.drop_last() =~= seq![f[0]]);
        assert(f.drop_first() =~= seq![f[1]]);
        assert(members_text(f.drop_last()) == member_text(f[0].0, f[0].1));
        assert(members_text(f.drop_first()) == member_text(f[1].0, f[1].1));
        assert(f.last() == f[1]);
    } else {
        let init = f.drop_last();
        let tail = f.drop_first();
        lemma_members_front(init);
        assert(init.drop_first() =~= tail.drop_last());
        assert(tail.last() == f.last());
        assert(init[0] == f[0]);
        let a = member_text(f[0].0, f[0].1);
        let b = members_text(tail.drop_last());
        let l = member_text(f.last().0, f.last().1);
        assert(members_text(f) == (a + seq![COMMA] + b) + seq![COMMA] + l);
        assert(members_text(tail) == b + seq![COMMA] + l);
        assert((a + seq![COMMA] + b) + seq![COMMA] + l =~= a + seq![COMMA] + (b + seq![COMMA] + l));
    }
}

pub open spec fn keys_of(f: Seq<(Seq<char>, WireValue)>) -> Seq<Seq<char>> {
    f.map_values(|m: (Seq<char>, WireValue)| m.0)
}

pub open spec fn values_of(f: Seq<(Seq<char>, WireValue)>) -> Seq<WireValue> {
    f.map_values(|m: (Seq<char>, WireValue)| m.1)
}

pub proof fn lemma_members_from(f: Seq<(Seq<char>, WireValue)>, rest: Seq<u8>)
    ensures
        members_from(members_text(f) + rest, keys_of(f)) == Some((values_of(f), rest)),
    decreases f.len(),
{
    if f.len() == 0 {
        assert(members_text(f) + rest =~= rest);
        assert(values_of(f) =~= seq![]);
    } else if f.len() == 1 {
        lemma_member_from(f[0].0, f[0].1, rest);
        assert(values_of(f) =~= seq![f[0].1]);
    } else {
        let tail = f.drop_first();
        lemma_members_front(f);
        let after = seq![COMMA] + members_text(tail) + rest;
        assert(members_text(f) + rest =~= member_text(f[0].0, f[0].1) + after);
        lemma_member_from(f[0].0, f[0].1, after);
        assert(after.drop_first() =~= members_text(tail) + rest);
        lemma_members_from(tail, rest);
        assert(keys_of(f).drop_first() =~= keys_of(tail));
        assert(values_of(f) =~= seq![f[0].1] + values_of(tail));
    }
}

pub proof fn lemma_object_from(f: Seq<(Seq<char>, WireValue)>, rest: Seq<u8>)
    ensures
        object_from(object_text(f) + rest, keys_of(f)) == Some((values_of(f), rest)),
{
    let t = object_text(f) + rest;
    assert(t.drop_first() =~= members_text(f) + (seq![CLOSE_BRACE] + rest));
    lemma_members_from(f, seq![CLOSE_BRACE] + rest);
    assert((seq![CLOSE_BRACE] + rest).drop_first() =~= rest);
}

/// The field values of an order, with text fields as characters.
pub struct OrderView {
    pub symbol: Seq<char>,
    pub trade_mode: TradeMode,
    pub currency: Option<Seq<char>>,
    pub client_order_id: Option<Seq<char>>,
    pub tag: Option<Seq<char>>,
    pub side: OrderSide,
    pub position_side: Option<Seq<char>>,
    pub order_type: OrderType,
    pub qty: Seq<char>,
    pub price: Option<Seq<char>>,
    pub reduce_only: Option<bool>,
    pub target_currency: Option<Seq<char>>,
}

pub open spec fn opt_view(o: Option<String>) -> Option<Seq<char>> {
    match o {
        Some(s) => Some(s@),
        None => None,
    }
}

pub open spec fn order_view(o: WSOrder) -> OrderView {
    OrderView {
        symbol: o.symbol@,
        trade_mode: o.trade_mode,
        currency: opt_view(o.currency),
        client_order_id: opt_view(o.client_order_id),
        tag: opt_view(o.tag),
        side: o.side,
        position_side: opt_view(o.position_side),
        order_type: o.order_type,
        qty: o.qty@,
        price: opt_view(o.price),
        reduce_only: o.reduce_only,
        target_currency: opt_view(o.target_currency),
    }
}

/// The venue's field names of an order, in the order they are written.
pub open spec fn order_keys() -> Seq<Seq<char>> {
    seq![
        "instId"@, "tdMode"@, "ccy"@, "clOrdId"@, "tag"@, "side"@, "posSide"@, "ordType"@, "sz"@, "px"@,
        "reduceOnly"@, "tgtCcy"@,
    ]
}

pub open spec fn text_of(v: WireValue) -> Option<Seq<char>> {
    match v {
        WireValue::Str(b) => Some(decode_utf8(b)),
        _ => None,
    }
}

pub open spec fn opt_text_of(v: WireValue) -> Option<Option<Seq<char>>> {
    match v {
        WireValue::Str(b) => Some(Some(decode_utf8(b))),
        WireValue::Null => Some(None),
        _ => None,
    }
}

pub open spec fn opt_bool_of(v: WireValue) -> Option<Option<bool>> {
    match v {
        WireValue::Bool(b) => Some(Some(b)),
        WireValue::Null => Some(None),
        _ => None,
    }
}

pub open spec fn trade_mode_of(v: WireValue) -> Option<TradeMode> {
    if text_of(v) == Some("isolated"@) {
        Some(TradeMode::Isolated)
    } else if text_of(v) == Some("cross"@) {
        Some(TradeMode::Cross)
    } else if text_of(v) == Some("cash"@) {
        Some(TradeMode::Cash)
    } else {
        None
    }
}

pub open spec fn side_of(v: WireValue) -> Option<OrderSide> {
    if text_of(v) == Some("buy"@) {
        Some(OrderSide::Buy)
    } else if text_of(v) == Some("sell"@) {
        Some(OrderSide::Sell)
    } else {
        None
    }
}

pub open spec fn order_type_of(v: WireValue) -> Option<OrderType> {
    if text_of(v) == Some("market"@) {
        Some(OrderType::Market)
    } else if text_of(v) == Some("limit"@) {
        Some(OrderType::Limit)
    } else if text_of(v) == Some("post_only"@) {
        Some(OrderType::PostOnly)
    } else if text_of(v) == Some("fok"@) {
        Some(OrderType::Fok)
    } else if text_of(v) == Some("ioc"@) {
        Some(OrderType::Ioc)
    } else if text_of(v) == Some("optimal_limit_ioc"@) {
        Some(OrderType::OptimalLimitIoc)
    } else {
        None
    }
}

/// The order whose field values are `vs`, read against the order schema.
pub open spec fn order_from_values(vs: Seq<WireValue>) -> Option<OrderView> {
    if vs.len() == 12 && text_of(vs[0]) is Some && trade_mode_of(vs[1]) is Some && opt_text_of(vs[2]) is Some
        && opt_text_of(vs[3]) is Some && opt_text_of(vs[4]) is Some && side_of(vs[5]) is Some
        && opt_text_of(vs[6]) is Some && order_type_of(vs[7]) is Some && text_of(vs[8]) is Some
        && opt_text_of(vs[9]) is Some && opt_bool_of(vs[10]) is Some && opt_text_of(vs[11]) is Some {
        Some(OrderView {
            symbol: text_of(vs[0])->0,
            trade_mode: trade_mode_of(vs[1])->0,
            currency: opt_text_of(vs[2])->0,
            client_order_id: opt_text_of(vs[3])->0,
            tag: opt_text_of(vs[4])->0,
            side: side_of(vs[5])->0,
            position_side: opt_text_of(vs[6])->0,
            order_type: order_type_of(vs[7])->0,
            qty: text_of(vs[8])->0,
            price: opt_text_of(vs[9])->0,
            reduce_only: opt_bool_of(vs[10])->0,
            target_currency: opt_text_of(vs[11])->0,
        })
    } else {
        None
    }
}

/// Reads a whole text as one order object.
pub open spec fn decode_order(t: Seq<u8>) -> Option<OrderView> {
    match object_from(t, order_keys()) {
        Some((vs, r)) => if r.len() == 0 {
            order_from_values(vs)
        } else {
            None
        },
        None => None,
    }
}

proof fn lemma_opt_text(o: Option<String>)
    ensures
        opt_text_of(crate::wire::opt_str_value(o)) == Some(opt_view(o)),
{
    broadcast use encode_utf8_decode_utf8;
}

/// An order's text, read against the order schema, gives the order's field
/// values and leaves what follows it.
pub proof fn lemma_order_from(o: WSOrder, rest: Seq<u8>)
    ensures
        object_from(order_text(o) + rest, order_keys()) == Some((values_of(order_fields(o)), rest)),
        order_from_values(values_of(order_fields(o))) == Some(order_view(o)),
{
    broadcast use encode_utf8_decode_utf8;
    reveal(order_text);
    let f = order_fields(o);
    lemma_object_from(f, rest);
    assert(keys_of(f) =~= order_keys());
    let vs = values_of(f);
    reveal_strlit("isolated");
    reveal_strlit("cross");
    reveal_strlit("cash");
    reveal_strlit("buy");
    reveal_strlit("sell");
    reveal_strlit("market");
    reveal_strlit("limit");
    reveal_strlit("post_only");
    reveal_strlit("fok");
    reveal_strlit("ioc");
    reveal_strlit("optimal_limit_ioc");
    assert(text_of(vs[1]) == Some(trade_mode_name(o.trade_mode)));
    assert(text_of(vs[5]) == Some(side_name(o.side)));
    assert(text_of(vs[7]) == Some(order_type_name(o.order_type)));
    lemma_opt_text(o.currency);
    lemma_opt_text(o.client_order_id);
    lemma_opt_text(o.tag);
    lemma_opt_text(o.position_side);
    lemma_opt_text(o.price);
    lemma_opt_text(o.target_currency);
    assert(order_from_values(vs) == Some(order_view(o)));
}

/// Writing an order and reading the text back against the order schema
/// gives every field value of the order exactly.
pub proof fn lemma_order_round_trip(o: WSOrder)
    ensures
        decode_order(order_text(o)) == Some(order_view(o)),
{
    lemma_order_from(o, seq![]);
    assert(order_text(o) + seq![] =~= order_text(o));
}

/// Reads the orders of an array, after its opening bracket or a comma,
/// through its closing bracket.
pub open spec fn array_items(t: Seq<u8>) -> Option<(Seq<OrderView>, Seq<u8>)>
    decreases t.len(),
{
    match object_from(t, order_keys()) {
        Some((vs, r)) => match order_from_values(vs) {
            Some(ov) => if r.len() > 0 && r[0] == COMMA && r.len() < t.len() {
                match array_items(r.drop_first()) {
                    Some((os, r2)) => Some((seq![ov] + os, r2)),
                    None => None,
                }
            } else if r.len() > 0 && r[0] == CLOSE_BRACKET {
                Some((seq![ov], r.drop_first()))
            } else {
                None
            },
            None => None,
        },
        None => None,
    }
}

/// Reads an array of orders.
pub open spec fn array_from(t: Seq<u8>) -> Option<(Seq<OrderView>, Seq<u8>)> {
    if t.len() >= 2 && t[0] == OPEN_BRACKET && t[1] == CLOSE_BRACKET {
        Some((seq![], t.skip(2)))
    } else if t.len() > 0 && t[0] == OPEN_BRACKET {
        array_items(t.drop_first())
    } else {
        None
    }
}

/// An envelope: its request id, its operation and its orders.
pub open spec fn decode_request(t: Seq<u8>) -> Option<(Seq<char>, Seq<char>, Seq<OrderView>)> {
    if t.len() > 0 && t[0] == OPEN_BRACE {
        match members_from(t.drop_first(), seq!["id"@, "op"@]) {
            Some((vs, r)) => {
                let k = key_text("args"@);
                if text_of(vs[0]) is Some && text_of(vs[1]) is Some && r.len() > k.len() && r[0] == COMMA
                    && r.subrange(1, k.len() as int + 1) == k {
                    match array_from(r.skip(k.len() as int + 1)) {
                        Some((os, r2)) => if r2 == seq![CLOSE_BRACE] {
                            Some((text_of(vs[0])->0, text_of(vs[1])->0, os))
                        } else {
                            None
                        },
                        None => None,
                    }
                } else {
                    None
                }
            },
            None => None,
        }
    } else {
        None
    }
}

pub proof fn lemma_orders_front(os: Seq<WSOrder>)
    requires
        os.len() >= 2,
    ensures
        orders_text(os) == order_text(os[0]) + seq![COMMA] + orders_text(os.drop_first()),
    decreases os.len(),
{
    if os.len() == 2 {
        assert(os.drop_last() =~= seq![os[0]]);
        assert(os.drop_first() =~= seq![os[1]]);
        assert(orders_text(os.drop_last()) == order_text(os[0]));
        assert(orders_text(os.drop_first()) == order_text(os[1]));
        assert(os.last() == os[1]);
    } else {
        let init = os.drop_last();
        let tail = os.drop_first();
        lemma_orders_front(init);
        assert(init.drop_first() =~= tail.drop_last());
        assert(tail.last() == os.last());
        assert(init[0] == os[0]);
        let a = order_text(os[0]);
        let b = orders_text(tail.drop_last());
        let l = order_text(os.last());
        assert(orders_text(os) == (a + seq![COMMA] + b) + seq![COMMA] + l);
        assert(orders_text(tail) == b + seq![COMMA] + l);
        assert((a + seq![COMMA] + b) + seq![COMMA] + l =~= a + seq![COMMA] + (b + seq![COMMA] + l));
    }
}

pub open spec fn views_of(os: Seq<WSOrder>) -> Seq<OrderView> {
    os.map_values(|o: WSOrder| order_view(o))
}

pub proof fn lemma_array_items(os: Seq<WSOrder>, rest: Seq<u8>)
    requires
        os.len() >= 1,
    ensures
        array_items(orders_text(os) + seq![CLOSE_BRACKET] + rest) == Some((views_of(os), rest)),
    decreases os.len(),
{
    let t = orders_text(os) + seq![CLOSE_BRACKET] + rest;
    if os.len() == 1 {
        let after = seq![CLOSE_BRACKET] + rest;
        assert(t =~= order_text(os[0]) + after);
        lemma_order_from(os[0], after);
        assert(after.drop_first() =~= rest);
        assert(views_of(os) =~= seq![order_view(os[0])]);
    } else {
        let tail = os.drop_first();
        lemma_orders_front(os);
        let after = seq![COMMA] + (orders_text(tail) + seq![CLOSE_BRACKET] + rest);
        assert(t =~= order_text(os[0]) + after);
        lemma_order_from(os[0], after);
        assert(after.drop_first() =~= orders_text(tail) + seq![CLOSE_BRACKET] + rest);
        lemma_array_items(tail, rest);
        assert(views_of(os) =~= seq![order_view(os[0])] + views_of(tail));
    }
}

proof fn lemma_request_parts(id: Seq<char>, op: Seq<char>, os: Seq<WSOrder>)
    ensures
        request_text(id, op, os) == seq![OPEN_BRACE] + (members_text(
            seq![("id"@, str_value(id)), ("op"@, str_value(op))],
        ) + (seq![COMMA] + key_text("args"@) + (seq![OPEN_BRACKET] + orders_text(os) + seq![CLOSE_BRACKET])
            + seq![CLOSE_BRACE])),
{
    let f = seq![("id"@, str_value(id)), ("op"@, str_value(op))];
    reveal_with_fuel(members_text, 2);
    assert(f.drop_last() =~= seq![f[0]]);
    assert(members_text(f) == member_text("id"@, str_value(id)) + seq![COMMA] + member_text("op"@, str_value(op)));
    assert(request_text(id, op, os) =~= seq![OPEN_BRACE] + (members_text(f) + (seq![COMMA] + key_text("args"@) + (
    seq![OPEN_BRACKET] + orders_text(os) + seq![CLOSE_BRACKET]) + seq![CLOSE_BRACE])));
}

proof fn lemma_array_from(os: Seq<WSOrder>)
    ensures
        array_from(seq![OPEN_BRACKET] + orders_text(os) + seq![CLOSE_BRACKET] + seq![CLOSE_BRACE])
            == Some((views_of(os), seq![CLOSE_BRACE])),
{
    let arr = seq![OPEN_BRACKET] + orders_text(os) + seq![CLOSE_BRACKET] + seq![CLOSE_BRACE];
    if os.len() == 0 {
        assert(views_of(os) =~= seq![]);
        assert(arr.skip(2) =~= seq![CLOSE_BRACE]);
    } else {
        assert(arr.drop_first() =~= orders_text(os) + seq![CLOSE_BRACKET] + seq![CLOSE_BRACE]);
        lemma_array_items(os, seq![CLOSE_BRACE]);
    }
}

/// Writing an envelope and reading the text back against the envelope
/// schema gives its request id, its operation and every field value of
/// every order, in order.
#[verifier::rlimit(60)]
pub proof fn lemma_request_round_trip(id: Seq<char>, op: Seq<char>, os: Seq<WSOrder>)
    ensures
        decode_request(request_text(id, op, os)) == Some((id, op, views_of(os))),
{
    encode_utf8_decode_utf8(id);
    encode_utf8_decode_utf8(op);
    let t = request_text(id, op, os);
    let k = key_text("args"@);
    let arr = seq![OPEN_BRACKET] + orders_text(os) + seq![CLOSE_BRACKET];
    let tail = seq![COMMA] + k + arr + seq![CLOSE_BRACE];
    let f = seq![("id"@, str_value(id)), ("op"@, str_value(op))];
    lemma_request_parts(id, op, os);
    assert(t.drop_first() =~= members_text(f) + tail);
    lemma_members_from(f, tail);
    assert(keys_of(f) =~= seq!["id"@, "op"@]);
    assert(values_of(f) =~= seq![str_value(id), str_value(op)]);
    assert(tail.subrange(1, k.len() as int + 1) =~= k);
    assert(tail.skip(k.len() as int + 1) =~= arr + seq![CLOSE_BRACE]);
    lemma_array_from(os);
    let r = tail;
    assert(members_from(t.drop_first(), seq!["id"@, "op"@]) == Some((seq![str_value(id), str_value(op)], r)));
    assert(array_from(r.skip(k.len() as int + 1)) == Some((views_of(os), seq![CLOSE_BRACE])));
}

} // verus!
