use vstd::prelude::*;

verus! {

/// Side of a position in long/short mode.
#[derive(Debug, Clone, Copy, PartialEq, Eq, Structural)]
pub enum PositionSide {
    Net,
    Long,
    Short,
}

/// Direction of an order.
#[derive(Debug, Clone, Copy, PartialEq, Eq, Structural)]
pub enum OrderSide {
    Buy,
    Sell,
}

/// By default, buy.
impl Default for OrderSide {
    fn default() -> (r: Self)
        ensures
            r == OrderSide::Buy,
    {
        OrderSide::Buy
    }
}

/// Margin mode under which an order trades.
#[derive(Debug, Clone, Copy, PartialEq, Eq, Structural)]
pub enum TradeMode {
    Isolated,
    Cross,
    Cash,
}

/// By default, cross.
impl Default for TradeMode {
    fn default() -> (r: Self)
        ensures
            r == TradeMode::Cross,
    {
        TradeMode::Cross
    }
}

/// Execution type of an order.
#[derive(Debug, Clone, Copy, PartialEq, Eq, Structural)]
pub enum OrderType {
    Market,
    Limit,
    PostOnly,
    Fok,
    Ioc,
    OptimalLimitIoc,
}

/// One order as the venue's streaming channel takes it. Quantity and price
/// are decimal numbers written as text; absent optional fields are sent as
/// `null`.
#[derive(Debug, Clone)]
pub struct WSOrder {
    pub symbol: String,
    pub trade_mode: TradeMode,
    pub currency: Option<String>,
    pub client_order_id: Option<String>,
    pub tag: Option<String>,
    pub side: OrderSide,
    pub position_side: Option<String>,
    pub order_type: OrderType,
    pub qty: String,
    pub price: Option<String>,
    pub reduce_only: Option<bool>,
    pub target_currency: Option<String>,
}

/// The envelope around one or more orders: a request id, the operation
/// (`order` or `batch-orders`) and the orders themselves.
#[derive(Debug, Clone)]
pub struct WSOrderRequest {
    pub id: String,
    pub op: String,
    pub args: Vec<WSOrder>,
}

/// A limit order in cross margin and net position mode, with no optional
/// field set but the price.
pub open spec fn limit_order_spec(
    side: OrderSide,
    symbol: Seq<char>,
    qty: Seq<char>,
    price: Seq<char>,
    order_type: OrderType,
    o: WSOrder,
) -> bool {
    &&& o.symbol@ == symbol
    &&& o.trade_mode == TradeMode::Cross
    &&& o.currency is None
    &&& o.client_order_id is None
    &&& o.tag is None
    &&& o.side == side
    &&& o.position_side is None
    &&& o.order_type == order_type
    &&& o.qty@ == qty
    &&& o.price matches Some(p) && p@ == price
    &&& o.reduce_only is None
    &&& o.target_currency is None
}

impl WSOrder {
    /// Builds a limit order on `symbol` in cross margin mode with no
    /// position side (net mode).
    pub fn limit(side: OrderSide, symbol: String, qty: String, price: String, order_type: OrderType) -> (r: WSOrder)
        ensures
            limit_order_spec(side, symbol@, qty@, price@, order_type, r),
    {
        WSOrder {
            symbol,
            trade_mode: TradeMode::Cross,
            currency: None,
            client_order_id: None,
            tag: None,
            side,
            position_side: None,
            order_type,
            qty,
            price: Some(price),
            reduce_only: None,
            target_currency: None,
        }
    }
}

} // verus!
