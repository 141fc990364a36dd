use vstd::prelude::*;
use vstd::utf8::encode_utf8;
use crate::error::Error;
use crate::order::{limit_order_spec, OrderSide, OrderType, WSOrder, WSOrderRequest};
use crate::wire::{encode_request, push_bytes, request_text};

verus! {

/// Where the session connects: the base URL that endpoints are joined to.
#[derive(Debug, Clone)]
pub struct Config {
    pub ws_endpoint: String,
}

impl Default for Config {
    fn default() -> (r: Self)
        ensures
            r.ws_endpoint@ == "wss://ws.okx.com:8443/ws/v5"@,
    {
        Config { ws_endpoint: String::from_str("wss://ws.okx.com:8443/ws/v5") }
    }
}

/// Relies on `uuid::Uuid::new_v4` for a fresh random id, written by its
/// `Display` impl in the hyphenated form of 36 characters.
#[verifier::external_body]
fn new_request_id() -> (r: String)
    ensures
        r@.len() == 36,
{
    uuid::Uuid::new_v4().to_string()
}

/// One logical connection to the venue's streaming channel. `socket` holds
/// the live connection handle of type `H`, or nothing while disconnected;
/// every operation that needs the connection fails with
/// `Error::NotConnected` when it is absent.
pub struct WebSockets<H> {
    pub socket: Option<H>,
    pub conf: Config,
}

/// The text sent for a request while connected, or the reason it was not.
pub open spec fn send_outcome(connected: bool, r: Result<Vec<u8>, Error>, text: Seq<u8>) -> bool {
    if connected {
        r matches Ok(t) && t@ == text
    } else {
        r matches Err(e) && e is NotConnected
    }
}

impl<H> WebSockets<H> {
    /// A disconnected session with the default configuration.
    pub fn new() -> (r: Self)
        ensures
            r.socket is None,
            r.conf.ws_endpoint@ == "wss://ws.okx.com:8443/ws/v5"@,
    {
        Self::new_with_options(Config::default())
    }

    /// A disconnected session with the given configuration.
    pub fn new_with_options(conf: Config) -> (r: Self)
        ensures
            r.socket is None,
            r.conf == conf,
    {
        WebSockets { socket: None, conf }
    }

    pub open spec fn spec_is_connected(&self) -> bool {
        self.socket is Some
    }

    /// Whether a live connection handle is held.
    #[verifier::when_used_as_spec(spec_is_connected)]
    pub fn is_connected(&self) -> (r: bool)
        ensures
            r == self.spec_is_connected(),
    {
        self.socket.is_some()
    }

    /// The live connection handle, if any.
    pub fn socket(&self) -> (r: &Option<H>)
        ensures
            *r == self.socket,
    {
        &self.socket
    }

    /// The URL to connect to for `endpoint`: the configured base, a slash,
    /// then the endpoint.
    pub fn endpoint_url(&self, endpoint: &str) -> (r: String)
        ensures
            r@ == self.conf.ws_endpoint@ + "/"@ + endpoint@,
    {
        let mut url = self.conf.ws_endpoint.clone();
        url.append("/");
        url.append(endpoint);
        url
    }

    /// Takes the outcome of a handshake: a new connection replaces any
    /// earlier one; a failure leaves the session as it was and reports the
    /// cause.
    pub fn connected(&mut self, handshake: Result<H, String>) -> (r: Result<(), Error>)
        ensures
            match handshake {
                Ok(h) => r is Ok && final(self).socket == Some(h),
                Err(cause) => r matches Err(Error::Handshake(c)) && c == cause
                    && final(self).socket == old(self).socket,
            },
            final(self).conf == old(self).conf,
    {
        match handshake {
            Ok(h) => {
                self.socket = Some(h);
                Ok(())
            },
            Err(cause) => Err(Error::Handshake(cause)),
        }
    }

    /// Gives up the connection handle, for the caller to close it. Fails
    /// when there is none, so a second call in a row fails.
    pub fn disconnect(&mut self) -> (r: Result<H, Error>)
        ensures
            final(self).socket is None,
            final(self).conf == old(self).conf,
            match old(self).socket {
                Some(h) => r == Ok::<H, Error>(h),
                None => r matches Err(e) && e is NotConnected,
            },
    {
        match self.socket.take() {
            Some(h) => Ok(h),
            None => Err(Error::NotConnected),
        }
    }

    /// The frame text of a subscription request, when connected.
    pub fn subscribe_request(&self, request: &str) -> (r: Result<Vec<u8>, Error>)
        ensures
            send_outcome(self.spec_is_connected(), r, encode_utf8(request@)),
    {
        if self.socket.is_none() {
            return Err(Error::NotConnected);
        }
        let mut text: Vec<u8> = Vec::new();
        push_bytes(&mut text, request.as_bytes());
        assert(text@ =~= encode_utf8(request@));
        Ok(text)
    }

    /// Frame text of the envelope with request id `id`, operation `op` and
    /// the given orders, when connected.
    pub fn order_envelope(&self, id: String, op: String, orders: Vec<WSOrder>) -> (r: Result<Vec<u8>, Error>)
        ensures
            send_outcome(self.spec_is_connected(), r, request_text(id@, op@, orders@)),
    {
        if self.socket.is_none() {
            return Err(Error::NotConnected);
        }
        let req = WSOrderRequest { id, op, args: orders };
        Ok(encode_request(&req))
    }

    /// Frame text that places one order under a fresh request id, when
    /// connected.
    pub fn place_order(&self, order: WSOrder) -> (r: Result<Vec<u8>, Error>)
        ensures
            r is Ok <==> self.spec_is_connected(),
            r matches Err(e) ==> e is NotConnected,
            r matches Ok(t) ==> exists|id: Seq<char>|
                id.len() == 36 && t@ == #[trigger] request_text(id, "order"@, seq![order]),
    {
        if self.socket.is_none() {
            return Err(Error::NotConnected);
        }
        let id = new_request_id();
        let ghost id_view = id@;
        let orders: Vec<WSOrder> = vec![order];
        assert(orders@ =~= seq![order]);
        let r = self.order_envelope(id, String::from_str("order"), orders);
        assert(r matches Ok(t) && t@ == request_text(id_view, "order"@, seq![order]));
        r
    }

    /// Frame text that places several orders at once under a fresh request
    /// id, when connected.
    pub fn place_multiple_orders(&self, orders: Vec<WSOrder>) -> (r: Result<Vec<u8>, Error>)
        ensures
            r is Ok <==> self.spec_is_connected(),
            r matches Err(e) ==> e is NotConnected,
            r matches Ok(t) ==> exists|id: Seq<char>|
                id.len() == 36 && t@ == #[trigger] request_text(id, "batch-orders"@, orders@),
    {
        if self.socket.is_none() {
            return Err(Error::NotConnected);
        }
        let id = new_request_id();
        let ghost id_view = id@;
        let ghost orders_view = orders@;
        let r = self.order_envelope(id, String::from_str("batch-orders"), orders);
        assert(r matches Ok(t) && t@ == request_text(id_view, "batch-orders"@, orders_view));
        r
    }

    /// Frame text that places a limit buy order in cross margin, net
    /// position mode, when connected.
    pub fn limit_buy(&self, symbol: String, qty: String, price: String, order_type: OrderType) -> (r: Result<Vec<u8>, Error>)
        ensures
            r is Ok <==> self.spec_is_connected(),
            r matches Err(e) ==> e is NotConnected,
            r matches Ok(t) ==> exists|id: Seq<char>, o: WSOrder|
                id.len() == 36 && limit_order_spec(OrderSide::Buy, symbol@, qty@, price@, order_type, o)
                && t@ == #[trigger] request_text(id, "order"@, seq![o]),
    {
        let order = WSOrder::limit(OrderSide::Buy, symbol, qty, price, order_type);
        self.place_order(order)
    }

    /// Frame text that places a limit sell order in cross margin, net
    /// position mode, when connected.
    pub fn limit_sell(&self, symbol: String, qty: String, price: String, order_type: OrderType) -> (r: Result<Vec<u8>, Error>)
        ensures
            r is Ok <==> self.spec_is_connected(),
            r matches Err(e) ==> e is NotConnected,
            r matches Ok(t) ==> exists|id: Seq<char>, o: WSOrder|
                id.len() == 36 && limit_order_spec(OrderSide::Sell, symbol@, qty@, price@, order_type, o)
                && t@ == #[trigger] request_text(id, "order"@, seq![o]),
    {
        let order = WSOrder::limit(OrderSide::Sell, symbol, qty, price, order_type);
        self.place_order(order)
    }
}

} // verus!
