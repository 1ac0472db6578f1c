//! A half-order of a sale: one party's statement of its terms.

use vstd::prelude::*;
use parity_scale_codec::Encode;
use crate::bytes::{copy_bytes, zero_account};
use crate::renting::order::{compact_length, le_bytes};

verus! {

/// One party's terms for the sale of one token.
#[derive(Clone, Debug, PartialEq)]
pub struct Order {
    /// The account that sells the token.
    pub seller: [u8; 32],
    /// The account that buys it; all zero while nobody has accepted.
    pub buyer: [u8; 32],
    /// The price.
    pub price: u64,
    /// The token's id.
    pub token: Vec<u8>,
    /// The kind of sale: 0 at the asked price, 1 on the buyer's offer, 2 on the seller's.
    pub trading_type: u8,
}

/// An order's terms as plain values.
pub struct OrderView {
    pub seller: Seq<u8>,
    pub buyer: Seq<u8>,
    pub price: u64,
    pub token: Seq<u8>,
    pub trading_type: u8,
}

impl OrderView {
    /// The order that states nothing: no parties, no token, no price.
    pub open spec fn blank() -> OrderView {
        OrderView {
            seller: zero_account(),
            buyer: zero_account(),
            price: 0,
            token: Seq::empty(),
            trading_type: 0,
        }
    }
}

impl View for Order {
    type V = OrderView;

    open spec fn view(&self) -> OrderView {
        OrderView {
            seller: self.seller@,
            buyer: self.buyer@,
            price: self.price,
            token: self.token@,
            trading_type: self.trading_type,
        }
    }
}

impl DeepView for Order {
    type V = OrderView;

    open spec fn deep_view(&self) -> OrderView {
        self@
    }
}

/// The canonical encoding of an order: its fields one after the other, the
/// parties as they are, the price in eight bytes, lowest first, the token
/// behind its length.
pub open spec fn canonical_encoding(order: OrderView) -> Seq<u8> {
    order.seller + order.buyer + le_bytes(order.price as nat, 8) + compact_length(order.token.len())
        + order.token + seq![order.trading_type]
}

/// `parity_scale_codec::Encode::encode` on the tuple of an order's fields:
/// the codec writes a tuple's members in their order, an array of bytes as
/// it is, a `u64` in eight bytes, lowest first, a vector of bytes behind its
/// compact length, and a `u8` as one byte. The codec cannot write a vector
/// of more than `u32::MAX` items.
#[verifier::external_body]
fn scale_encode(order: &Order) -> (bytes: Vec<u8>)
    requires
        order.token@.len() <= u32::MAX,
    ensures
        bytes@ == canonical_encoding(order@),
{
    (&order.seller, &order.buyer, order.price, &order.token, order.trading_type).encode()
}

impl Order {
    /// The order that states nothing.
    pub fn new() -> (order: Self)
        ensures
            order@ == OrderView::blank(),
    {
        let order = Order { seller: [0u8; 32], buyer: [0u8; 32], price: 0, token: Vec::new(), trading_type: 0 };
        assert(order.seller@ =~= zero_account());
        order
    }

    /// A second order with the same terms.
    pub fn duplicate(&self) -> (copy: Self)
        ensures
            copy@ == self@,
    {
        Order {
            seller: self.seller,
            buyer: self.buyer,
            price: self.price,
            token: copy_bytes(self.token.as_slice()),
            trading_type: self.trading_type,
        }
    }

    /// The order's canonical encoding, by which a withdrawn order is known again.
    pub fn encode(&self) -> (bytes: Vec<u8>)
        requires
            self.token@.len() <= u32::MAX,
        ensures
            bytes@ == canonical_encoding(self@),
    {
        scale_encode(self)
    }
}

impl Default for Order {
    fn default() -> (order: Self)
        ensures
            order@ == OrderView::blank(),
    {
        Order::new()
    }
}

} // verus!
