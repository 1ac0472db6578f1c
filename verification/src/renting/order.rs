//! A half-order: one party's statement of the terms of a rental.

use vstd::prelude::*;
use parity_scale_codec::Encode;
use crate::bytes::{copy_bytes, zero_account};

verus! {

/// One party's terms for the rental of one token.
#[derive(Clone, Debug, PartialEq)]
pub struct Order {
    /// The account that lends the token.
    pub lender: [u8; 32],
    /// The account that borrows it; all zero while nobody has accepted.
    pub borrower: [u8; 32],
    /// The fee: per day, per period or per week, as `paid_type` says.
    pub fee: u64,
    /// The token's id.
    pub token: Vec<u8>,
    /// When the rental ends, in seconds.
    pub due_date: u64,
    /// How the fee is paid: 0 at once, 1 per day, 2 per week.
    pub paid_type: u8,
}

/// An order's terms as plain values.
pub struct OrderView {
    pub lender: Seq<u8>,
    pub borrower: Seq<u8>,
    pub fee: u64,
    pub token: Seq<u8>,
    pub due_date: u64,
    pub paid_type: u8,
}

impl OrderView {
    /// The order that states nothing: no parties, no token, no fee.
    pub open spec fn blank() -> OrderView {
        OrderView {
            lender: zero_account(),
            borrower: zero_account(),
            fee: 0,
            token: Seq::empty(),
            due_date: 0,
            paid_type: 0,
        }
    }
}

impl View for Order {
    type V = OrderView;

    open spec fn view(&self) -> OrderView {
        OrderView {
            lender: self.lender@,
            borrower: self.borrower@,
            fee: self.fee,
            token: self.token@,
            due_date: self.due_date,
            paid_type: self.paid_type,
        }
    }
}

impl DeepView for Order {
    type V = OrderView;

    open spec fn deep_view(&self) -> OrderView {
        self@
    }
}

/// The terms that a list of orders holds.
pub open spec fn order_views(orders: Seq<Order>) -> Seq<OrderView> {
    Seq::new(orders.len(), |i: int| orders[i]@)
}

/// The deep view of a list of orders is the list of their terms.
pub proof fn lemma_order_views(orders: &Vec<Order>)
    ensures
        orders.deep_view() == order_views(orders@),
{
}

/// The `width` lowest bytes of a number, lowest first.
pub open spec fn le_bytes(value: nat, width: nat) -> Seq<u8>
    decreases width,
{
    if width == 0 {
        Seq::empty()
    } else {
        seq![(value % 256) as u8] + le_bytes(value / 256, (width - 1) as nat)
    }
}

/// A length in the codec's compact form: one, two or four bytes that hold
/// the length times four plus a mark for their number, or, from two to the
/// thirtieth on, the byte 3 and the length in four bytes.
pub open spec fn compact_length(length: nat) -> Seq<u8> {
    if length < 64 {
        seq![(length * 4) as u8]
    } else if length < 16384 {
        le_bytes(length * 4 + 1, 2)
    } else if length < 1073741824 {
        le_bytes(length * 4 + 2, 4)
    } else {
        seq![3u8] + le_bytes(length, 4)
    }
}

/// The canonical encoding of an order: its fields one after the other, the
/// parties as they are, the numbers in eight bytes, lowest first, the token
/// behind its length.
pub open spec fn canonical_encoding(order: OrderView) -> Seq<u8> {
    order.lender + order.borrower + le_bytes(order.fee as nat, 8) + compact_length(order.token.len())
        + order.token + le_bytes(order.due_date as nat, 8) + seq![order.paid_type]
}

/// `parity_scale_codec::Encode::encode` on the tuple of an order's fields:
/// the codec writes a tuple's members in their order, an array of bytes as
/// it is, a `u64` in eight bytes, lowest first, a vector of bytes behind its
/// compact length, and a `u8` as one byte. The codec cannot write a vector
/// of more than `u32::MAX` items.
#[verifier::external_body]
fn scale_encode(order: &Order) -> (bytes: Vec<u8>)
    requires
        order.token@.len() <= u32::MAX,
    ensures
        bytes@ == canonical_encoding(order@),
{
    (&order.lender, &order.borrower, order.fee, &order.token, order.due_date, order.paid_type).encode()
}

impl Order {
    /// The order that states nothing.
    pub fn new() -> (order: Self)
        ensures
            order@ == OrderView::blank(),
    {
        let order = Order {
            lender: [0u8; 32],
            borrower: [0u8; 32],
            fee: 0,
            token: Vec::new(),
            due_date: 0,
            paid_type: 0,
        };
        assert(order.lender@ =~= zero_account());
        order
    }

    /// A second order with the same terms.
    pub fn duplicate(&self) -> (copy: Self)
        ensures
            copy@ == self@,
    {
        Order {
            lender: self.lender,
            borrower: self.borrower,
            fee: self.fee,
            token: copy_bytes(self.token.as_slice()),
            due_date: self.due_date,
            paid_type: self.paid_type,
        }
    }

    /// The order's canonical encoding, by which a withdrawn order is known again.
    pub fn encode(&self) -> (bytes: Vec<u8>)
        requires
            self.token@.len() <= u32::MAX,
        ensures
            bytes@ == canonical_encoding(self@),
    {
        scale_encode(self)
    }
}

impl Default for Order {
    fn default() -> (order: Self)
        ensures
            order@ == OrderView::blank(),
    {
        Order::new()
    }
}

/// A fresh list with orders of the same terms.
pub fn copy_orders(orders: &Vec<Order>) -> (copy: Vec<Order>)
    ensures
        order_views(copy@) == order_views(orders@),
{
    let mut copy: Vec<Order> = Vec::new();
    let mut i: usize = 0;
    while i < orders.len()
        invariant
            i <= orders@.len(),
            copy@.len() == i,
            forall|j: int| 0 <= j < i ==> copy@[j]@ == orders@[j]@,
        decreases orders@.len() - i,
    {
        copy.push(orders[i].duplicate());
        i += 1;
    }
    copy
}

} // verus!
