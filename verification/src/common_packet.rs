//! The common packet: the ordered list of typed address and data items that
//! frames what a send carries.

use crate::error::{Error, FrameShape};
use crate::packet_items::{
    held, items_at, items_from_vec, items_into_vec, items_len, items_new, items_push, items_remove,
    PacketItems,
};
use bytes::Bytes;
use vstd::prelude::*;

verus! {

/// The type code of the null address item.
pub const TYPE_NULL_ADDRESS: u16 = 0x00;

/// The type code of the connected address item.
pub const TYPE_CONNECTED_ADDRESS: u16 = 0xA1;

/// The type code of the connected data item.
pub const TYPE_CONNECTED_DATA: u16 = 0xB1;

/// The type code of the unconnected data item.
pub const TYPE_UNCONNECTED_DATA: u16 = 0xB2;

/// The number of items in the reply to a send: an address, then the data.
pub const SEND_REPLY_ITEMS: usize = 2;

/// One addressing or data unit of a common packet.
#[derive(Debug)]
pub struct CommonPacketItem {
    pub type_code: u16,
    pub data: Bytes,
}

impl CommonPacketItem {
    pub fn new(type_code: u16, data: Bytes) -> (item: Self)
        ensures
            item.type_code == type_code,
            item.data == data,
    {
        CommonPacketItem { type_code, data }
    }

    /// Accepts the item only if it carries the type code `expected`.
    pub fn ensure_type_code(&self, expected: u16) -> (r: Result<(), Error>)
        ensures
            r == type_code_checked(self.type_code, expected),
    {
        if self.type_code != expected {
            return Err(
                Error::UnexpectedFrameShape(
                    FrameShape::TypeCode { expected, actual: self.type_code },
                ),
            );
        }
        Ok(())
    }
}

/// The outcome of holding a type code against the one that is due.
pub open spec fn type_code_checked(actual: u16, expected: u16) -> Result<(), Error> {
    if actual == expected {
        Ok(())
    } else {
        Err(Error::UnexpectedFrameShape(FrameShape::TypeCode { expected, actual }))
    }
}

/// An ordered list of common packet items.
#[derive(Debug)]
pub struct CommonPacket {
    items: PacketItems,
}

impl View for CommonPacket {
    type V = Seq<CommonPacketItem>;

    closed spec fn view(&self) -> Seq<CommonPacketItem> {
        held(&self.items)
    }
}

impl CommonPacket {
    /// A packet without items.
    pub fn new() -> (cpf: Self)
        ensures
            cpf@ == Seq::<CommonPacketItem>::empty(),
    {
        CommonPacket { items: items_new() }
    }

    /// A packet of the given items, in their order.
    pub fn from_items(items: Vec<CommonPacketItem>) -> (cpf: Self)
        ensures
            cpf@ == items@,
    {
        CommonPacket { items: items_from_vec(items) }
    }

    /// Appends an item.
    pub fn push(&mut self, item: CommonPacketItem)
        ensures
            final(self)@ == old(self)@.push(item),
    {
        items_push(&mut self.items, item);
    }

    /// The number of items.
    pub fn len(&self) -> (n: usize)
        ensures
            n == self@.len(),
    {
        items_len(&self.items)
    }

    /// The items, in their order.
    pub fn into_inner(self) -> (items: Vec<CommonPacketItem>)
        ensures
            items@ == self@,
    {
        items_into_vec(self.items)
    }
}

/// The bytes of the data item of a send reply: the packet must hold exactly
/// two items, the first with the type code `address_code`, the second with the
/// type code `data_code`. The item count is looked at first, then the address,
/// then the data item.
pub open spec fn send_reply_data(
    items: Seq<CommonPacketItem>,
    address_code: u16,
    data_code: u16,
) -> Result<CommonPacketItem, Error> {
    if items.len() != SEND_REPLY_ITEMS {
        Err(
            Error::UnexpectedFrameShape(
                FrameShape::ItemCount {
                    expected_items: SEND_REPLY_ITEMS,
                    actual_items: items.len() as usize,
                },
            ),
        )
    } else if items[0].type_code != address_code {
        Err(
            Error::UnexpectedFrameShape(
                FrameShape::TypeCode { expected: address_code, actual: items[0].type_code },
            ),
        )
    } else if items[1].type_code != data_code {
        Err(
            Error::UnexpectedFrameShape(
                FrameShape::TypeCode { expected: data_code, actual: items[1].type_code },
            ),
        )
    } else {
        Ok(items[1])
    }
}

impl CommonPacket {
    /// Checks the shape of a send reply and hands out its data item.
    pub fn into_send_reply_data(self, address_code: u16, data_code: u16) -> (r: Result<
        CommonPacketItem,
        Error,
    >)
        ensures
            r == send_reply_data(self@, address_code, data_code),
    {
        let mut items = self.items;
        let count = items_len(&items);
        if count != SEND_REPLY_ITEMS {
            return Err(
                Error::UnexpectedFrameShape(
                    FrameShape::ItemCount {
                        expected_items: SEND_REPLY_ITEMS,
                        actual_items: count,
                    },
                ),
            );
        }
        match items_at(&items, 0).ensure_type_code(address_code) {
            Err(e) => {
                return Err(e);
            },
            Ok(()) => {},
        }
        let data_item = items_remove(&mut items, 1);
        match data_item.ensure_type_code(data_code) {
            Err(e) => {
                return Err(e);
            },
            Ok(()) => {},
        }
        Ok(data_item)
    }
}

} // verus!
