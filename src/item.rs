//! The value model: every value a message body can carry, and its type code.
use vstd::prelude::*;

verus! {

/// Marks the end of a cursor's contents.
pub const TYPE_INVALID: i32 = 0;
pub const TYPE_BYTE: i32 = 121;
pub const TYPE_BOOLEAN: i32 = 98;
pub const TYPE_INT16: i32 = 110;
pub const TYPE_UINT16: i32 = 113;
pub const TYPE_INT32: i32 = 105;
pub const TYPE_UINT32: i32 = 117;
pub const TYPE_INT64: i32 = 120;
pub const TYPE_UINT64: i32 = 116;
pub const TYPE_STRING: i32 = 115;
pub const TYPE_ARRAY: i32 = 97;
pub const TYPE_VARIANT: i32 = 118;
pub const TYPE_DICT_ENTRY: i32 = 101;

/// Opening and closing characters of a dictionary entry's signature.
pub const DICT_ENTRY_BEGIN: u8 = 123;
pub const DICT_ENTRY_END: u8 = 125;

/// A value of a message body. An `Array` carries its elements and the type code
/// it declares for them; a declared code of zero or less means "unspecified",
/// in which case the first element's code is used.
#[derive(Debug, PartialEq, PartialOrd)]
pub enum MessageItem {
    Array(Vec<MessageItem>, i32),
    Variant(Box<MessageItem>),
    DictEntry(Box<MessageItem>, Box<MessageItem>),
    Str(String),
    Bool(bool),
    Byte(u8),
    Int16(i16),
    Int32(i32),
    Int64(i64),
    UInt16(u16),
    UInt32(u32),
    UInt64(u64),
}

/// The mathematical value of a `MessageItem`.
#[verifier::ext_equal]
pub enum Item {
    Array(Seq<Item>, i32),
    Variant(Box<Item>),
    DictEntry(Box<Item>, Box<Item>),
    Str(Seq<char>),
    Bool(bool),
    Byte(u8),
    Int16(i16),
    Int32(i32),
    Int64(i64),
    UInt16(u16),
    UInt32(u32),
    UInt64(u64),
}

/// The type code of a value.
pub open spec fn type_code(v: Item) -> i32 {
    match v {
        Item::Array(..) => TYPE_ARRAY,
        Item::Variant(..) => TYPE_VARIANT,
        Item::DictEntry(..) => TYPE_DICT_ENTRY,
        Item::Str(..) => TYPE_STRING,
        Item::Bool(..) => TYPE_BOOLEAN,
        Item::Byte(..) => TYPE_BYTE,
        Item::Int16(..) => TYPE_INT16,
        Item::Int32(..) => TYPE_INT32,
        Item::Int64(..) => TYPE_INT64,
        Item::UInt16(..) => TYPE_UINT16,
        Item::UInt32(..) => TYPE_UINT32,
        Item::UInt64(..) => TYPE_UINT64,
    }
}

/// The views of a sequence of values.
pub open spec fn items_view(s: Seq<MessageItem>) -> Seq<Item> {
    Seq::new(s.len(), |i: int| s[i]@)
}

impl View for MessageItem {
    type V = Item;

    open spec fn view(&self) -> Item {
        item_view(*self)
    }
}

/// The view of one value, its elements included.
pub open spec fn item_view(m: MessageItem) -> Item
    decreases m,
{
    match m {
        MessageItem::Array(a, t) => Item::Array(
            Seq::new(
                a@.len(),
                |i: int|
                    if 0 <= i < a@.len() {
                        item_view(a@[i])
                    } else {
                        Item::Bool(false)
                    },
            ),
            t,
        ),
        MessageItem::Variant(b) => Item::Variant(Box::new(item_view(*b))),
        MessageItem::DictEntry(k, v) => Item::DictEntry(Box::new(item_view(*k)), Box::new(item_view(*v))),
        MessageItem::Str(s) => Item::Str(s@),
        MessageItem::Bool(b) => Item::Bool(b),
        MessageItem::Byte(b) => Item::Byte(b),
        MessageItem::Int16(b) => Item::Int16(b),
        MessageItem::Int32(b) => Item::Int32(b),
        MessageItem::Int64(b) => Item::Int64(b),
        MessageItem::UInt16(b) => Item::UInt16(b),
        MessageItem::UInt32(b) => Item::UInt32(b),
        MessageItem::UInt64(b) => Item::UInt64(b),
    }
}

impl MessageItem {
    /// The type code of this value (its code as an element of an array).
    pub fn array_type(&self) -> (r: i32)
        ensures
            r == type_code(self@),
    {
        match self {
            MessageItem::Str(_) => TYPE_STRING,
            MessageItem::Bool(_) => TYPE_BOOLEAN,
            MessageItem::Byte(_) => TYPE_BYTE,
            MessageItem::Int16(_) => TYPE_INT16,
            MessageItem::Int32(_) => TYPE_INT32,
            MessageItem::Int64(_) => TYPE_INT64,
            MessageItem::UInt16(_) => TYPE_UINT16,
            MessageItem::UInt32(_) => TYPE_UINT32,
            MessageItem::UInt64(_) => TYPE_UINT64,
            MessageItem::Array(_, _) => TYPE_ARRAY,
            MessageItem::Variant(_) => TYPE_VARIANT,
            MessageItem::DictEntry(_, _) => TYPE_DICT_ENTRY,
        }
    }
}

/// The view of an array's elements is the views of its elements.
pub proof fn lemma_array_view(a: Vec<MessageItem>, t: i32)
    ensures
        MessageItem::Array(a, t)@ == Item::Array(items_view(a@), t),
{
    assert(MessageItem::Array(a, t)@->Array_0 =~= items_view(a@));
}

} // verus!
