//! Encoding values into wire elements and decoding them back.
use vstd::prelude::*;
use crate::item::{
    type_code, Item, DICT_ENTRY_BEGIN, DICT_ENTRY_END, TYPE_ARRAY, TYPE_BOOLEAN, TYPE_BYTE,
    TYPE_DICT_ENTRY, TYPE_INT16, TYPE_INT32, TYPE_INT64, TYPE_INVALID, TYPE_STRING, TYPE_UINT16,
    TYPE_UINT32, TYPE_UINT64, TYPE_VARIANT,
};
use crate::wire::{lemma_children_view, basic_view, container_view, elements_view, Element, WireView};
use crate::item::{item_view, items_view, lemma_array_view, MessageItem};

verus! {

/// Why a value could not be encoded.
#[derive(Debug, PartialEq, Eq, Structural, Clone, Copy)]
pub enum EncodeError {
    /// An array with no elements and no declared element type.
    EmptyArray,
    /// An array element whose type differs from the array's element type.
    ElementTypeMismatch,
}

/// Why a body could not be decoded.
#[derive(Debug, PartialEq, Eq, Structural, Clone, Copy)]
pub enum DecodeError {
    /// A dictionary entry that does not hold exactly a key and a value.
    MalformedDictEntry,
    /// A variant that does not hold exactly one value.
    MalformedVariant,
    /// An element whose type code the codec does not know.
    UnsupportedType(u8),
}

/// The element type an array is encoded with: the declared one, or else the
/// first element's.
pub open spec fn effective_code(a: Seq<Item>, t: i32) -> i32 {
    if t > 0 { t } else { type_code(a[0]) }
}

/// The signature an array container is opened with.
pub open spec fn array_signature(a: Seq<Item>, t: i32) -> Seq<u8> {
    if t > 0 {
        seq![t as u8]
    } else {
        match a[0] {
            Item::DictEntry(k, v) => seq![
                DICT_ENTRY_BEGIN,
                type_code(*k) as u8,
                type_code(*v) as u8,
                DICT_ENTRY_END,
            ],
            _ => seq![type_code(a[0]) as u8],
        }
    }
}

/// The fixed-width representation of a scalar.
pub open spec fn scalar_bits(v: Item) -> i64 {
    match v {
        Item::Bool(b) => if b { 1 } else { 0 },
        Item::Byte(b) => b as i64,
        Item::Int16(b) => b as i64,
        Item::Int32(b) => b as i64,
        Item::Int64(b) => b,
        Item::UInt16(b) => b as i64,
        Item::UInt32(b) => b as i64,
        Item::UInt64(b) => b as i64,
        _ => 0,
    }
}

/// The element a value encodes to, or the first fault met in a depth-first,
/// left-to-right walk of it.
pub open spec fn encode(v: Item) -> Result<WireView, EncodeError>
    decreases v,
{
    match v {
        Item::Array(a, t) => {
            if t <= 0 && a.len() == 0 {
                Err(EncodeError::EmptyArray)
            } else {
                match encode_elements(a, effective_code(a, t)) {
                    Ok(ws) => Ok(container_view(TYPE_ARRAY as u8, array_signature(a, t), ws)),
                    Err(e) => Err(e),
                }
            }
        },
        Item::Variant(x) => match encode(*x) {
            Ok(w) => Ok(container_view(TYPE_VARIANT as u8, seq![type_code(*x) as u8], seq![w])),
            Err(e) => Err(e),
        },
        Item::DictEntry(k, x) => match encode(*k) {
            Ok(wk) => match encode(*x) {
                Ok(wx) => Ok(container_view(TYPE_DICT_ENTRY as u8, Seq::empty(), seq![wk, wx])),
                Err(e) => Err(e),
            },
            Err(e) => Err(e),
        },
        Item::Str(s) => Ok(
            WireView {
                tag: TYPE_STRING as u8,
                signature: Seq::empty(),
                basic: 0,
                text: s,
                children: Seq::empty(),
            },
        ),
        _ => Ok(basic_view(type_code(v) as u8, scalar_bits(v))),
    }
}

/// The elements of an array, each checked against the element type `code`.
pub open spec fn encode_elements(a: Seq<Item>, code: i32) -> Result<Seq<WireView>, EncodeError>
    decreases a,
{
    if a.len() == 0 {
        Ok(Seq::empty())
    } else if type_code(a[0]) != code {
        Err(EncodeError::ElementTypeMismatch)
    } else {
        match encode(a[0]) {
            Ok(w) => match encode_elements(a.subrange(1, a.len() as int), code) {
                Ok(ws) => Ok(seq![w] + ws),
                Err(e) => Err(e),
            },
            Err(e) => Err(e),
        }
    }
}

/// A sequence of values encoded one after another.
pub open spec fn encode_all(a: Seq<Item>) -> Result<Seq<WireView>, EncodeError>
    decreases a.len(),
{
    if a.len() == 0 {
        Ok(Seq::empty())
    } else {
        match encode(a[0]) {
            Ok(w) => match encode_all(a.subrange(1, a.len() as int)) {
                Ok(ws) => Ok(seq![w] + ws),
                Err(e) => Err(e),
            },
            Err(e) => Err(e),
        }
    }
}

/// The value one element decodes to.
pub open spec fn decode_one(w: WireView) -> Result<Item, DecodeError>
    decreases w,
{
    let t = w.tag as i32;
    if t == TYPE_DICT_ENTRY {
        match decode_seq(w.children) {
            Ok(s) => if s.len() == 2 {
                Ok(Item::DictEntry(Box::new(s[0]), Box::new(s[1])))
            } else {
                Err(DecodeError::MalformedDictEntry)
            },
            Err(e) => Err(e),
        }
    } else if t == TYPE_VARIANT {
        match decode_seq(w.children) {
            Ok(s) => if s.len() == 1 {
                Ok(Item::Variant(Box::new(s[0])))
            } else {
                Err(DecodeError::MalformedVariant)
            },
            Err(e) => Err(e),
        }
    } else if t == TYPE_ARRAY {
        match decode_seq(w.children) {
            Ok(s) => Ok(Item::Array(s, if s.len() > 0 { type_code(s[0]) } else { 0 })),
            Err(e) => Err(e),
        }
    } else if t == TYPE_STRING {
        Ok(Item::Str(w.text))
    } else if t == TYPE_BOOLEAN {
        Ok(Item::Bool(w.basic as u32 != 0))
    } else if t == TYPE_BYTE {
        Ok(Item::Byte(w.basic as u8))
    } else if t == TYPE_INT16 {
        Ok(Item::Int16(w.basic as i16))
    } else if t == TYPE_INT32 {
        Ok(Item::Int32(w.basic as i32))
    } else if t == TYPE_INT64 {
        Ok(Item::Int64(w.basic))
    } else if t == TYPE_UINT16 {
        Ok(Item::UInt16(w.basic as u16))
    } else if t == TYPE_UINT32 {
        Ok(Item::UInt32(w.basic as u32))
    } else if t == TYPE_UINT64 {
        Ok(Item::UInt64(w.basic as u64))
    } else {
        Err(DecodeError::UnsupportedType(w.tag))
    }
}

/// The values a sequence of elements decodes to, up to its end or to the
/// first element that carries the end code; or the first fault met.
pub open spec fn decode_seq(ws: Seq<WireView>) -> Result<Seq<Item>, DecodeError>
    decreases ws,
{
    if ws.len() == 0 || ws[0].tag as i32 == TYPE_INVALID {
        Ok(Seq::empty())
    } else {
        match decode_one(ws[0]) {
            Ok(x) => match decode_seq(ws.subrange(1, ws.len() as int)) {
                Ok(rest) => Ok(seq![x] + rest),
                Err(e) => Err(e),
            },
            Err(e) => Err(e),
        }
    }
}

/// A result of encoding or decoding a sequence, with `p` placed before what it holds.
pub open spec fn prepend<T, E>(p: Seq<T>, r: Result<Seq<T>, E>) -> Result<Seq<T>, E> {
    match r {
        Ok(s) => Ok(p + s),
        Err(e) => Err(e),
    }
}

/// What appending one encoded value does to a cursor: on success the element
/// `w` is added at its end; on a fault nothing changes and the fault is returned.
pub open spec fn append_outcome(
    before: Seq<Element>,
    after: Seq<Element>,
    enc: Result<WireView, EncodeError>,
    r: Result<(), EncodeError>,
) -> bool {
    match enc {
        Ok(w) => r is Ok && elements_view(after) == elements_view(before).push(w),
        Err(e) => r == Err::<(), EncodeError>(e) && after == before,
    }
}

/// A fresh cursor for appending the contents of a container.
fn new_dbus_message_iter() -> (r: Vec<Element>)
    ensures
        r@.len() == 0,
{
    Vec::new()
}

/// Closes a container: appends to `i` an element with the given code and
/// signature whose contents are `children`.
fn close_container(i: &mut Vec<Element>, tag: u8, signature: Vec<u8>, children: Vec<Element>)
    ensures
        elements_view(final(i)@) == elements_view(old(i)@).push(
            container_view(tag, signature@, elements_view(children@)),
        ),
{
    let ghost before = i@;
    let ghost sig = signature@;
    let ghost cv = elements_view(children@);
    i.push(Element { tag, signature, basic: 0, text: String::new(), children });
    proof {
        lemma_children_view(i@[before.len() as int]);
    }
    assert(i@[before.len() as int]@ =~= container_view(tag, sig, cv));
    assert(elements_view(i@) =~= elements_view(before).push(i@[before.len() as int]@));
}

fn iter_append_array(i: &mut Vec<Element>, a: &Vec<MessageItem>, t: i32) -> (r: Result<
    (),
    EncodeError,
>)
    ensures
        append_outcome(old(i)@, final(i)@, encode(Item::Array(items_view(a@), t)), r),
    decreases a, 0int,
{
    let ghost av = items_view(a@);
    if t <= 0 && a.len() == 0 {
        return Err(EncodeError::EmptyArray);
    }
    let code: i32 = if t > 0 {
        t
    } else {
        a[0].array_type()
    };
    let mut sig: Vec<u8> = Vec::new();
    if t > 0 {
        sig.push(#[verifier::truncate] (t as u8));
    } else {
        match &a[0] {
            MessageItem::DictEntry(k, v) => {
                sig.push(DICT_ENTRY_BEGIN);
                sig.push(k.array_type() as u8);
                sig.push(v.array_type() as u8);
                sig.push(DICT_ENTRY_END);
            },
            _ => {
                sig.push(a[0].array_type() as u8);
            },
        }
    }
    assert(sig@ =~= array_signature(av, t));
    let mut subiter = new_dbus_message_iter();
    let mut k: usize = 0;
    assert(av.subrange(0, av.len() as int) =~= av);
    assert(elements_view(subiter@) =~= Seq::<WireView>::empty());
    while k < a.len()
        invariant
            0 <= k <= a.len(),
            av == items_view(a@),
            code == effective_code(av, t),
            encode_elements(av, code) == prepend(
                elements_view(subiter@),
                encode_elements(av.subrange(k as int, av.len() as int), code),
            ),
        decreases a.len() - k,
    {
        let ghost rest = av.subrange(k as int, av.len() as int);
        assert(rest.subrange(1, rest.len() as int) =~= av.subrange(k + 1, av.len() as int));
        if a[k].array_type() != code {
            return Err(EncodeError::ElementTypeMismatch);
        }
        let ghost before = subiter@;
        match a[k].iter_append(&mut subiter) {
            Err(e) => {
                return Err(e);
            },
            Ok(()) => {},
        }
        proof {
            let w = encode(rest[0])->Ok_0;
            assert(elements_view(before).push(w) + seq![] =~= elements_view(before).push(w));
            match encode_elements(av.subrange(k + 1, av.len() as int), code) {
                Ok(ws) => {
                    assert(elements_view(before) + (seq![w] + ws) =~= elements_view(subiter@) + ws);
                },
                Err(_) => {},
            }
        }
        k = k + 1;
    }
    assert(av.subrange(k as int, av.len() as int) =~= Seq::<Item>::empty());
    assert(elements_view(subiter@) + Seq::<WireView>::empty() =~= elements_view(subiter@));
    close_container(i, TYPE_ARRAY as u8, sig, subiter);
    Ok(())
}

fn iter_append_variant(i: &mut Vec<Element>, a: &MessageItem, Ghost(parent): Ghost<MessageItem>) -> (r: Result<(), EncodeError>)
    requires
        parent matches MessageItem::Variant(x) && *x == *a,
    ensures
        append_outcome(old(i)@, final(i)@, encode(Item::Variant(Box::new(a@))), r),
    decreases parent, 0int,
{
    let mut sig: Vec<u8> = Vec::new();
    sig.push(a.array_type() as u8);
    let mut subiter = new_dbus_message_iter();
    assert(elements_view(subiter@) =~= Seq::<WireView>::empty());
    match a.iter_append(&mut subiter) {
        Err(e) => {
            return Err(e);
        },
        Ok(()) => {},
    }
    assert(sig@ =~= seq![type_code(a@) as u8]);
    assert(elements_view(subiter@) =~= seq![encode(a@)->Ok_0]);
    close_container(i, TYPE_VARIANT as u8, sig, subiter);
    Ok(())
}

fn iter_append_dict(i: &mut Vec<Element>, k: &MessageItem, v: &MessageItem, Ghost(entry): Ghost<
    MessageItem,
>) -> (r: Result<(), EncodeError>)
    requires
        entry matches MessageItem::DictEntry(ek, ev) && *ek == *k && *ev == *v,
    ensures
        append_outcome(old(i)@, final(i)@, encode(Item::DictEntry(Box::new(k@), Box::new(v@))), r),
    decreases entry, 0int,
{
    let mut subiter = new_dbus_message_iter();
    assert(elements_view(subiter@) =~= Seq::<WireView>::empty());
    match k.iter_append(&mut subiter) {
        Err(e) => {
            return Err(e);
        },
        Ok(()) => {},
    }
    match v.iter_append(&mut subiter) {
        Err(e) => {
            return Err(e);
        },
        Ok(()) => {},
    }
    assert(elements_view(subiter@) =~= seq![encode(k@)->Ok_0, encode(v@)->Ok_0]);
    let sig: Vec<u8> = Vec::new();
    assert(sig@ =~= Seq::<u8>::empty());
    close_container(i, TYPE_DICT_ENTRY as u8, sig, subiter);
    Ok(())
}

/// A decoding result over values, seen through their views.
pub open spec fn decoded_view(r: Result<Vec<MessageItem>, DecodeError>) -> Result<Seq<Item>, DecodeError> {
    match r {
        Ok(v) => Ok(items_view(v@)),
        Err(e) => Err(e),
    }
}

impl MessageItem {
    /// Decodes the elements of `i`, from its start up to its end (or to an
    /// element that carries the end code).
    pub fn from_iter(i: &Vec<Element>) -> (r: Result<Vec<MessageItem>, DecodeError>)
        ensures
            decoded_view(r) == decode_seq(elements_view(i@)),
        decreases i,
    {
        let ghost ws = elements_view(i@);
        let mut v: Vec<MessageItem> = Vec::new();
        let mut k: usize = 0;
        assert(ws.subrange(0, ws.len() as int) =~= ws);
        assert(items_view(v@) =~= Seq::<Item>::empty());
        loop
            invariant
                0 <= k <= i.len(),
                ws == elements_view(i@),
                decode_seq(ws) == prepend(items_view(v@), decode_seq(ws.subrange(k as int, ws.len() as int))),
            decreases i.len() - k,
        {
            let ghost rest = ws.subrange(k as int, ws.len() as int);
            let t: i32 = if k < i.len() {
                i[k].tag as i32
            } else {
                TYPE_INVALID
            };
            if t == TYPE_INVALID {
                assert(decode_seq(rest) == Ok::<Seq<Item>, DecodeError>(Seq::empty()));
                assert(items_view(v@) + Seq::<Item>::empty() =~= items_view(v@));
                return Ok(v);
            }
            let e = &i[k];
            proof {
                lemma_children_view(*e);
                assert(rest[0] == e@);
                assert(rest.subrange(1, rest.len() as int) =~= ws.subrange(k + 1, ws.len() as int));
            }
            let item = if t == TYPE_DICT_ENTRY {
                let mut a = match MessageItem::from_iter(&e.children) {
                    Ok(a) => a,
                    Err(err) => {
                        return Err(err);
                    },
                };
                if a.len() != 2 {
                    return Err(DecodeError::MalformedDictEntry);
                }
                let ghost s = items_view(a@);
                let value = a.pop().unwrap();
                let key = a.pop().unwrap();
                assert(key@ == s[0] && value@ == s[1]);
                MessageItem::DictEntry(Box::new(key), Box::new(value))
            } else if t == TYPE_VARIANT {
                let mut a = match MessageItem::from_iter(&e.children) {
                    Ok(a) => a,
                    Err(err) => {
                        return Err(err);
                    },
                };
                if a.len() != 1 {
                    return Err(DecodeError::MalformedVariant);
                }
                let ghost s = items_view(a@);
                let inner = a.pop().unwrap();
                assert(inner@ == s[0]);
                MessageItem::Variant(Box::new(inner))
            } else if t == TYPE_ARRAY {
                let a = match MessageItem::from_iter(&e.children) {
                    Ok(a) => a,
                    Err(err) => {
                        return Err(err);
                    },
                };
                let code: i32 = if a.len() > 0 {
                    a[0].array_type()
                } else {
                    0
                };
                proof {
                    lemma_array_view(a, code);
                }
                MessageItem::Array(a, code)
            } else if t == TYPE_STRING {
                MessageItem::Str(e.text.clone())
            } else if t == TYPE_BOOLEAN {
                MessageItem::Bool(#[verifier::truncate] (e.basic as u32) != 0)
            } else if t == TYPE_BYTE {
                MessageItem::Byte(#[verifier::truncate] (e.basic as u8))
            } else if t == TYPE_INT16 {
                MessageItem::Int16(#[verifier::truncate] (e.basic as i16))
            } else if t == TYPE_INT32 {
                MessageItem::Int32(#[verifier::truncate] (e.basic as i32))
            } else if t == TYPE_INT64 {
                MessageItem::Int64(e.basic)
            } else if t == TYPE_UINT16 {
                MessageItem::UInt16(#[verifier::truncate] (e.basic as u16))
            } else if t == TYPE_UINT32 {
                MessageItem::UInt32(#[verifier::truncate] (e.basic as u32))
            } else if t == TYPE_UINT64 {
                MessageItem::UInt64(#[verifier::truncate] (e.basic as u64))
            } else {
                return Err(DecodeError::UnsupportedType(e.tag));
            };
            assert(decode_one(e@) == Ok::<Item, DecodeError>(item@));
            let ghost before = v@;
            v.push(item);
            proof {
                assert(items_view(v@) =~= items_view(before).push(item_view(v@[before.len() as int])));
                match decode_seq(ws.subrange(k + 1, ws.len() as int)) {
                    Ok(tail) => {
                        assert(items_view(before) + (seq![item_view(v@[before.len() as int])] + tail)
                            =~= items_view(v@) + tail);
                    },
                    Err(_) => {},
                }
            }
            k = k + 1;
        }
    }

    /// Appends the encodings of the values `v`, in order, at the end of the
    /// cursor `i`; stops at the first value that cannot be encoded.
    pub fn copy_to_iter(i: &mut Vec<Element>, v: &[MessageItem]) -> (r: Result<(), EncodeError>)
        ensures
            match encode_all(items_view(v@)) {
                Ok(ws) => r is Ok && elements_view(final(i)@) == elements_view(old(i)@) + ws,
                Err(e) => r == Err::<(), EncodeError>(e),
            },
    {
        let ghost vs = items_view(v@);
        let ghost start = elements_view(i@);
        let mut k: usize = 0;
        assert(vs.subrange(0, vs.len() as int) =~= vs);
        assert(start + Seq::<WireView>::empty() =~= start);
        while k < v.len()
            invariant
                0 <= k <= v.len(),
                vs == items_view(v@),
                start == elements_view(old(i)@),
                elements_view(i@).subrange(0, start.len() as int) == start,
                elements_view(i@).len() >= start.len(),
                encode_all(vs) == prepend(
                    elements_view(i@).subrange(start.len() as int, elements_view(i@).len() as int),
                    encode_all(vs.subrange(k as int, vs.len() as int)),
                ),
            decreases v.len() - k,
        {
            let ghost rest = vs.subrange(k as int, vs.len() as int);
            assert(rest.subrange(1, rest.len() as int) =~= vs.subrange(k + 1, vs.len() as int));
            assert(rest[0] == v@[k as int]@);
            let ghost before = elements_view(i@);
            match v[k].iter_append(i) {
                Err(e) => {
                    return Err(e);
                },
                Ok(()) => {},
            }
            proof {
                let w = encode(rest[0])->Ok_0;
                let now = elements_view(i@);
                assert(now.subrange(0, start.len() as int) =~= start);
                let grown = before.subrange(start.len() as int, before.len() as int);
                assert(now.subrange(start.len() as int, now.len() as int) =~= grown.push(w));
                match encode_all(vs.subrange(k + 1, vs.len() as int)) {
                    Ok(ws) => {
                        assert(grown + (seq![w] + ws) =~= grown.push(w) + ws);
                    },
                    Err(_) => {},
                }
            }
            k = k + 1;
        }
        assert(vs.subrange(k as int, vs.len() as int) =~= Seq::<Item>::empty());
        proof {
            let now = elements_view(i@);
            let grown = now.subrange(start.len() as int, now.len() as int);
            assert(grown + Seq::<WireView>::empty() =~= grown);
            assert(start + grown =~= now);
        }
        Ok(())
    }

    fn iter_append_basic(&self, i: &mut Vec<Element>, v: i64)
        requires
            v == scalar_bits(self@),
            !(self is Array || self is Variant || self is DictEntry || self is Str),
        ensures
            elements_view(final(i)@) == elements_view(old(i)@).push(basic_view(type_code(self@) as u8, v)),
    {
        let t = self.array_type();
        let ghost before = i@;
        i.push(Element { tag: t as u8, signature: Vec::new(), basic: v, text: String::new(), children: Vec::new() });
        proof {
            lemma_children_view(i@[before.len() as int]);
        }
        assert(i@[before.len() as int]@.children =~= Seq::<WireView>::empty());
        assert(i@[before.len() as int]@ =~= basic_view(t as u8, v));
        proof {
        lemma_children_view(i@[before.len() as int]);
    }
    assert(elements_view(i@) =~= elements_view(before).push(i@[before.len() as int]@));
    }

    /// Appends this value's encoding at the end of the cursor `i`.
    pub fn iter_append(&self, i: &mut Vec<Element>) -> (r: Result<(), EncodeError>)
        ensures
            append_outcome(old(i)@, final(i)@, encode(self@), r),
        decreases self, 1int,
    {
        match self {
            MessageItem::Str(s) => {
                let ghost before = i@;
                i.push(
                    Element {
                        tag: TYPE_STRING as u8,
                        signature: Vec::new(),
                        basic: 0,
                        text: s.clone(),
                        children: Vec::new(),
                    },
                );
                proof {
                    lemma_children_view(i@[before.len() as int]);
                }
                assert(i@[before.len() as int]@.children =~= Seq::<WireView>::empty());
                assert(i@[before.len() as int]@ =~= encode(self@)->Ok_0);
                proof {
        lemma_children_view(i@[before.len() as int]);
    }
    assert(elements_view(i@) =~= elements_view(before).push(i@[before.len() as int]@));
                Ok(())
            },
            MessageItem::Bool(b) => {
                self.iter_append_basic(i, if *b { 1 } else { 0 });
                Ok(())
            },
            MessageItem::Byte(b) => {
                self.iter_append_basic(i, *b as i64);
                Ok(())
            },
            MessageItem::Int16(b) => {
                self.iter_append_basic(i, *b as i64);
                Ok(())
            },
            MessageItem::Int32(b) => {
                self.iter_append_basic(i, *b as i64);
                Ok(())
            },
            MessageItem::Int64(b) => {
                self.iter_append_basic(i, *b);
                Ok(())
            },
            MessageItem::UInt16(b) => {
                self.iter_append_basic(i, *b as i64);
                Ok(())
            },
            MessageItem::UInt32(b) => {
                self.iter_append_basic(i, *b as i64);
                Ok(())
            },
            MessageItem::UInt64(b) => {
                self.iter_append_basic(i, #[verifier::truncate] (*b as i64));
                Ok(())
            },
            MessageItem::Array(b, t) => {
                proof {
                    lemma_array_view(*b, *t);
                }
                iter_append_array(i, b, *t)
            },
            MessageItem::Variant(b) => iter_append_variant(i, &**b, Ghost(*self)),
            MessageItem::DictEntry(k, v) => iter_append_dict(i, &**k, &**v, Ghost(*self)),
        }
    }
}

} // verus!

verus! {

/// What a value becomes after encoding and decoding: every array declares the
/// type of its first element, or zero when it is empty.
pub open spec fn normalize(v: Item) -> Item
    decreases v,
{
    match v {
        Item::Array(a, t) => Item::Array(
            Seq::new(
                a.len(),
                |i: int|
                    if 0 <= i < a.len() {
                        normalize(a[i])
                    } else {
                        Item::Bool(false)
                    },
            ),
            if a.len() > 0 { type_code(a[0]) } else { 0 },
        ),
        Item::Variant(x) => Item::Variant(Box::new(normalize(*x))),
        Item::DictEntry(k, x) => Item::DictEntry(Box::new(normalize(*k)), Box::new(normalize(*x))),
        _ => v,
    }
}

/// Every value of `a`, normalized.
pub open spec fn normalize_all(a: Seq<Item>) -> Seq<Item> {
    Seq::new(a.len(), |i: int| normalize(a[i]))
}

/// A value that decoding gives back unchanged: each array is non-empty and
/// declares the type that all of its elements have.
pub open spec fn canonical(v: Item) -> bool
    decreases v,
{
    match v {
        Item::Array(a, t) => a.len() > 0 && t == type_code(a[0]) && forall|i: int|
            0 <= i < a.len() ==> type_code(#[trigger] a[i]) == t && canonical(a[i]),
        Item::Variant(x) => canonical(*x),
        Item::DictEntry(k, x) => canonical(*k) && canonical(*x),
        _ => true,
    }
}

proof fn lemma_codes_are_bytes()
    ensures
        TYPE_ARRAY as u8 as i32 == TYPE_ARRAY,
        TYPE_VARIANT as u8 as i32 == TYPE_VARIANT,
        TYPE_DICT_ENTRY as u8 as i32 == TYPE_DICT_ENTRY,
        TYPE_STRING as u8 as i32 == TYPE_STRING,
        TYPE_BOOLEAN as u8 as i32 == TYPE_BOOLEAN,
        TYPE_BYTE as u8 as i32 == TYPE_BYTE,
        TYPE_INT16 as u8 as i32 == TYPE_INT16,
        TYPE_INT32 as u8 as i32 == TYPE_INT32,
        TYPE_INT64 as u8 as i32 == TYPE_INT64,
        TYPE_UINT16 as u8 as i32 == TYPE_UINT16,
        TYPE_UINT32 as u8 as i32 == TYPE_UINT32,
        TYPE_UINT64 as u8 as i32 == TYPE_UINT64,
{
    assert(97i32 as u8 as i32 == 97i32) by (bit_vector);
    assert(118i32 as u8 as i32 == 118i32) by (bit_vector);
    assert(101i32 as u8 as i32 == 101i32) by (bit_vector);
    assert(115i32 as u8 as i32 == 115i32) by (bit_vector);
    assert(98i32 as u8 as i32 == 98i32) by (bit_vector);
    assert(121i32 as u8 as i32 == 121i32) by (bit_vector);
    assert(110i32 as u8 as i32 == 110i32) by (bit_vector);
    assert(105i32 as u8 as i32 == 105i32) by (bit_vector);
    assert(120i32 as u8 as i32 == 120i32) by (bit_vector);
    assert(113i32 as u8 as i32 == 113i32) by (bit_vector);
    assert(117i32 as u8 as i32 == 117i32) by (bit_vector);
    assert(116i32 as u8 as i32 == 116i32) by (bit_vector);
}

proof fn lemma_scalar_round_trip(v: Item)
    requires
        !(v is Array || v is Variant || v is DictEntry || v is Str),
    ensures
        decode_one(basic_view(type_code(v) as u8, scalar_bits(v))) == Ok::<Item, DecodeError>(v),
{
    lemma_codes_are_bytes();
    match v {
        Item::Bool(b) => {
            assert(1i64 as u32 != 0) by (bit_vector);
            assert(0i64 as u32 == 0) by (bit_vector);
        },
        Item::Byte(b) => {
            assert(b as i64 as u8 == b) by (bit_vector);
        },
        Item::Int16(b) => {
            assert(b as i64 as i16 == b) by (bit_vector);
        },
        Item::Int32(b) => {
            assert(b as i64 as i32 == b) by (bit_vector);
        },
        Item::UInt16(b) => {
            assert(b as i64 as u16 == b) by (bit_vector);
        },
        Item::UInt32(b) => {
            assert(b as i64 as u32 == b) by (bit_vector);
        },
        Item::UInt64(b) => {
            assert(b as i64 as u64 == b) by (bit_vector);
        },
        _ => {},
    }
}

/// Decoding what a value encodes to gives the value back, normalized.
pub proof fn lemma_decode_encode(v: Item)
    requires
        encode(v) is Ok,
    ensures
        decode_one(encode(v)->Ok_0) == Ok::<Item, DecodeError>(normalize(v)),
        encode(v)->Ok_0.tag as i32 == type_code(v),
    decreases v,
{
    lemma_codes_are_bytes();
    match v {
        Item::Array(a, t) => {
            lemma_decode_encode_elements(a, effective_code(a, t));
            let na = normalize_all(a);
            assert(normalize(v)->Array_0 =~= na);
        },
        Item::Variant(x) => {
            lemma_decode_encode(*x);
            let w = encode(v)->Ok_0;
            assert(w.children.subrange(1, 1) =~= Seq::<WireView>::empty());
            assert(decode_seq(w.children) == Ok::<Seq<Item>, DecodeError>(seq![normalize(*x)]));
        },
        Item::DictEntry(k, x) => {
            lemma_decode_encode(*k);
            lemma_decode_encode(*x);
            let w = encode(v)->Ok_0;
            let c = w.children;
            assert(c.subrange(1, 2) =~= seq![c[1]]);
            assert(c.subrange(1, 2).subrange(1, 1) =~= Seq::<WireView>::empty());
            assert(decode_seq(c.subrange(1, 2)) == Ok::<Seq<Item>, DecodeError>(seq![normalize(*x)]));
            assert(c.subrange(1, c.len() as int) =~= c.subrange(1, 2));
            assert(seq![normalize(*k)] + seq![normalize(*x)] =~= seq![normalize(*k), normalize(*x)]);
            assert(decode_seq(c) == Ok::<Seq<Item>, DecodeError>(seq![normalize(*k), normalize(*x)]));
        },
        Item::Str(_) => {},
        _ => {
            lemma_scalar_round_trip(v);
        },
    }
}

/// Decoding the elements of an encoded array gives its values back, normalized.
pub proof fn lemma_decode_encode_elements(a: Seq<Item>, code: i32)
    requires
        encode_elements(a, code) is Ok,
    ensures
        decode_seq(encode_elements(a, code)->Ok_0) == Ok::<Seq<Item>, DecodeError>(normalize_all(a)),
    decreases a,
{
    if a.len() == 0 {
        assert(normalize_all(a) =~= Seq::<Item>::empty());
    } else {
        let tail = a.subrange(1, a.len() as int);
        lemma_decode_encode(a[0]);
        lemma_decode_encode_elements(tail, code);
        let ws = encode_elements(a, code)->Ok_0;
        assert(ws.subrange(1, ws.len() as int) =~= encode_elements(tail, code)->Ok_0);
        assert(seq![normalize(a[0])] + normalize_all(tail) =~= normalize_all(a));
    }
}

/// Decoding a sequence of encoded values gives the values back, normalized.
pub proof fn lemma_decode_encode_all(a: Seq<Item>)
    requires
        encode_all(a) is Ok,
    ensures
        decode_seq(encode_all(a)->Ok_0) == Ok::<Seq<Item>, DecodeError>(normalize_all(a)),
    decreases a.len(),
{
    if a.len() == 0 {
        assert(normalize_all(a) =~= Seq::<Item>::empty());
    } else {
        let tail = a.subrange(1, a.len() as int);
        lemma_decode_encode(a[0]);
        lemma_decode_encode_all(tail);
        let ws = encode_all(a)->Ok_0;
        assert(ws.subrange(1, ws.len() as int) =~= encode_all(tail)->Ok_0);
        assert(seq![normalize(a[0])] + normalize_all(tail) =~= normalize_all(a));
    }
}

} // verus!

verus! {

proof fn lemma_canonical(v: Item)
    requires
        canonical(v),
    ensures
        encode(v) is Ok,
        normalize(v) == v,
    decreases v,
{
    match v {
        Item::Array(a, t) => {
            lemma_canonical_elements(a, t);
            assert(normalize(v)->Array_0 =~= normalize_all(a));
        },
        Item::Variant(x) => {
            lemma_canonical(*x);
        },
        Item::DictEntry(k, x) => {
            lemma_canonical(*k);
            lemma_canonical(*x);
        },
        _ => {},
    }
}

proof fn lemma_canonical_elements(a: Seq<Item>, code: i32)
    requires
        forall|i: int| 0 <= i < a.len() ==> type_code(#[trigger] a[i]) == code && canonical(a[i]),
    ensures
        encode_elements(a, code) is Ok,
        normalize_all(a) == a,
    decreases a,
{
    if a.len() > 0 {
        let tail = a.subrange(1, a.len() as int);
        lemma_canonical(a[0]);
        assert forall|i: int| 0 <= i < tail.len() implies type_code(#[trigger] tail[i]) == code
            && canonical(tail[i]) by {
            assert(tail[i] == a[i + 1]);
        }
        lemma_canonical_elements(tail, code);
        assert forall|i: int| 0 <= i < a.len() implies normalize(a[i]) == a[i] by {
            if i > 0 {
                assert(tail[i - 1] == a[i]);
                assert(normalize_all(tail)[i - 1] == tail[i - 1]);
            }
        }
    }
    assert(normalize_all(a) =~= a);
}

/// Round trip: a canonical value (every array non-empty and declaring the type
/// of its elements, at every depth) encodes without fault, and decoding its
/// encoding gives the same value back.
pub proof fn lemma_round_trip(v: Item)
    requires
        canonical(v),
    ensures
        encode(v) is Ok,
        decode_one(encode(v)->Ok_0) == Ok::<Item, DecodeError>(v),
{
    lemma_canonical(v);
    lemma_decode_encode(v);
}

proof fn lemma_mismatch_rejected(a: Seq<Item>, code: i32, j: int)
    requires
        0 <= j < a.len(),
        type_code(a[j]) != code,
    ensures
        encode_elements(a, code) is Err,
    decreases a,
{
    if j > 0 && type_code(a[0]) == code {
        let tail = a.subrange(1, a.len() as int);
        assert(tail[j - 1] == a[j]);
        lemma_mismatch_rejected(tail, code, j - 1);
    }
}

/// Array homogeneity: an array holding two elements of different types cannot
/// be encoded, whether it declares an element type or not.
pub proof fn lemma_mixed_array_rejected(a: Seq<Item>, t: i32, i: int, j: int)
    requires
        0 <= i < a.len(),
        0 <= j < a.len(),
        type_code(a[i]) != type_code(a[j]),
    ensures
        encode(Item::Array(a, t)) is Err,
{
    if type_code(a[i]) != effective_code(a, t) {
        lemma_mismatch_rejected(a, effective_code(a, t), i);
    } else {
        lemma_mismatch_rejected(a, effective_code(a, t), j);
    }
}

/// A dictionary entry decodes only when its contents decode to exactly two
/// values, which become its key and its value, in that order.
pub proof fn lemma_dict_entry_arity(w: WireView, s: Seq<Item>)
    requires
        w.tag as i32 == TYPE_DICT_ENTRY,
        decode_seq(w.children) == Ok::<Seq<Item>, DecodeError>(s),
    ensures
        s.len() == 2 ==> decode_one(w) == Ok::<Item, DecodeError>(
            Item::DictEntry(Box::new(s[0]), Box::new(s[1])),
        ),
        s.len() != 2 ==> decode_one(w) == Err::<Item, DecodeError>(DecodeError::MalformedDictEntry),
{
}

/// A variant decodes only when its contents decode to exactly one value.
pub proof fn lemma_variant_arity(w: WireView, s: Seq<Item>)
    requires
        w.tag as i32 == TYPE_VARIANT,
        decode_seq(w.children) == Ok::<Seq<Item>, DecodeError>(s),
    ensures
        s.len() == 1 ==> decode_one(w) == Ok::<Item, DecodeError>(Item::Variant(Box::new(s[0]))),
        s.len() != 1 ==> decode_one(w) == Err::<Item, DecodeError>(DecodeError::MalformedVariant),
{
}

/// An empty array decodes, without fault, to an empty array whose element
/// type is left unspecified (zero).
pub proof fn lemma_empty_array_decode(w: WireView)
    requires
        w.tag as i32 == TYPE_ARRAY,
        w.children.len() == 0,
    ensures
        decode_one(w) == Ok::<Item, DecodeError>(Item::Array(Seq::empty(), 0)),
{
}

} // verus!
