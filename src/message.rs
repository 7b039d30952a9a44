//! Messages: a header (kind, addressing fields) and a body of wire elements.
use vstd::prelude::*;
use crate::codec::{
    decode_seq, decoded_view, encode_all, lemma_decode_encode_all, normalize_all, DecodeError,
    EncodeError,
};
use crate::item::{items_view, Item, MessageItem, TYPE_STRING};
use crate::wire::{elements_view, Element, WireView};

verus! {

/// The kind of a message.
#[derive(Debug, PartialEq, Eq, Structural, Clone, Copy)]
pub enum MessageType {
    Invalid,
    MethodCall,
    MethodReturn,
    Error,
    Signal,
}

/// The text of an optional string.
pub open spec fn opt_view(o: Option<String>) -> Option<Seq<char>> {
    match o {
        Some(s) => Some(s@),
        None => None,
    }
}

/// The text of an optional string slice.
pub open spec fn opt_str_view(o: Option<&str>) -> Option<Seq<char>> {
    match o {
        Some(s) => Some(s@),
        None => None,
    }
}

fn clone_opt(o: &Option<String>) -> (r: Option<String>)
    ensures
        opt_view(r) == opt_view(*o),
{
    match o {
        Some(s) => Some(s.clone()),
        None => None,
    }
}

fn opt_as_str(o: &Option<String>) -> (r: Option<&str>)
    ensures
        opt_str_view(r) == opt_view(*o),
{
    match o {
        Some(s) => Some(s.as_str()),
        None => None,
    }
}

/// An error record: a dot-separated name and a human-readable text, each
/// possibly absent. An absent name means that no error was set.
#[derive(Debug)]
pub struct DBusError {
    pub name: Option<String>,
    pub message: Option<String>,
}

/// The name and the text of an error record.
pub struct ErrorView {
    pub name: Option<Seq<char>>,
    pub message: Option<Seq<char>>,
}

impl View for DBusError {
    type V = ErrorView;

    open spec fn view(&self) -> ErrorView {
        ErrorView { name: opt_view(self.name), message: opt_view(self.message) }
    }
}

/// An error reported by the bus or by a peer.
#[derive(Debug)]
pub struct Error {
    e: DBusError,
}

impl View for Error {
    type V = ErrorView;

    closed spec fn view(&self) -> ErrorView {
        self.e@
    }
}

impl Error {
    pub fn new(e: DBusError) -> (r: Error)
        ensures
            r@ == e@,
    {
        Error { e }
    }

    /// An error with the given name and text.
    pub fn new_custom(name: &str, message: &str) -> (r: Error)
        ensures
            r@ == (ErrorView { name: Some(name@), message: Some(message@) }),
    {
        let mut e = Error::empty();
        let d = e.get_mut();
        d.name = Some(name.to_owned());
        d.message = Some(message.to_owned());
        e
    }

    fn empty() -> (r: Error)
        ensures
            r@ == (ErrorView { name: None, message: None }),
    {
        Error { e: DBusError { name: None, message: None } }
    }

    pub fn get(&self) -> (r: &DBusError)
        ensures
            r@ == self@,
    {
        &self.e
    }

    pub fn name(&self) -> (r: Option<&str>)
        ensures
            opt_str_view(r) == self@.name,
    {
        opt_as_str(&self.e.name)
    }

    pub fn message(&self) -> (r: Option<&str>)
        ensures
            opt_str_view(r) == self@.message,
    {
        opt_as_str(&self.e.message)
    }

    /// The error's text, when it has one.
    pub fn detail(&self) -> (r: Option<String>)
        ensures
            opt_view(r) == self@.message,
    {
        clone_opt(&self.e.message)
    }

    fn get_mut(&mut self) -> (r: &mut DBusError)
        ensures
            *r == old(self).e,
            final(self).e == *final(r),
    {
        &mut self.e
    }
}

/// The header and the body of a message.
pub struct MessageView {
    pub msg_type: MessageType,
    pub serial: u32,
    pub reply_serial: u32,
    pub destination: Option<Seq<char>>,
    pub path: Option<Seq<char>>,
    pub interface: Option<Seq<char>>,
    pub member: Option<Seq<char>>,
    pub sender: Option<Seq<char>>,
    pub error_name: Option<Seq<char>>,
    pub body: Seq<WireView>,
}

/// A message: its kind, its header fields and its body.
#[derive(Debug)]
pub struct Message {
    msg_type: MessageType,
    serial: u32,
    reply_serial: u32,
    destination: Option<String>,
    path: Option<String>,
    interface: Option<String>,
    member: Option<String>,
    sender: Option<String>,
    error_name: Option<String>,
    body: Vec<Element>,
}

impl View for Message {
    type V = MessageView;

    closed spec fn view(&self) -> MessageView {
        MessageView {
            msg_type: self.msg_type,
            serial: self.serial,
            reply_serial: self.reply_serial,
            destination: opt_view(self.destination),
            path: opt_view(self.path),
            interface: opt_view(self.interface),
            member: opt_view(self.member),
            sender: opt_view(self.sender),
            error_name: opt_view(self.error_name),
            body: elements_view(self.body@),
        }
    }
}

/// The text an error reply carries: its first body element, when that is a string.
pub open spec fn error_text(body: Seq<WireView>) -> Option<Seq<char>> {
    if body.len() > 0 && body[0].tag as i32 == TYPE_STRING {
        Some(body[0].text)
    } else {
        None
    }
}

/// A header with no fields set and an empty body. A serial of zero is one
/// that the transport has not assigned yet.
pub open spec fn bare_view(msg_type: MessageType) -> MessageView {
    MessageView {
        msg_type,
        serial: 0,
        reply_serial: 0,
        destination: None,
        path: None,
        interface: None,
        member: None,
        sender: None,
        error_name: None,
        body: Seq::empty(),
    }
}

impl Message {
    fn bare(msg_type: MessageType) -> (r: Message)
        ensures
            r@ == bare_view(msg_type),
    {
        let r = Message {
            msg_type,
            serial: 0,
            reply_serial: 0,
            destination: None,
            path: None,
            interface: None,
            member: None,
            sender: None,
            error_name: None,
            body: Vec::new(),
        };
        assert(r@.body =~= Seq::<WireView>::empty());
        r
    }

    /// A call of `method` of interface `iface` on the object at `path` of the
    /// peer `destination`.
    pub fn new_method_call(destination: &str, path: &str, iface: &str, method: &str) -> (r: Option<Message>)
        ensures
            r matches Some(m) && m@ == (MessageView {
                destination: Some(destination@),
                path: Some(path@),
                interface: Some(iface@),
                member: Some(method@),
                ..bare_view(MessageType::MethodCall)
            }),
    {
        let mut m = Message::bare(MessageType::MethodCall);
        m.destination = Some(destination.to_owned());
        m.path = Some(path.to_owned());
        m.interface = Some(iface.to_owned());
        m.member = Some(method.to_owned());
        Some(m)
    }

    /// A signal `method` of interface `iface`, sent from the object at `path`.
    pub fn new_signal(path: &str, iface: &str, method: &str) -> (r: Option<Message>)
        ensures
            r matches Some(m) && m@ == (MessageView {
                path: Some(path@),
                interface: Some(iface@),
                member: Some(method@),
                ..bare_view(MessageType::Signal)
            }),
    {
        let mut m = Message::bare(MessageType::Signal);
        m.path = Some(path.to_owned());
        m.interface = Some(iface.to_owned());
        m.member = Some(method.to_owned());
        Some(m)
    }

    /// An empty reply to `m`, addressed to its sender.
    pub fn new_method_return(m: &Message) -> (r: Option<Message>)
        ensures
            r matches Some(x) && x@ == (MessageView {
                destination: m@.sender,
                reply_serial: m@.serial,
                ..bare_view(MessageType::MethodReturn)
            }),
    {
        let mut x = Message::bare(MessageType::MethodReturn);
        x.destination = clone_opt(&m.sender);
        x.reply_serial = m.serial;
        Some(x)
    }

    /// An error reply to `m`, addressed to its sender, whose body holds the
    /// text `error_message`.
    pub fn new_error(m: &Message, error_name: &str, error_message: &str) -> (r: Option<Message>)
        ensures
            r matches Some(x) && x@ == (MessageView {
                destination: m@.sender,
                reply_serial: m@.serial,
                error_name: Some(error_name@),
                body: seq![
                    WireView {
                        tag: TYPE_STRING as u8,
                        signature: Seq::empty(),
                        basic: 0,
                        text: error_message@,
                        children: Seq::empty(),
                    },
                ],
                ..bare_view(MessageType::Error)
            }),
    {
        let mut x = Message::bare(MessageType::Error);
        x.destination = clone_opt(&m.sender);
        x.reply_serial = m.serial;
        x.error_name = Some(error_name.to_owned());
        let text = MessageItem::Str(error_message.to_owned());
        let _ = text.iter_append(&mut x.body);
        proof {
            assert(elements_view(x.body@) =~= seq![crate::codec::encode(text@)->Ok_0]);
        }
        Some(x)
    }

    /// A message with every header field and body given, as the transport
    /// hands over an inbound one.
    pub fn from_parts(
        msg_type: MessageType,
        serial: u32,
        reply_serial: u32,
        destination: Option<String>,
        path: Option<String>,
        interface: Option<String>,
        member: Option<String>,
        sender: Option<String>,
        error_name: Option<String>,
        body: Vec<Element>,
    ) -> (r: Message)
        ensures
            r@ == (MessageView {
                msg_type,
                serial,
                reply_serial,
                destination: opt_view(destination),
                path: opt_view(path),
                interface: opt_view(interface),
                member: opt_view(member),
                sender: opt_view(sender),
                error_name: opt_view(error_name),
                body: elements_view(body@),
            }),
    {
        Message {
            msg_type,
            serial,
            reply_serial,
            destination,
            path,
            interface,
            member,
            sender,
            error_name,
            body,
        }
    }

    /// Sets the sender, as the transport does for an inbound message.
    pub fn set_sender(&mut self, sender: &str)
        ensures
            final(self)@ == (MessageView { sender: Some(sender@), ..old(self)@ }),
    {
        self.sender = Some(sender.to_owned());
    }

    /// The values of the body, in order.
    pub fn get_items(&mut self) -> (r: Result<Vec<MessageItem>, DecodeError>)
        ensures
            final(self)@ == old(self)@,
            decoded_view(r) == decode_seq(old(self)@.body),
    {
        MessageItem::from_iter(&self.body)
    }

    /// Appends the values `v`, in order, to the body. When one of them cannot
    /// be encoded the body is left as it was.
    pub fn append_items(&mut self, v: &[MessageItem]) -> (r: Result<(), EncodeError>)
        ensures
            match encode_all(items_view(v@)) {
                Ok(ws) => r is Ok && final(self)@ == (MessageView { body: old(self)@.body + ws, ..old(self)@ }),
                Err(e) => r == Err::<(), EncodeError>(e) && final(self)@ == old(self)@,
            },
    {
        let mut i: Vec<Element> = Vec::new();
        assert(elements_view(i@) =~= Seq::<WireView>::empty());
        match MessageItem::copy_to_iter(&mut i, v) {
            Err(e) => Err(e),
            Ok(()) => {
                let ghost before = self.body@;
                let ghost added = i@;
                self.body.append(&mut i);
                assert(elements_view(self.body@) =~= elements_view(before) + elements_view(added));
                Ok(())
            },
        }
    }

    pub fn msg_type(&self) -> (r: MessageType)
        ensures
            r == self@.msg_type,
    {
        self.msg_type
    }

    pub fn sender(&self) -> (r: Option<String>)
        ensures
            opt_view(r) == self@.sender,
    {
        clone_opt(&self.sender)
    }

    /// The kind, the path, the interface and the member.
    pub fn headers(&self) -> (r: (MessageType, Option<String>, Option<String>, Option<String>))
        ensures
            r.0 == self@.msg_type,
            opt_view(r.1) == self@.path,
            opt_view(r.2) == self@.interface,
            opt_view(r.3) == self@.member,
    {
        (self.msg_type, clone_opt(&self.path), clone_opt(&self.interface), clone_opt(&self.member))
    }

    pub fn serial(&self) -> (r: u32)
        ensures
            r == self@.serial,
    {
        self.serial
    }

    pub fn reply_serial(&self) -> (r: u32)
        ensures
            r == self@.reply_serial,
    {
        self.reply_serial
    }

    pub fn destination(&self) -> (r: Option<String>)
        ensures
            opt_view(r) == self@.destination,
    {
        clone_opt(&self.destination)
    }

    pub fn error_name(&self) -> (r: Option<String>)
        ensures
            opt_view(r) == self@.error_name,
    {
        clone_opt(&self.error_name)
    }

    /// The body's elements.
    pub fn elements(&self) -> (r: &Vec<Element>)
        ensures
            elements_view(r@) == self@.body,
    {
        &self.body
    }

    /// The message itself, unless it is an error reply; an error reply gives
    /// the error it carries: its name and its text.
    pub fn as_result(&mut self) -> (r: Result<&mut Message, Error>)
        ensures
            old(self)@.msg_type == MessageType::Error ==> (r matches Err(e) && e@ == (ErrorView {
                name: old(self)@.error_name,
                message: error_text(old(self)@.body),
            }) && final(self)@ == old(self)@),
            old(self)@.msg_type != MessageType::Error ==> (r matches Ok(m) && *m == *old(self)
                && *final(self) == *final(m)),
    {
        if self.msg_type == MessageType::Error {
            let mut e = Error::empty();
            let d = e.get_mut();
            d.name = clone_opt(&self.error_name);
            if self.body.len() > 0 && self.body[0].tag as i32 == TYPE_STRING {
                d.message = Some(self.body[0].text.clone());
            }
            Err(e)
        } else {
            Ok(self)
        }
    }
}

/// Appending values to a message with an empty body and reading its items
/// back gives the values again, each array declaring its first element's type.
pub proof fn lemma_append_then_get(vs: Seq<Item>)
    requires
        encode_all(vs) is Ok,
    ensures
        decode_seq(Seq::<WireView>::empty() + encode_all(vs)->Ok_0) == Ok::<Seq<Item>, DecodeError>(
            normalize_all(vs),
        ),
{
    lemma_decode_encode_all(vs);
    assert(Seq::<WireView>::empty() + encode_all(vs)->Ok_0 =~= encode_all(vs)->Ok_0);
}

} // verus!
