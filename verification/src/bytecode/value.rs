//! Runtime values and the message envelope.

use std::sync::Arc;

use vstd::layout::size_of;
use vstd::prelude::*;
use vstd::std_specs::convert::FromSpecImpl;
use vstd::utf8::encode_utf8;

use crate::text::{dec, dec_int, push_dec, push_dec_int};

verus! {

/// Tag of a monitor's `DOWN` notice. Not for applications.
pub const TAG_SYS_DOWN: u16 = 0xFF01;

/// Tag of a linked-exit notice. Not for applications.
pub const TAG_SYS_EXIT: u16 = 0xFF02;

/// The fixed-size envelope that mailboxes and registers carry.
///
/// `sender` and `reply_cap` are only as good as their origin: the scheduler
/// overwrites both on every hop that bytecode sends, so after delivery they
/// name the true sender and a capability to answer it.
#[derive(Clone, Copy, Debug, PartialEq, Eq, Hash, Structural)]
pub struct Message {
    /// Flow that sent the hop; `0` for the host.
    pub sender: u64,
    /// Capability to send back to [`Self::sender`]; `0` for none.
    pub reply_cap: u64,
    /// Correlation token, echoed by replies.
    pub request_id: u64,
    /// Protocol discriminator.
    pub tag: u16,
    pub payload: u64,
}

impl Message {
    /// An envelope without a reply capability.
    pub fn new(sender: u64, request_id: u64, tag: u16, payload: u64) -> (m: Message)
        ensures
            m == (Message { sender, reply_cap: 0, request_id, tag, payload }),
    {
        Message { sender, reply_cap: 0, request_id, tag, payload }
    }

    /// A hop that the host sends.
    pub fn request(request_id: u64, tag: u16, payload: u64) -> (m: Message)
        ensures
            m == (Message { sender: 0, reply_cap: 0, request_id, tag, payload }),
    {
        Message::new(0, request_id, tag, payload)
    }

    /// A reply that echoes the correlation token of `req`.
    pub fn reply_to(req: &Message, tag: u16, payload: u64) -> (m: Message)
        ensures
            m == (Message {
                sender: 0,
                reply_cap: 0,
                request_id: req.request_id,
                tag,
                payload,
            }),
    {
        Message::new(0, req.request_id, tag, payload)
    }

    /// The notice that a monitored flow is gone: the monitor reference is the
    /// correlation token, the dead flow the sender.
    pub open spec fn down_spec(monitor: u64, target_flow: u64, reason: u64) -> Message {
        Message {
            sender: target_flow,
            reply_cap: 0,
            request_id: monitor,
            tag: TAG_SYS_DOWN,
            payload: reason,
        }
    }

    pub fn down(monitor: u64, target_flow: u64, reason: u64) -> (m: Message)
        ensures
            m == Message::down_spec(monitor, target_flow, reason),
    {
        Message {
            sender: target_flow,
            reply_cap: 0,
            request_id: monitor,
            tag: TAG_SYS_DOWN,
            payload: reason,
        }
    }

    /// What an asker gets when the flow it asked is gone.
    pub open spec fn linked_exit_spec(target_flow: u64, reason: u64) -> Message {
        Message {
            sender: target_flow,
            reply_cap: 0,
            request_id: 0,
            tag: TAG_SYS_EXIT,
            payload: reason,
        }
    }

    pub fn linked_exit(target_flow: u64, reason: u64) -> (m: Message)
        ensures
            m == Message::linked_exit_spec(target_flow, reason),
    {
        Message {
            sender: target_flow,
            reply_cap: 0,
            request_id: 0,
            tag: TAG_SYS_EXIT,
            payload: reason,
        }
    }

    pub fn is_down(self) -> (r: bool)
        ensures
            r == (self.tag == TAG_SYS_DOWN),
    {
        self.tag == TAG_SYS_DOWN
    }

    pub fn is_exit(self) -> (r: bool)
        ensures
            r == (self.tag == TAG_SYS_EXIT),
    {
        self.tag == TAG_SYS_EXIT
    }

    /// The envelope after the scheduler has stamped it: the origin and the
    /// reply capability are the stamp's, whatever stood there before, and
    /// nothing else changes.
    pub open spec fn authenticated(self, sender: u64, reply_cap: u64) -> Message {
        Message { sender, reply_cap, ..self }
    }

    pub fn authenticate(self, sender: u64, reply_cap: u64) -> (m: Message)
        ensures
            m == self.authenticated(sender, reply_cap),
    {
        Message {
            sender,
            reply_cap,
            request_id: self.request_id,
            tag: self.tag,
            payload: self.payload,
        }
    }

    /// The text of an envelope.
    pub open spec fn spec_text(self) -> Seq<char> {
        "msg{from=flow#"@ + dec(self.sender as nat) + ", reply=cap#"@ + dec(self.reply_cap as nat)
            + ", id="@ + dec(self.request_id as nat) + ", tag="@ + dec(self.tag as nat)
            + ", payload="@ + dec(self.payload as nat) + "}"@
    }

    pub fn to_text(&self) -> (s: String)
        ensures
            s@ == self.spec_text(),
    {
        let mut s = String::from_str("msg{from=flow#");
        push_dec(&mut s, self.sender);
        s.append(", reply=cap#");
        push_dec(&mut s, self.reply_cap);
        s.append(", id=");
        push_dec(&mut s, self.request_id);
        s.append(", tag=");
        push_dec(&mut s, self.tag as u64);
        s.append(", payload=");
        push_dec(&mut s, self.payload);
        s.append("}");
        s
    }
}

/// Stamping twice is stamping once with the later stamp: nothing that a flow
/// puts into `sender` or `reply_cap` survives a hop.
pub proof fn authenticate_forgets_forgery(m: Message, forged: Message, sender: u64, reply_cap: u64)
    requires
        m.request_id == forged.request_id,
        m.tag == forged.tag,
        m.payload == forged.payload,
    ensures
        m.authenticated(sender, reply_cap) == forged.authenticated(sender, reply_cap),
{
}

/// A dynamically typed value.
///
/// [`Value::Cap`] is the only address of a flow. [`Value::Pid`] names a flow
/// without giving access to it. The payloads of [`Value::Str`] and
/// [`Value::Bytes`] are shared: a copy copies the handle.
#[derive(Debug)]
pub enum Value {
    Unit,
    Bool(bool),
    Int(i64),
    /// A binary64 number, by its bit pattern.
    Float(u64),
    Pid(u64),
    Message(Message),
    Cap(u64),
    Str(Arc<String>),
    Bytes(Arc<Vec<u8>>),
}

/// Whether the bit pattern is not a number: all exponent bits set and a
/// fraction that is not zero.
pub open spec fn float_is_nan(bits: u64) -> bool {
    (bits & 0x7FFF_FFFF_FFFF_FFFF) > 0x7FF0_0000_0000_0000
}

/// Whether the bit pattern is one of the two zeros.
pub open spec fn float_is_zero(bits: u64) -> bool {
    (bits & 0x7FFF_FFFF_FFFF_FFFF) == 0
}

/// Equality of numbers given by their bit patterns: what is not a number
/// equals nothing, and the two zeros are equal.
pub open spec fn float_eq(a: u64, b: u64) -> bool {
    &&& !float_is_nan(a)
    &&& !float_is_nan(b)
    &&& (a == b || (float_is_zero(a) && float_is_zero(b)))
}

/// The number with the opposite sign.
pub open spec fn float_neg(bits: u64) -> u64 {
    bits ^ 0x8000_0000_0000_0000
}

/// Equality of values: same variant, same contents.
pub open spec fn value_eq(a: Value, b: Value) -> bool {
    match (a, b) {
        (Value::Unit, Value::Unit) => true,
        (Value::Bool(x), Value::Bool(y)) => x == y,
        (Value::Int(x), Value::Int(y)) => x == y,
        (Value::Float(x), Value::Float(y)) => float_eq(x, y),
        (Value::Pid(x), Value::Pid(y)) => x == y,
        (Value::Message(x), Value::Message(y)) => x == y,
        (Value::Cap(x), Value::Cap(y)) => x == y,
        (Value::Str(x), Value::Str(y)) => x@ == y@,
        (Value::Bytes(x), Value::Bytes(y)) => x@ == y@,
        _ => false,
    }
}

fn float_eq_bits(a: u64, b: u64) -> (r: bool)
    ensures
        r == float_eq(a, b),
{
    let ma: u64 = a & 0x7FFF_FFFF_FFFF_FFFF;
    let mb: u64 = b & 0x7FFF_FFFF_FFFF_FFFF;
    ma <= 0x7FF0_0000_0000_0000 && mb <= 0x7FF0_0000_0000_0000 && (a == b || (ma == 0 && mb == 0))
}

pub fn float_neg_bits(bits: u64) -> (r: u64)
    ensures
        r == float_neg(bits),
{
    bits ^ 0x8000_0000_0000_0000
}

fn bytes_eq(a: &Vec<u8>, b: &Vec<u8>) -> (r: bool)
    ensures
        r == (a@ == b@),
{
    if a.len() != b.len() {
        return false;
    }
    let mut i: usize = 0;
    while i < a.len()
        invariant
            i <= a.len(),
            a.len() == b.len(),
            forall|j: int| 0 <= j < i ==> a@[j] == b@[j],
        decreases a.len() - i,
    {
        if a[i] != b[i] {
            return false;
        }
        i = i + 1;
    }
    assert(a@ =~= b@);
    true
}

impl Clone for Value {
    fn clone(&self) -> (r: Value)
        ensures
            r == *self,
    {
        match self {
            Value::Unit => Value::Unit,
            Value::Bool(b) => Value::Bool(*b),
            Value::Int(i) => Value::Int(*i),
            Value::Float(x) => Value::Float(*x),
            Value::Pid(p) => Value::Pid(*p),
            Value::Message(m) => Value::Message(*m),
            Value::Cap(c) => Value::Cap(*c),
            Value::Str(s) => Value::Str(s.clone()),
            Value::Bytes(b) => Value::Bytes(b.clone()),
        }
    }
}

impl PartialEq for Value {
    fn eq(&self, other: &Value) -> (r: bool) {
        match (self, other) {
            (Value::Unit, Value::Unit) => true,
            (Value::Bool(x), Value::Bool(y)) => *x == *y,
            (Value::Int(x), Value::Int(y)) => *x == *y,
            (Value::Float(x), Value::Float(y)) => float_eq_bits(*x, *y),
            (Value::Pid(x), Value::Pid(y)) => *x == *y,
            (Value::Message(x), Value::Message(y)) => *x == *y,
            (Value::Cap(x), Value::Cap(y)) => *x == *y,
            (Value::Str(x), Value::Str(y)) => **x == **y,
            (Value::Bytes(x), Value::Bytes(y)) => bytes_eq(x, y),
            _ => false,
        }
    }
}

impl vstd::std_specs::cmp::PartialEqSpecImpl for Value {
    open spec fn obeys_eq_spec() -> bool {
        true
    }

    open spec fn eq_spec(&self, other: &Value) -> bool {
        value_eq(*self, *other)
    }
}

/// Whether `v` is text with exactly these characters.
pub open spec fn is_text(v: Value, chars: Seq<char>) -> bool {
    v matches Value::Str(s) && s@ == chars
}

/// Whether `v` is a buffer with exactly these bytes.
pub open spec fn is_buffer(v: Value, bytes: Seq<u8>) -> bool {
    v matches Value::Bytes(b) && b@ == bytes
}

impl Value {
    /// A [`Value::Str`] with the characters of `s`.
    pub fn str(s: &str) -> (v: Value)
        ensures
            is_text(v, s@),
    {
        Value::Str(Arc::new(s.to_owned()))
    }

    /// A [`Value::Bytes`] with the bytes of `b`.
    pub fn bytes(b: &[u8]) -> (v: Value)
        ensures
            is_buffer(v, b@),
    {
        let mut out: Vec<u8> = Vec::new();
        let mut i: usize = 0;
        while i < b.len()
            invariant
                i <= b.len(),
                out@ == b@.take(i as int),
            decreases b.len() - i,
        {
            out.push(b[i]);
            i = i + 1;
        }
        assert(b@.take(b@.len() as int) =~= b@);
        Value::Bytes(Arc::new(out))
    }

    /// What a branch takes for true: everything but `Unit`, `false`, zero,
    /// the empty text and the empty buffer.
    pub open spec fn truthy(self) -> bool {
        match self {
            Value::Unit => false,
            Value::Bool(b) => b,
            Value::Int(i) => i != 0,
            Value::Str(s) => s@.len() != 0,
            Value::Bytes(b) => b@.len() != 0,
            _ => true,
        }
    }

    pub fn is_truthy(&self) -> (r: bool)
        ensures
            r == self.truthy(),
    {
        match self {
            Value::Unit => false,
            Value::Bool(b) => *b,
            Value::Int(i) => *i != 0,
            Value::Str(s) => !s.as_str().is_empty(),
            Value::Bytes(b) => b.len() != 0,
            _ => true,
        }
    }

    /// The integer that the value stands for: booleans count as 0 and 1.
    pub open spec fn spec_as_int(self) -> Option<i64> {
        match self {
            Value::Int(i) => Some(i),
            Value::Bool(b) => Some(if b { 1i64 } else { 0i64 }),
            _ => None,
        }
    }

    pub fn as_int(&self) -> (r: Option<i64>)
        ensures
            r == self.spec_as_int(),
    {
        match self {
            Value::Int(i) => Some(*i),
            Value::Bool(b) => Some(if *b { 1 } else { 0 }),
            _ => None,
        }
    }

    pub fn as_pid(&self) -> (r: Option<u64>)
        ensures
            r == (match *self {
                Value::Pid(p) => Some(p),
                _ => None,
            }),
    {
        match self {
            Value::Pid(p) => Some(*p),
            _ => None,
        }
    }

    pub open spec fn spec_as_cap(self) -> Option<u64> {
        match self {
            Value::Cap(c) => Some(c),
            _ => None,
        }
    }

    pub fn as_cap(&self) -> (r: Option<u64>)
        ensures
            r == self.spec_as_cap(),
    {
        match self {
            Value::Cap(c) => Some(*c),
            _ => None,
        }
    }

    pub open spec fn spec_as_message(self) -> Option<Message> {
        match self {
            Value::Message(m) => Some(m),
            _ => None,
        }
    }

    pub fn as_message(&self) -> (r: Option<Message>)
        ensures
            r == self.spec_as_message(),
    {
        match self {
            Value::Message(m) => Some(*m),
            _ => None,
        }
    }

    pub fn as_str(&self) -> (r: Option<&str>)
        ensures
            r is Some <==> self is Str,
            r matches Some(s) ==> is_text(*self, s@),
    {
        match self {
            Value::Str(s) => Some(s.as_str()),
            _ => None,
        }
    }

    /// The bytes of a buffer, or the UTF-8 encoding of a text.
    pub open spec fn spec_as_bytes(self) -> Option<Seq<u8>> {
        match self {
            Value::Bytes(b) => Some(b@),
            Value::Str(s) => Some(encode_utf8(s@)),
            _ => None,
        }
    }

    pub fn as_bytes(&self) -> (r: Option<&[u8]>)
        ensures
            r is Some <==> self.spec_as_bytes() is Some,
            r matches Some(b) ==> self.spec_as_bytes() == Some(b@),
    {
        match self {
            Value::Bytes(b) => Some(b.as_slice()),
            Value::Str(s) => Some(s.as_str().as_bytes()),
            _ => None,
        }
    }

    /// Bytes on the heap behind the value; none for a scalar.
    pub open spec fn spec_heap_size(self) -> nat {
        match self.spec_as_bytes() {
            Some(b) => b.len(),
            None => 0,
        }
    }

    pub fn heap_size(&self) -> (n: usize)
        ensures
            n == self.spec_heap_size(),
    {
        match self {
            Value::Str(s) => s.as_str().as_bytes().len(),
            Value::Bytes(b) => b.len(),
            _ => 0,
        }
    }

    /// What a mailbox charges for the value: its inline size and the whole
    /// payload, shared or not, capped at the largest `usize`.
    pub open spec fn charge(self) -> nat {
        let total = size_of::<Value>() + self.spec_heap_size();
        if total <= usize::MAX {
            total
        } else {
            usize::MAX as nat
        }
    }

    pub fn memory_size(&self) -> (n: usize)
        ensures
            n == self.charge(),
    {
        std::mem::size_of::<Value>().saturating_add(self.heap_size())
    }

    pub open spec fn spec_type_label(self) -> &'static str {
        match self {
            Value::Unit => "unit",
            Value::Bool(_) => "bool",
            Value::Int(_) => "int",
            Value::Float(_) => "float",
            Value::Pid(_) => "pid",
            Value::Message(_) => "message",
            Value::Cap(_) => "cap",
            Value::Str(_) => "str",
            Value::Bytes(_) => "bytes",
        }
    }

    pub fn type_label(&self) -> (r: &'static str)
        ensures
            r == self.spec_type_label(),
    {
        match self {
            Value::Unit => "unit",
            Value::Bool(_) => "bool",
            Value::Int(_) => "int",
            Value::Float(_) => "float",
            Value::Pid(_) => "pid",
            Value::Message(_) => "message",
            Value::Cap(_) => "cap",
            Value::Str(_) => "str",
            Value::Bytes(_) => "bytes",
        }
    }

    /// The text of every value but a floating-point number, whose digits the
    /// host computes.
    pub open spec fn spec_text(self) -> Option<Seq<char>> {
        match self {
            Value::Unit => Some("()"@),
            Value::Bool(b) => Some(if b { "true"@ } else { "false"@ }),
            Value::Int(i) => Some(dec_int(i as int)),
            Value::Float(_) => None,
            Value::Pid(p) => Some("flow#"@ + dec(p as nat)),
            Value::Message(m) => Some(m.spec_text()),
            Value::Cap(c) => Some("cap#"@ + dec(c as nat)),
            Value::Str(s) => Some(s@),
            Value::Bytes(b) => Some("bytes["@ + dec(b@.len()) + "]"@),
        }
    }

    pub fn to_text(&self) -> (r: Option<String>)
        ensures
            r is Some <==> self.spec_text() is Some,
            r matches Some(s) ==> self.spec_text() == Some(s@),
    {
        match self {
            Value::Unit => Some(String::from_str("()")),
            Value::Bool(b) => Some(String::from_str(if *b { "true" } else { "false" })),
            Value::Int(i) => {
                let mut s = String::new();
                push_dec_int(&mut s, *i);
                assert(Seq::<char>::empty() + dec_int(*i as int) =~= dec_int(*i as int));
                Some(s)
            },
            Value::Float(_) => None,
            Value::Pid(p) => {
                let mut s = String::from_str("flow#");
                push_dec(&mut s, *p);
                Some(s)
            },
            Value::Message(m) => Some(m.to_text()),
            Value::Cap(c) => {
                let mut s = String::from_str("cap#");
                push_dec(&mut s, *c);
                Some(s)
            },
            Value::Str(s) => Some(s.as_str().to_owned()),
            Value::Bytes(b) => {
                let mut s = String::from_str("bytes[");
                push_dec(&mut s, b.len() as u64);
                s.append("]");
                Some(s)
            },
        }
    }
}

impl From<i64> for Value {
    fn from(v: i64) -> (r: Value) {
        Value::Int(v)
    }
}

impl FromSpecImpl<i64> for Value {
    open spec fn obeys_from_spec() -> bool {
        true
    }

    open spec fn from_spec(v: i64) -> Value {
        Value::Int(v)
    }
}

impl From<bool> for Value {
    fn from(v: bool) -> (r: Value) {
        Value::Bool(v)
    }
}

impl FromSpecImpl<bool> for Value {
    open spec fn obeys_from_spec() -> bool {
        true
    }

    open spec fn from_spec(v: bool) -> Value {
        Value::Bool(v)
    }
}

impl From<Message> for Value {
    fn from(m: Message) -> (r: Value) {
        Value::Message(m)
    }
}

impl FromSpecImpl<Message> for Value {
    open spec fn obeys_from_spec() -> bool {
        true
    }

    open spec fn from_spec(m: Message) -> Value {
        Value::Message(m)
    }
}

impl From<String> for Value {
    fn from(s: String) -> (r: Value)
        ensures
            is_text(r, s@),
    {
        Value::Str(Arc::new(s))
    }
}

impl FromSpecImpl<String> for Value {
    open spec fn obeys_from_spec() -> bool {
        false
    }

    open spec fn from_spec(s: String) -> Value {
        Value::Unit
    }
}

impl From<Vec<u8>> for Value {
    fn from(b: Vec<u8>) -> (r: Value)
        ensures
            is_buffer(r, b@),
    {
        Value::Bytes(Arc::new(b))
    }
}

impl FromSpecImpl<Vec<u8>> for Value {
    open spec fn obeys_from_spec() -> bool {
        false
    }

    open spec fn from_spec(b: Vec<u8>) -> Value {
        Value::Unit
    }
}

impl From<&str> for Value {
    fn from(s: &str) -> (r: Value)
        ensures
            is_text(r, s@),
    {
        Value::str(s)
    }
}

impl FromSpecImpl<&str> for Value {
    open spec fn obeys_from_spec() -> bool {
        false
    }

    open spec fn from_spec(s: &str) -> Value {
        Value::Unit
    }
}

impl From<&[u8]> for Value {
    fn from(b: &[u8]) -> (r: Value)
        ensures
            is_buffer(r, b@),
    {
        Value::bytes(b)
    }
}

impl FromSpecImpl<&[u8]> for Value {
    open spec fn obeys_from_spec() -> bool {
        false
    }

    open spec fn from_spec(b: &[u8]) -> Value {
        Value::Unit
    }
}

/// A value is charged its inline size and every byte of its payload, up to the
/// largest count: a scalar has no payload, a buffer its bytes, a text those of
/// its encoding.
pub proof fn charge_counts_the_payload(v: Value)
    ensures
        ({
            let payload = if v is Bytes {
                v->Bytes_0@.len()
            } else if v is Str {
                encode_utf8(v->Str_0@).len()
            } else {
                0
            };
            let total = size_of::<Value>() + payload;
            &&& total <= usize::MAX ==> v.charge() == total
            &&& total > usize::MAX ==> v.charge() == usize::MAX
        }),
{
}

/// A value reads as what it is and as nothing else: an integer from an integer
/// or from a truth value, a capability from a capability, a message from a
/// message.
pub proof fn readings_are_by_kind(v: Value)
    ensures
        v.spec_as_int() matches Some(n) ==> (v matches Value::Int(i) && i == n) || (
        v matches Value::Bool(b) && n == (if b {
            1int
        } else {
            0int
        })),
        v is Int || v is Bool ==> v.spec_as_int() is Some,
        v.spec_as_cap() matches Some(c) ==> v == Value::Cap(c),
        v is Cap ==> v.spec_as_cap() is Some,
        v.spec_as_message() matches Some(m) ==> v == Value::Message(m),
        v is Message ==> v.spec_as_message() is Some,
        v.truthy() <==> {
            &&& !(v is Unit)
            &&& v matches Value::Bool(b) ==> b
            &&& v matches Value::Int(n) ==> n != 0
            &&& v matches Value::Str(s) ==> s@.len() > 0
            &&& v matches Value::Bytes(b) ==> b@.len() > 0
        },
{
}

/// The notices of the runtime name the flow that ended as their sender, carry
/// the reason and a tag that applications do not use, and offer no capability to
/// answer. A monitor's notice also names the monitor.
pub proof fn notices_name_the_dead(monitor: u64, flow: u64, reason: u64)
    ensures
        Message::down_spec(monitor, flow, reason).sender == flow,
        Message::down_spec(monitor, flow, reason).request_id == monitor,
        Message::down_spec(monitor, flow, reason).payload == reason,
        Message::down_spec(monitor, flow, reason).tag == 0xFF01,
        Message::down_spec(monitor, flow, reason).reply_cap == 0,
        Message::linked_exit_spec(flow, reason).sender == flow,
        Message::linked_exit_spec(flow, reason).payload == reason,
        Message::linked_exit_spec(flow, reason).tag == 0xFF02,
        Message::linked_exit_spec(flow, reason).reply_cap == 0,
{
}

/// A stamp sets the sender and the reply capability, and nothing else.
pub proof fn stamp_sets_two_fields(m: Message, sender: u64, reply_cap: u64)
    ensures
        m.authenticated(sender, reply_cap).sender == sender,
        m.authenticated(sender, reply_cap).reply_cap == reply_cap,
        m.authenticated(sender, reply_cap).request_id == m.request_id,
        m.authenticated(sender, reply_cap).tag == m.tag,
        m.authenticated(sender, reply_cap).payload == m.payload,
{
}

/// Each kind of value has its name, and its own bytes if it is text or a buffer;
/// no other kind has bytes.
pub proof fn kinds_have_names(v: Value)
    ensures
        v is Unit ==> v.spec_type_label() == "unit",
        v is Bool ==> v.spec_type_label() == "bool",
        v is Int ==> v.spec_type_label() == "int",
        v is Float ==> v.spec_type_label() == "float",
        v is Pid ==> v.spec_type_label() == "pid",
        v is Message ==> v.spec_type_label() == "message",
        v is Cap ==> v.spec_type_label() == "cap",
        v is Str ==> v.spec_type_label() == "str",
        v is Bytes ==> v.spec_type_label() == "bytes",
        v matches Value::Bytes(b) ==> v.spec_as_bytes() == Some(b@) && v.spec_heap_size() == b@.len(),
        v matches Value::Str(s) ==> v.spec_as_bytes() == Some(encode_utf8(s@)),
        !(v is Bytes) && !(v is Str) ==> v.spec_as_bytes() is None && v.spec_heap_size() == 0,
{
}

} // verus!
