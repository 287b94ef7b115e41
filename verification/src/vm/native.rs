//! The table of native functions and the rules for calling one.

use std::sync::Arc;

use vstd::prelude::*;

use super::fault::{result_view, Fault, FaultView};
use crate::bytecode::cap::NativeMask;
use crate::bytecode::value::{Message, Value};
use crate::text::{dec, push_dec};

verus! {

/// What a native function returns.
pub type NativeResult = Result<Value, Fault>;

/// A native function. Those on messages are computed here; the others are the
/// host's to perform, [`NativeFn::Host`] being a function that the embedder
/// registered under a key of its own.
#[derive(Clone, Copy, Debug, PartialEq, Eq, Structural)]
pub enum NativeFn {
    Print,
    NowMs,
    MakeMsg,
    MsgSender,
    MsgRequestId,
    MsgTag,
    MsgPayload,
    MsgReplyCap,
    Host(u32),
}

/// A slot of the table: the name and the function, or nothing.
pub open spec fn slot_view(slot: Option<(String, NativeFn)>) -> Option<(Seq<char>, NativeFn)> {
    match slot {
        Some((name, f)) => Some((name@, f)),
        None => None,
    }
}

pub open spec fn slots_view(entries: Seq<Option<(String, NativeFn)>>) -> Seq<
    Option<(Seq<char>, NativeFn)>,
> {
    entries.map_values(|s: Option<(String, NativeFn)>| slot_view(s))
}

/// Whether slot `i` holds a function of this name.
pub open spec fn slot_named(
    slots: Seq<Option<(Seq<char>, NativeFn)>>,
    i: int,
    name: Seq<char>,
) -> bool {
    slots[i] matches Some((n, _)) && n == name
}

/// Whether some slot holds a function of this name.
pub open spec fn name_taken(slots: Seq<Option<(Seq<char>, NativeFn)>>, name: Seq<char>) -> bool {
    exists|i: int| 0 <= i < slots.len() && #[trigger] slot_named(slots, i, name)
}

/// Native functions by index. A slot may be empty; calling it is
/// [`Fault::BadNative`].
#[derive(Debug)]
pub struct NativeTable {
    entries: Vec<Option<(String, NativeFn)>>,
}

impl View for NativeTable {
    type V = Seq<Option<(Seq<char>, NativeFn)>>;

    closed spec fn view(&self) -> Seq<Option<(Seq<char>, NativeFn)>> {
        slots_view(self.entries@)
    }
}

/// The function at `index`, if the slot exists and is filled.
pub open spec fn native_at(slots: Seq<Option<(Seq<char>, NativeFn)>>, index: int) -> Option<
    NativeFn,
> {
    if 0 <= index < slots.len() {
        match slots[index] {
            Some((_, f)) => Some(f),
            None => None,
        }
    } else {
        None
    }
}

impl NativeTable {
    pub fn builder() -> (b: NativeTableBuilder)
        ensures
            b@.len() == 0,
    {
        NativeTableBuilder::new()
    }

    pub fn empty() -> (t: Arc<NativeTable>)
        ensures
            t@.len() == 0,
    {
        Arc::new(NativeTable { entries: Vec::new() })
    }

    pub fn get(&self, index: u32) -> (r: Option<NativeFn>)
        ensures
            r == native_at(self@, index as int),
    {
        let i: usize = index as usize;
        if i < self.entries.len() {
            match &self.entries[i] {
                Some((_, f)) => Some(*f),
                None => None,
            }
        } else {
            None
        }
    }

    /// The lowest slot that holds a function of this name.
    pub fn index_of(&self, name: &str) -> (r: Option<u32>)
        requires
            self@.len() <= u32::MAX,
        ensures
            r is None <==> !name_taken(self@, name@),
            r matches Some(i) ==> {
                &&& i < self@.len()
                &&& slot_named(self@, i as int, name@)
                &&& forall|j: int| 0 <= j < i ==> !#[trigger] slot_named(self@, j, name@)
            },
    {
        let mut i: usize = 0;
        while i < self.entries.len()
            invariant
                i <= self.entries@.len(),
                self@.len() <= u32::MAX,
                self@ == slots_view(self.entries@),
                forall|j: int| 0 <= j < i ==> !#[trigger] slot_named(self@, j, name@),
            decreases self.entries@.len() - i,
        {
            match &self.entries[i] {
                Some((n, _)) => {
                    if str_eq(n.as_str(), name) {
                        assert(slot_named(self@, i as int, name@));
                        return Some(i as u32);
                    }
                },
                None => {},
            }
            i = i + 1;
        }
        None
    }

    /// Number of slots, empty ones included.
    pub fn len(&self) -> (n: usize)
        ensures
            n == self@.len(),
    {
        self.entries.len()
    }

    pub fn is_empty(&self) -> (r: bool)
        ensures
            r == (self@.len() == 0),
    {
        self.entries.len() == 0
    }

    /// The names of the filled slots, in slot order.
    pub fn names(&self) -> (r: Vec<String>)
        ensures
            names_of(self@, self@.len() as int) == r@.map_values(|s: String| s@),
    {
        let mut out: Vec<String> = Vec::new();
        let mut i: usize = 0;
        while i < self.entries.len()
            invariant
                i <= self.entries@.len(),
                self@ == slots_view(self.entries@),
                names_of(self@, i as int) =~= out@.map_values(|s: String| s@),
            decreases self.entries@.len() - i,
        {
            match &self.entries[i] {
                Some((n, _)) => {
                    out.push(n.clone());
                },
                None => {},
            }
            i = i + 1;
        }
        out
    }
}

/// The names among the first `n` slots, in order.
pub open spec fn names_of(slots: Seq<Option<(Seq<char>, NativeFn)>>, n: int) -> Seq<Seq<char>>
    decreases n,
{
    if n <= 0 {
        Seq::empty()
    } else {
        match slots[n - 1] {
            Some((name, _)) => names_of(slots, n - 1).push(name),
            None => names_of(slots, n - 1),
        }
    }
}

/// Whether two texts are the same.
pub fn str_eq(a: &str, b: &str) -> (r: bool)
    ensures
        r == (a@ == b@),
{
    let x = a.to_owned();
    let y = b.to_owned();
    x == y
}

/// Collects native functions into a table.
#[derive(Debug)]
pub struct NativeTableBuilder {
    entries: Vec<Option<(String, NativeFn)>>,
}

impl View for NativeTableBuilder {
    type V = Seq<Option<(Seq<char>, NativeFn)>>;

    closed spec fn view(&self) -> Seq<Option<(Seq<char>, NativeFn)>> {
        slots_view(self.entries@)
    }
}

/// The slots with `f` registered as `name` at `index`, missing slots below it
/// being empty.
pub open spec fn registered(
    slots: Seq<Option<(Seq<char>, NativeFn)>>,
    index: int,
    name: Seq<char>,
    f: NativeFn,
) -> Seq<Option<(Seq<char>, NativeFn)>> {
    Seq::new(
        if index < slots.len() {
            slots.len()
        } else {
            (index + 1) as nat
        },
        |i: int|
            if i == index {
                Some((name, f))
            } else if i < slots.len() {
                slots[i]
            } else {
                None
            },
    )
}

/// Whether `name` can be registered at `index`: the name is new and the slot
/// is free.
pub open spec fn registrable(
    slots: Seq<Option<(Seq<char>, NativeFn)>>,
    index: int,
    name: Seq<char>,
) -> bool {
    &&& !name_taken(slots, name)
    &&& index < slots.len() ==> slots[index] is None
}

impl NativeTableBuilder {
    pub fn new() -> (b: NativeTableBuilder)
        ensures
            b@.len() == 0,
    {
        NativeTableBuilder { entries: Vec::new() }
    }

    /// Whether [`Self::register_at`] may be called with this slot and name.
    pub fn can_register_at(&self, index: u32, name: &str) -> (r: bool)
        ensures
            r == registrable(self@, index as int, name@),
    {
        let mut i: usize = 0;
        while i < self.entries.len()
            invariant
                i <= self.entries@.len(),
                self@ == slots_view(self.entries@),
                forall|j: int| 0 <= j < i ==> !#[trigger] slot_named(self@, j, name@),
            decreases self.entries@.len() - i,
        {
            match &self.entries[i] {
                Some((n, _)) => {
                    if str_eq(n.as_str(), name) {
                        assert(slot_named(self@, i as int, name@));
                        return false;
                    }
                },
                None => {},
            }
            i = i + 1;
        }
        let at: usize = index as usize;
        if at < self.entries.len() {
            match &self.entries[at] {
                Some(_) => false,
                None => true,
            }
        } else {
            true
        }
    }

    /// Register `f` under `name` in the next slot.
    pub fn register(self, name: &str, f: NativeFn) -> (b: NativeTableBuilder)
        requires
            self@.len() < u32::MAX,
            !name_taken(self@, name@),
        ensures
            b@ == self@.push(Some((name@, f))),
    {
        let index: u32 = self.entries.len() as u32;
        let b = self.register_at(index, name, f);
        assert(registered(self@, index as int, name@, f) =~= self@.push(Some((name@, f))));
        b
    }

    /// Register `f` under `name` at `index`, leaving lower slots that were
    /// never registered empty.
    pub fn register_at(self, index: u32, name: &str, f: NativeFn) -> (b: NativeTableBuilder)
        requires
            index < u32::MAX,
            registrable(self@, index as int, name@),
        ensures
            b@ == registered(self@, index as int, name@, f),
    {
        let mut entries = self.entries;
        let at: usize = index as usize;
        let ghost before = entries@;
        while entries.len() <= at
            invariant
                at < u32::MAX,
                entries@.len() >= before.len(),
                entries@.len() <= before.len() || entries@.len() <= at + 1,
                forall|i: int| 0 <= i < before.len() ==> entries@[i] == before[i],
                forall|i: int| before.len() <= i < entries@.len() ==> entries@[i] is None,
            decreases at + 1 - entries@.len(),
        {
            entries.push(None);
        }
        entries.set(at, Some((name.to_owned(), f)));
        let b = NativeTableBuilder { entries };
        assert(b@ =~= registered(self@, index as int, name@, f));
        b
    }

    pub fn build(self) -> (t: Arc<NativeTable>)
        ensures
            t@ == self@,
    {
        Arc::new(NativeTable { entries: self.entries })
    }
}

impl Default for NativeTableBuilder {
    fn default() -> (b: NativeTableBuilder)
        ensures
            b@.len() == 0,
    {
        NativeTableBuilder::new()
    }
}

/// Which slots of the native table a flow may call.
#[derive(Debug)]
pub struct NativeGate {
    allowed: Vec<bool>,
}

impl View for NativeGate {
    type V = Seq<bool>;

    closed spec fn view(&self) -> Seq<bool> {
        self.allowed@
    }
}

/// Whether the native gate lets `index` through.
pub open spec fn gate_allows(gate: Seq<bool>, index: int) -> bool {
    0 <= index < gate.len() && gate[index]
}

impl NativeGate {
    fn uniform(slots: usize, allow: bool) -> (g: NativeGate)
        ensures
            g@ == Seq::new(slots as nat, |i: int| allow),
    {
        let mut allowed: Vec<bool> = Vec::new();
        let mut i: usize = 0;
        while i < slots
            invariant
                i <= slots,
                allowed@ == Seq::new(i as nat, |j: int| allow),
            decreases slots - i,
        {
            allowed.push(allow);
            i = i + 1;
            assert(allowed@ =~= Seq::new(i as nat, |j: int| allow));
        }
        NativeGate { allowed }
    }

    /// No slot may be called.
    pub fn deny(slots: usize) -> (g: NativeGate)
        ensures
            g@ == Seq::new(slots as nat, |i: int| false),
    {
        NativeGate::uniform(slots, false)
    }

    /// Every slot may be called.
    pub fn allow_all(slots: usize) -> (g: NativeGate)
        ensures
            g@ == Seq::new(slots as nat, |i: int| true),
    {
        NativeGate::uniform(slots, true)
    }

    /// The slots of `mask` may be called.
    pub fn from_mask(slots: usize, mask: NativeMask) -> (g: NativeGate)
        ensures
            g@ == Seq::new(slots as nat, |i: int| i < 64 && mask.has(i as u32)),
    {
        let mut allowed: Vec<bool> = Vec::new();
        let mut i: usize = 0;
        while i < slots
            invariant
                i <= slots,
                allowed@ == Seq::new(i as nat, |j: int| j < 64 && mask.has(j as u32)),
            decreases slots - i,
        {
            allowed.push(i < 64 && mask.allows(i as u32));
            i = i + 1;
            assert(allowed@ =~= Seq::new(i as nat, |j: int| j < 64 && mask.has(j as u32)));
        }
        NativeGate { allowed }
    }

    pub fn allows(&self, index: u32) -> (r: bool)
        ensures
            r == gate_allows(self@, index as int),
    {
        let i: usize = index as usize;
        i < self.allowed.len() && self.allowed[i]
    }

    /// A gate that allows the same slots.
    pub fn duplicate(&self) -> (g: NativeGate)
        ensures
            g@ == self@,
    {
        let mut allowed: Vec<bool> = Vec::new();
        let mut i: usize = 0;
        while i < self.allowed.len()
            invariant
                i <= self.allowed@.len(),
                allowed@ == self.allowed@.take(i as int),
            decreases self.allowed@.len() - i,
        {
            allowed.push(self.allowed[i]);
            i = i + 1;
            assert(allowed@ =~= self.allowed@.take(i as int));
        }
        assert(self.allowed@.take(self.allowed@.len() as int) =~= self.allowed@);
        NativeGate { allowed }
    }
}

/// Why a native call does not happen.
#[derive(Clone, Copy, Debug, PartialEq, Eq, Structural)]
pub enum NativeCallError {
    IndexOutOfRange(u32),
    Denied(u32),
}

impl NativeCallError {
    pub open spec fn spec_text(self) -> Seq<char> {
        match self {
            NativeCallError::IndexOutOfRange(index) => "native index "@ + dec(index as nat)
                + " out of range"@,
            NativeCallError::Denied(index) => "native index "@ + dec(index as nat)
                + " not granted"@,
        }
    }

    pub fn to_text(&self) -> (s: String)
        ensures
            s@ == self.spec_text(),
    {
        match self {
            NativeCallError::IndexOutOfRange(index) => {
                let mut s = String::from_str("native index ");
                push_dec(&mut s, *index as u64);
                s.append(" out of range");
                s
            },
            NativeCallError::Denied(index) => {
                let mut s = String::from_str("native index ");
                push_dec(&mut s, *index as u64);
                s.append(" not granted");
                s
            },
        }
    }
}

/// The verdict on calling `index`: the slot must exist, and the native gate must let
/// it through.
pub open spec fn gate_verdict(gate: Seq<bool>, slots: nat, index: u32) -> Result<
    (),
    NativeCallError,
> {
    if index >= slots {
        Err(NativeCallError::IndexOutOfRange(index))
    } else if !gate_allows(gate, index as int) {
        Err(NativeCallError::Denied(index))
    } else {
        Ok(())
    }
}

pub fn check_native_gate(gate: &NativeGate, natives: &NativeTable, index: u32) -> (r: Result<
    (),
    NativeCallError,
>)
    ensures
        r == gate_verdict(gate@, natives@.len(), index),
{
    if index as usize >= natives.len() {
        return Err(NativeCallError::IndexOutOfRange(index));
    }
    if !gate.allows(index) {
        return Err(NativeCallError::Denied(index));
    }
    Ok(())
}

/// The text of a complaint about argument `index`.
pub open spec fn arg_text(fn_name: Seq<char>, before: Seq<char>, index: nat, after: Seq<char>) -> Seq<
    char,
> {
    fn_name + before + dec(index) + after
}

fn arg_message(fn_name: &str, before: &str, index: usize, after: &str) -> (s: String)
    ensures
        s@ == arg_text(fn_name@, before@, index as nat, after@),
{
    let mut s = String::from_str(fn_name);
    s.append(before);
    push_dec(&mut s, index as u64);
    s.append(after);
    s
}

/// The argument at `index`, or the complaint that it is missing.
pub open spec fn arg_at(args: Seq<Value>, index: nat, fn_name: Seq<char>) -> Result<
    Value,
    FaultView,
> {
    if index < args.len() {
        Ok(args[index as int])
    } else {
        Err(FaultView::NativeError(fn_name + ": missing argument "@ + dec(index)))
    }
}

/// Require an argument.
pub fn expect_arg<'a>(args: &'a [Value], index: usize, fn_name: &str) -> (r: Result<
    &'a Value,
    Fault,
>)
    ensures
        match r {
            Ok(v) => arg_at(args@, index as nat, fn_name@) == Ok::<_, FaultView>(*v),
            Err(f) => arg_at(args@, index as nat, fn_name@) == Err::<Value, _>(f@),
        },
{
    if index < args.len() {
        Ok(&args[index])
    } else {
        let mut s = String::from_str(fn_name);
        s.append(": missing argument ");
        push_dec(&mut s, index as u64);
        Err(Fault::NativeError(s))
    }
}

pub open spec fn int_arg(args: Seq<Value>, index: nat, fn_name: Seq<char>) -> Result<
    i64,
    FaultView,
> {
    match arg_at(args, index, fn_name) {
        Err(f) => Err(f),
        Ok(v) => match v.spec_as_int() {
            Some(i) => Ok(i),
            None => Err(
                FaultView::NativeError(
                    arg_text(fn_name, ": argument "@, index, " is not an int"@),
                ),
            ),
        },
    }
}

/// Require an argument that is an integer, or a boolean for 0 and 1.
pub fn expect_int(args: &[Value], index: usize, fn_name: &str) -> (r: Result<i64, Fault>)
    ensures
        result_view(r) == int_arg(args@, index as nat, fn_name@),
{
    match expect_arg(args, index, fn_name) {
        Err(f) => Err(f),
        Ok(v) => match v.as_int() {
            Some(i) => Ok(i),
            None => Err(
                Fault::NativeError(arg_message(fn_name, ": argument ", index, " is not an int")),
            ),
        },
    }
}

pub open spec fn bool_arg(args: Seq<Value>, index: nat, fn_name: Seq<char>) -> Result<
    bool,
    FaultView,
> {
    match arg_at(args, index, fn_name) {
        Err(f) => Err(f),
        Ok(Value::Bool(b)) => Ok(b),
        Ok(Value::Int(i)) => Ok(i != 0),
        Ok(other) => Err(
            FaultView::NativeError(
                arg_text(fn_name, ": argument "@, index, " is not a bool/int (got "@)
                    + other.spec_type_label()@ + ")"@,
            ),
        ),
    }
}

/// Require an argument that is a boolean, or an integer for `!= 0`.
pub fn expect_bool(args: &[Value], index: usize, fn_name: &str) -> (r: Result<bool, Fault>)
    ensures
        result_view(r) == bool_arg(args@, index as nat, fn_name@),
{
    match expect_arg(args, index, fn_name) {
        Err(f) => Err(f),
        Ok(Value::Bool(b)) => Ok(*b),
        Ok(Value::Int(i)) => Ok(*i != 0),
        Ok(other) => {
            let mut s = arg_message(fn_name, ": argument ", index, " is not a bool/int (got ");
            s.append(other.type_label());
            s.append(")");
            Err(Fault::NativeError(s))
        },
    }
}

pub open spec fn message_arg(args: Seq<Value>, index: nat, fn_name: Seq<char>) -> Result<
    Message,
    FaultView,
> {
    match arg_at(args, index, fn_name) {
        Err(f) => Err(f),
        Ok(v) => match v.spec_as_message() {
            Some(m) => Ok(m),
            None => Err(
                FaultView::NativeError(
                    arg_text(fn_name, ": argument "@, index, " is not a message"@),
                ),
            ),
        },
    }
}

/// Require an argument that is a message.
pub fn expect_message(args: &[Value], index: usize, fn_name: &str) -> (r: Result<Message, Fault>)
    ensures
        result_view(r) == message_arg(args@, index as nat, fn_name@),
{
    match expect_arg(args, index, fn_name) {
        Err(f) => Err(f),
        Ok(v) => match v.as_message() {
            Some(m) => Ok(m),
            None => Err(
                Fault::NativeError(arg_message(fn_name, ": argument ", index, " is not a message")),
            ),
        },
    }
}

pub open spec fn u64_arg(args: Seq<Value>, index: nat, fn_name: Seq<char>) -> Result<
    u64,
    FaultView,
> {
    let refused = |v: Value|
        Err::<u64, FaultView>(
            FaultView::NativeError(
                arg_text(
                    fn_name,
                    ": argument "@,
                    index,
                    " is not a non-negative int/pid/cap (got "@,
                ) + v.spec_type_label()@ + ")"@,
            ),
        );
    match arg_at(args, index, fn_name) {
        Err(f) => Err(f),
        Ok(v) => match v {
            Value::Pid(p) => Ok(p),
            Value::Cap(c) => Ok(c),
            Value::Int(i) => if i >= 0 {
                Ok(i as u64)
            } else {
                refused(v)
            },
            Value::Bool(b) => Ok(if b { 1u64 } else { 0u64 }),
            _ => refused(v),
        },
    }
}

/// Require an argument that stands for an unsigned number: a pid, a
/// capability, a non-negative integer or a boolean.
pub fn expect_u64(args: &[Value], index: usize, fn_name: &str) -> (r: Result<u64, Fault>)
    ensures
        result_view(r) == u64_arg(args@, index as nat, fn_name@),
{
    match expect_arg(args, index, fn_name) {
        Err(f) => return Err(f),
        Ok(v) => {
            match v {
                Value::Pid(p) => return Ok(*p),
                Value::Cap(c) => return Ok(*c),
                Value::Int(i) => {
                    if *i >= 0 {
                        return Ok(*i as u64);
                    }
                },
                Value::Bool(b) => return Ok(if *b { 1 } else { 0 }),
                _ => {},
            }
            let mut s = arg_message(
                fn_name,
                ": argument ",
                index,
                " is not a non-negative int/pid/cap (got ",
            );
            s.append(v.type_label());
            s.append(")");
            Err(Fault::NativeError(s))
        },
    }
}

/// A registered function stands in its slot under its name; every other slot is
/// as it was, and a slot that was not there is empty. It can be registered if and
/// only if no slot has the name and its own is free.
pub proof fn registration_fills_one_slot(
    slots: Seq<Option<(Seq<char>, NativeFn)>>,
    index: int,
    name: Seq<char>,
    f: NativeFn,
    i: int,
)
    requires
        0 <= index,
        0 <= i,
    ensures
        ({
            let after = registered(slots, index, name, f);
            &&& index < after.len()
            &&& slots.len() <= after.len()
            &&& after.len() == slots.len() || after.len() == index + 1
            &&& after[index] == Some((name, f))
            &&& native_at(after, index) == Some(f)
            &&& i != index && i < slots.len() ==> after[i] == slots[i]
            &&& slots.len() <= i < after.len() && i != index ==> after[i] is None
            &&& i != index ==> native_at(after, i) == native_at(slots, i)
        }),
        i < slots.len() && (slots[i] matches Some((n, _)) && n == name) ==> !registrable(
            slots,
            index,
            name,
        ),
        index < slots.len() && slots[index] is Some ==> !registrable(slots, index, name),
        (forall|j: int|
            0 <= j < slots.len() ==> !((#[trigger] slots[j]) matches Some((n, _)) && n == name))
            && (index >= slots.len() || slots[index] is None) ==> registrable(slots, index, name),
        !(i < slots.len()) ==> native_at(slots, i) is None,
        i < slots.len() && slots[i] is None ==> native_at(slots, i) is None,
{
    if i < slots.len() && (slots[i] matches Some((n, _)) && n == name) {
        assert(slot_named(slots, i, name));
    }
    if name_taken(slots, name) {
        let j = choose|j: int| 0 <= j < slots.len() && #[trigger] slot_named(slots, j, name);
        assert(slots[j] matches Some((n, _)) && n == name);
    }
}

/// The names of a table are those of its filled slots and no others.
pub proof fn names_are_those_of_the_slots(
    slots: Seq<Option<(Seq<char>, NativeFn)>>,
    n: int,
    name: Seq<char>,
)
    requires
        0 <= n <= slots.len(),
    ensures
        names_of(slots, n).contains(name) <==> exists|i: int|
            0 <= i < n && #[trigger] slot_named(slots, i, name),
        names_of(slots, n).len() <= n,
        (forall|i: int| 0 <= i < n ==> (#[trigger] slots[i]) is Some) ==> names_of(slots, n).len()
            == n,
    decreases n,
{
    if n > 0 {
        names_are_those_of_the_slots(slots, n - 1, name);
        let before = names_of(slots, n - 1);
        match slots[n - 1] {
            Some((last, _)) => {
                assert(before.push(last)[before.len() as int] == last);
                if before.contains(name) {
                    let k = choose|k: int| 0 <= k < before.len() && before[k] == name;
                    assert(before.push(last)[k] == name);
                }
                if last == name {
                    assert(slot_named(slots, n - 1, name));
                }
                if names_of(slots, n).contains(name) && last != name {
                    let k = choose|k: int|
                        0 <= k < names_of(slots, n).len() && names_of(slots, n)[k] == name;
                    assert(before[k] == name);
                }
            },
            None => {},
        }
    }
}

/// A call is let through if and only if the slot is in the table and allowed.
pub proof fn verdict_is_exact(gate: Seq<bool>, slots: nat, index: u32)
    ensures
        gate_verdict(gate, slots, index) is Ok <==> index < slots && index < gate.len()
            && gate[index as int],
        index >= slots ==> gate_verdict(gate, slots, index) == Err::<(), _>(
            NativeCallError::IndexOutOfRange(index),
        ),
        index < slots && !(index < gate.len() && gate[index as int]) ==> gate_verdict(
            gate,
            slots,
            index,
        ) == Err::<(), _>(NativeCallError::Denied(index)),
{
}

/// An argument is read by its place; one that is not there, or is of a kind that
/// cannot be read so, is an error.
pub proof fn arguments_are_read_by_place(args: Seq<Value>, index: nat, fn_name: Seq<char>)
    ensures
        index >= args.len() ==> {
            &&& arg_at(args, index, fn_name) is Err
            &&& int_arg(args, index, fn_name) is Err
            &&& bool_arg(args, index, fn_name) is Err
            &&& message_arg(args, index, fn_name) is Err
            &&& u64_arg(args, index, fn_name) is Err
        },
        index < args.len() ==> {
            let v = args[index as int];
            &&& arg_at(args, index, fn_name) == Ok::<Value, FaultView>(v)
            &&& match v {
                Value::Int(n) => {
                    &&& int_arg(args, index, fn_name) == Ok::<i64, FaultView>(n)
                    &&& bool_arg(args, index, fn_name) == Ok::<bool, FaultView>(n != 0)
                    &&& n < 0 ==> u64_arg(args, index, fn_name) is Err
                    &&& n >= 0 ==> u64_arg(args, index, fn_name) == Ok::<u64, FaultView>(n as u64)
                    &&& message_arg(args, index, fn_name) is Err
                },
                Value::Bool(b) => {
                    &&& int_arg(args, index, fn_name) == Ok::<i64, FaultView>(
                        if b {
                            1
                        } else {
                            0
                        },
                    )
                    &&& bool_arg(args, index, fn_name) == Ok::<bool, FaultView>(b)
                    &&& message_arg(args, index, fn_name) is Err
                },
                Value::Message(m) => {
                    &&& message_arg(args, index, fn_name) == Ok::<Message, FaultView>(m)
                    &&& int_arg(args, index, fn_name) is Err
                    &&& bool_arg(args, index, fn_name) is Err
                    &&& u64_arg(args, index, fn_name) is Err
                },
                Value::Pid(n) => u64_arg(args, index, fn_name) == Ok::<u64, FaultView>(n)
                    && int_arg(args, index, fn_name) is Err && message_arg(args, index, fn_name)
                    is Err,
                Value::Cap(n) => u64_arg(args, index, fn_name) == Ok::<u64, FaultView>(n)
                    && int_arg(args, index, fn_name) is Err && message_arg(args, index, fn_name)
                    is Err,
                _ => int_arg(args, index, fn_name) is Err && bool_arg(args, index, fn_name) is Err
                    && message_arg(args, index, fn_name) is Err && u64_arg(args, index, fn_name)
                    is Err,
            }
        },
{
}

} // verus!
