//! The host's value space as the binding sees it: a table of values reached
//! through handles, the record of the last failed operation, and what the
//! host was asked to do on the binding's behalf.
//!
//! Every operation is total: a handle that names no value, or a value of the
//! wrong type, is answered with a status, never with a panic.

use vstd::prelude::*;
use vstd::utf8::encode_utf8;
use crate::error::{ExtendedErrorInfo, ExtendedErrorInfoView, NapiError, NapiErrorView, NapiStatus};
use crate::error::error_of_info;

verus! {

/// A handle to a value of the host.
pub type NapiValue = usize;

/// A reference to native data that was wrapped into an object.
pub type NapiRef = usize;

/// The type tag that the host reports for a value.
#[derive(Debug, Clone, Copy, PartialEq, Eq, Structural)]
pub enum NapiValueType {
    Undefined,
    Null,
    Boolean,
    Number,
    String,
    Symbol,
    Object,
    Function,
    External,
}

/// A named property of a host object.
pub struct Property {
    pub name: String,
    pub value: NapiValue,
}

/// A value in the host's table.
pub enum HostValue {
    Undefined,
    Null,
    Boolean(bool),
    /// A double-precision number, by its bit pattern.
    Number(u64),
    String(String),
    Symbol,
    /// Named properties in the order in which they were first written.
    Object(Vec<Property>),
    /// Elements by index; `None` is a hole, read as undefined.
    Array(Vec<Option<NapiValue>>),
    /// A native function: its name and the native data attached to it.
    Function { name: String, data: usize },
    /// Native data owned by the host.
    External(usize),
    /// The state of a thenable: the number of the asynchronous work that it
    /// waits for. To the host this is an external value too.
    AsyncState(usize),
}

/// The mathematical content of a [`HostValue`].
pub enum HostValueView {
    Undefined,
    Null,
    Boolean(bool),
    Number(u64),
    String(Seq<char>),
    Symbol,
    Object(Seq<(Seq<char>, NapiValue)>),
    Array(Seq<Option<NapiValue>>),
    Function { name: Seq<char>, data: usize },
    External(usize),
    AsyncState(usize),
}

/// The properties of an object as pairs of name and handle.
pub open spec fn properties_view(props: Seq<Property>) -> Seq<(Seq<char>, NapiValue)> {
    props.map_values(|p: Property| (p.name@, p.value))
}

impl View for HostValue {
    type V = HostValueView;

    open spec fn view(&self) -> HostValueView {
        match self {
            HostValue::Undefined => HostValueView::Undefined,
            HostValue::Null => HostValueView::Null,
            HostValue::Boolean(b) => HostValueView::Boolean(*b),
            HostValue::Number(bits) => HostValueView::Number(*bits),
            HostValue::String(s) => HostValueView::String(s@),
            HostValue::Symbol => HostValueView::Symbol,
            HostValue::Object(props) => HostValueView::Object(properties_view(props@)),
            HostValue::Array(elements) => HostValueView::Array(elements@),
            HostValue::Function { name, data } => HostValueView::Function {
                name: name@,
                data: *data,
            },
            HostValue::External(data) => HostValueView::External(*data),
            HostValue::AsyncState(work) => HostValueView::AsyncState(*work),
        }
    }
}

impl HostValueView {
    /// The type tag of a value. An array is an object to the host.
    pub open spec fn type_tag(self) -> NapiValueType {
        match self {
            HostValueView::Undefined => NapiValueType::Undefined,
            HostValueView::Null => NapiValueType::Null,
            HostValueView::Boolean(_) => NapiValueType::Boolean,
            HostValueView::Number(_) => NapiValueType::Number,
            HostValueView::String(_) => NapiValueType::String,
            HostValueView::Symbol => NapiValueType::Symbol,
            HostValueView::Object(_) => NapiValueType::Object,
            HostValueView::Array(_) => NapiValueType::Object,
            HostValueView::Function { .. } => NapiValueType::Function,
            HostValueView::External(_) => NapiValueType::External,
            HostValueView::AsyncState(_) => NapiValueType::External,
        }
    }
}

/// The host's description of a status.
pub open spec fn status_message(status: NapiStatus) -> Seq<char> {
    match status {
        NapiStatus::Success => Seq::<char>::empty(),
        NapiStatus::InvalidArg => "Invalid argument"@,
        NapiStatus::ObjectExpected => "An object was expected"@,
        NapiStatus::StringExpected => "A string was expected"@,
        NapiStatus::NameExpected => "A string or symbol was expected"@,
        NapiStatus::FunctionExpected => "A function was expected"@,
        NapiStatus::NumberExpected => "A number was expected"@,
        NapiStatus::BooleanExpected => "A boolean was expected"@,
        NapiStatus::ArrayExpected => "An array was expected"@,
        NapiStatus::GenericFailure => "Unknown failure"@,
        NapiStatus::PendingException => "An exception is pending"@,
        NapiStatus::Cancelled => "The async work item was cancelled"@,
        NapiStatus::StatusLast => "Unknown failure"@,
    }
}

/// The record that the host keeps after an operation failed with `status`.
pub open spec fn status_record(status: NapiStatus) -> ExtendedErrorInfoView {
    ExtendedErrorInfoView {
        error_message: Some(status_message(status)),
        engine_error_code: 0,
        error_code: status,
    }
}

/// The error reported for a host operation that failed with `status`.
pub open spec fn host_error(status: NapiStatus) -> NapiErrorView {
    error_of_info(status_record(status))
}

/// The names of properties.
pub open spec fn property_names(props: Seq<(Seq<char>, NapiValue)>) -> Seq<Seq<char>> {
    props.map_values(|p: (Seq<char>, NapiValue)| p.0)
}

/// The mathematical content of a list of names.
pub open spec fn names_view(names: Seq<String>) -> Seq<Seq<char>> {
    names.map_values(|n: String| n@)
}

/// The position of the first property named `name` at or after `from`, or
/// the number of properties where there is none.
pub open spec fn find_property(
    props: Seq<(Seq<char>, NapiValue)>,
    name: Seq<char>,
    from: int,
) -> int
    decreases props.len() - from,
{
    if from < 0 || from >= props.len() {
        props.len() as int
    } else if props[from].0 == name {
        from
    } else {
        find_property(props, name, from + 1)
    }
}

/// The properties after `name` was written: an existing property keeps its
/// place, a new one goes last.
pub open spec fn write_property(
    props: Seq<(Seq<char>, NapiValue)>,
    name: Seq<char>,
    value: NapiValue,
) -> Seq<(Seq<char>, NapiValue)> {
    let i = find_property(props, name, 0);
    if i < props.len() {
        props.update(i, (name, value))
    } else {
        props.push((name, value))
    }
}

/// The elements after index `index` was written: an array that is too
/// short is first extended with holes.
pub open spec fn write_element(
    elements: Seq<Option<NapiValue>>,
    index: int,
    value: NapiValue,
) -> Seq<Option<NapiValue>> {
    if index < elements.len() {
        elements.update(index, Some(value))
    } else {
        (elements + Seq::new((index - elements.len()) as nat, |k: int| None::<NapiValue>)).push(
            Some(value),
        )
    }
}

/// A call of a host function that the binding asked for.
pub struct CallRecord {
    pub func: NapiValue,
    pub recv: NapiValue,
    pub args: Vec<NapiValue>,
}

/// The mathematical content of a [`CallRecord`].
pub struct CallView {
    pub func: NapiValue,
    pub recv: NapiValue,
    pub args: Seq<NapiValue>,
}

impl View for CallRecord {
    type V = CallView;

    open spec fn view(&self) -> CallView {
        CallView { func: self.func, recv: self.recv, args: self.args@ }
    }
}

/// What the host knows of a piece of native data that was handed to it.
#[derive(Debug, Clone, Copy, PartialEq, Eq, Structural)]
pub enum SlotState {
    /// The host owns the data and has not reclaimed it.
    Attached,
    /// The host's finalizer ran; the data is gone.
    Released,
}

/// The descriptor with which an extension registers itself at the host.
#[derive(Debug, Clone)]
pub struct NapiModule {
    pub version: i32,
    pub flags: u32,
    pub filename: String,
    pub modname: String,
}

/// The mathematical content of a [`NapiModule`].
pub struct NapiModuleView {
    pub version: i32,
    pub flags: u32,
    pub filename: Seq<char>,
    pub modname: Seq<char>,
}

impl View for NapiModule {
    type V = NapiModuleView;

    open spec fn view(&self) -> NapiModuleView {
        NapiModuleView {
            version: self.version,
            flags: self.flags,
            filename: self.filename@,
            modname: self.modname@,
        }
    }
}

/// The position of the first wrapping of `object` at or after `from`, or the
/// number of wrappings where there is none.
pub open spec fn find_wrap(wraps: Seq<(NapiValue, usize)>, object: NapiValue, from: int) -> int
    decreases wraps.len() - from,
{
    if from < 0 || from >= wraps.len() {
        wraps.len() as int
    } else if wraps[from].0 == object {
        from
    } else {
        find_wrap(wraps, object, from + 1)
    }
}

/// The states of a piece of asynchronous work. The last two are final.
#[derive(Debug, Clone, Copy, PartialEq, Eq, Structural)]
pub enum AsyncState {
    Created,
    Queued,
    Running,
    Resolved,
    Rejected,
}

/// The continuations that the host registered with a thenable, and the
/// receiver on which they are called.
#[derive(Debug, Clone, Copy, PartialEq, Eq, Structural)]
pub struct Registration {
    pub this: NapiValue,
    pub on_fulfilled: NapiValue,
    pub on_rejected: NapiValue,
}

/// What the host knows of a piece of asynchronous work.
#[derive(Debug, Clone, Copy, PartialEq, Eq, Structural)]
pub struct AsyncWork {
    pub state: AsyncState,
    /// The encoded outcome, once the work is resolved or rejected.
    pub settled: Option<NapiValue>,
    /// The continuations, once the host registered them.
    pub registered: Option<Registration>,
    /// Whether a continuation was called.
    pub fired: bool,
}

/// The mathematical content of a [`NapiEnv`].
pub struct HostState {
    /// The table of values; a handle is an index into it.
    pub values: Seq<HostValueView>,
    /// The record of the last operation, if it failed.
    pub last_error: Option<ExtendedErrorInfoView>,
    /// The handle of the global object, once it was asked for.
    pub global: Option<NapiValue>,
    /// The error that was thrown into the host and not yet taken up.
    pub exception: Option<NapiErrorView>,
    /// The calls of host functions, oldest first.
    pub calls: Seq<CallView>,
    /// The native data handed to the host, by slot number.
    pub slots: Seq<SlotState>,
    /// The asynchronous work, by number.
    pub works: Seq<AsyncWork>,
    /// The objects that native data was wrapped into, each with the slot of
    /// its data, in the order of the wrapping.
    pub wraps: Seq<(NapiValue, usize)>,
    /// The modules that were registered, in the order of their registration.
    pub modules: Seq<NapiModuleView>,
}

impl HostState {
    /// The state of an environment in which nothing has happened yet.
    pub open spec fn empty() -> HostState {
        HostState {
            values: Seq::empty(),
            last_error: None,
            global: None,
            exception: None,
            calls: Seq::empty(),
            slots: Seq::empty(),
            works: Seq::empty(),
            wraps: Seq::empty(),
            modules: Seq::empty(),
        }
    }
}

impl HostState {
    /// Whether `h` names a value.
    pub open spec fn valid(self, h: NapiValue) -> bool {
        h < self.values.len()
    }

    /// The state after an operation that succeeded without creating a value.
    pub open spec fn pass(self) -> HostState {
        HostState { last_error: None, ..self }
    }

    /// The state after an operation that failed with `status`.
    pub open spec fn fail(self, status: NapiStatus) -> HostState {
        HostState { last_error: Some(status_record(status)), ..self }
    }

    /// The state after an operation that ended with `status` and changed
    /// nothing else.
    pub open spec fn after(self, status: NapiStatus) -> HostState {
        if status == NapiStatus::Success {
            self.pass()
        } else {
            self.fail(status)
        }
    }

    /// The state after a value was created; its handle is the old length of
    /// the table.
    pub open spec fn create(self, v: HostValueView) -> HostState {
        HostState { values: self.values.push(v), last_error: None, ..self }
    }

    /// The state in which the value at `h` is replaced by `v`.
    pub open spec fn store(self, h: NapiValue, v: HostValueView) -> HostState {
        HostState { values: self.values.update(h as int, v), last_error: None, ..self }
    }

    /// Whether the tables are short enough for their lengths to be machine
    /// numbers, as those of every environment are.
    pub open spec fn fits(self) -> bool {
        &&& self.values.len() <= usize::MAX
        &&& self.slots.len() <= usize::MAX
        &&& self.works.len() <= usize::MAX
    }

    /// Whether slot `slot` holds native data that the host has not reclaimed.
    pub open spec fn attached(self, slot: usize) -> bool {
        slot < self.slots.len() && self.slots[slot as int] == SlotState::Attached
    }

    /// The status with which a call of `func` on `recv` with `args` ends:
    /// no call is made while an exception is pending, every handle must name
    /// a value, and `func` must be a function.
    pub open spec fn call_status(
        self,
        recv: NapiValue,
        func: NapiValue,
        args: Seq<NapiValue>,
    ) -> NapiStatus {
        if self.exception is Some {
            NapiStatus::PendingException
        } else if !self.valid(recv) || !self.valid(func) {
            NapiStatus::InvalidArg
        } else if !(self.values[func as int] is Function) {
            NapiStatus::FunctionExpected
        } else if exists|k: int| 0 <= k < args.len() && !self.valid(#[trigger] args[k]) {
            NapiStatus::InvalidArg
        } else {
            NapiStatus::Success
        }
    }

    /// The state after a call of `func` was made: the call is recorded and
    /// its result, a new undefined value, is created.
    pub open spec fn called(self, recv: NapiValue, func: NapiValue, args: Seq<NapiValue>) -> HostState {
        HostState {
            calls: self.calls.push(CallView { func, recv, args }),
            ..self.create(HostValueView::Undefined)
        }
    }

    /// The status with which native data can be wrapped into `object`: it
    /// must be an object that nothing was wrapped into before.
    pub open spec fn wrap_status(self, object: NapiValue) -> NapiStatus {
        if !self.valid(object) {
            NapiStatus::InvalidArg
        } else if !(self.values[object as int] is Object) {
            NapiStatus::ObjectExpected
        } else if find_wrap(self.wraps, object, 0) < self.wraps.len() {
            NapiStatus::InvalidArg
        } else {
            NapiStatus::Success
        }
    }

    /// The state after native data was wrapped into `object`: the data has
    /// the next slot.
    pub open spec fn wrapped(self, object: NapiValue) -> HostState {
        HostState {
            slots: self.slots.push(SlotState::Attached),
            wraps: self.wraps.push((object, self.slots.len() as usize)),
            last_error: None,
            ..self
        }
    }

    /// The state after `error` was thrown into the host.
    pub open spec fn thrown(self, error: NapiErrorView) -> HostState {
        HostState { exception: Some(error), last_error: None, ..self }
    }
}

/// The number of bytes copied out of a string of `len` bytes into a buffer
/// of `bufsize` places, of which one is kept for the terminator.
pub open spec fn copied_length(len: nat, bufsize: usize) -> nat {
    if bufsize == 0 {
        0
    } else if len < bufsize - 1 {
        len
    } else {
        (bufsize - 1) as nat
    }
}

/// The host environment: the table of values and the host's bookkeeping.
pub struct NapiEnv {
    values: Vec<HostValue>,
    last_error: Option<ExtendedErrorInfo>,
    global: Option<NapiValue>,
    exception: Option<NapiError>,
    calls: Vec<CallRecord>,
    slots: Vec<SlotState>,
    works: Vec<AsyncWork>,
    wraps: Vec<(NapiValue, usize)>,
    modules: Vec<NapiModule>,
}

impl View for NapiEnv {
    type V = HostState;

    closed spec fn view(&self) -> HostState {
        HostState {
            values: self.values@.map_values(|v: HostValue| v@),
            last_error: match self.last_error {
                Some(info) => Some(info@),
                None => None,
            },
            global: self.global,
            exception: match self.exception {
                Some(e) => Some(e@),
                None => None,
            },
            calls: self.calls@.map_values(|c: CallRecord| c@),
            slots: self.slots@,
            works: self.works@,
            wraps: self.wraps@,
            modules: self.modules@.map_values(|m: NapiModule| m@),
        }
    }
}

/// The host's description of a status.
fn status_text(status: NapiStatus) -> (r: &'static str)
    requires
        status != NapiStatus::Success,
    ensures
        r@ == status_message(status),
{
    match status {
        NapiStatus::Success => "",
        NapiStatus::InvalidArg => "Invalid argument",
        NapiStatus::ObjectExpected => "An object was expected",
        NapiStatus::StringExpected => "A string was expected",
        NapiStatus::NameExpected => "A string or symbol was expected",
        NapiStatus::FunctionExpected => "A function was expected",
        NapiStatus::NumberExpected => "A number was expected",
        NapiStatus::BooleanExpected => "A boolean was expected",
        NapiStatus::ArrayExpected => "An array was expected",
        NapiStatus::GenericFailure => "Unknown failure",
        NapiStatus::PendingException => "An exception is pending",
        NapiStatus::Cancelled => "The async work item was cancelled",
        NapiStatus::StatusLast => "Unknown failure",
    }
}

impl NapiEnv {
    /// The tables of an environment are short enough for their lengths to be
    /// machine numbers.
    pub proof fn lemma_fits(&self)
        ensures
            self@.fits(),
    {
        assert(self.values.len() == self.values@.len());
        assert(self.slots.len() == self.slots@.len());
        assert(self.works.len() == self.works@.len());
    }

    /// An environment that holds no value and no record.
    pub fn new() -> (env: NapiEnv)
        ensures
            env@ == HostState::empty(),
    {
        let env = NapiEnv {
            values: Vec::new(),
            last_error: None,
            global: None,
            exception: None,
            calls: Vec::new(),
            slots: Vec::new(),
            works: Vec::new(),
            wraps: Vec::new(),
            modules: Vec::new(),
        };
        assert(env@.values =~= Seq::empty());
        assert(env@.calls =~= Seq::empty());
        assert(env@.modules =~= Seq::empty());
        env
    }

    /// The number of values in the table.
    pub fn value_count(&self) -> (n: usize)
        ensures
            n == self@.values.len(),
    {
        self.values.len()
    }

    /// The error that was thrown into the host and not yet taken up.
    pub fn pending_exception(&self) -> (r: Option<&NapiError>)
        ensures
            match r {
                Some(e) => self@.exception == Some(e@),
                None => self@.exception is None,
            },
    {
        self.exception.as_ref()
    }

    /// Takes up the error that was thrown into the host, which leaves none
    /// pending.
    pub fn take_exception(&mut self) -> (r: Option<NapiError>)
        ensures
            final(self)@ == (HostState { exception: None, ..old(self)@ }),
            match r {
                Some(e) => old(self)@.exception == Some(e@),
                None => old(self)@.exception is None,
            },
    {
        self.exception.take()
    }

    /// The number of calls of host functions that were made.
    pub fn call_count(&self) -> (n: usize)
        ensures
            n == self@.calls.len(),
    {
        self.calls.len()
    }

    /// The call of a host function with the number `i`, counted from the
    /// oldest.
    pub fn call(&self, i: usize) -> (r: Option<&CallRecord>)
        ensures
            match r {
                Some(c) => i < self@.calls.len() && c@ == self@.calls[i as int],
                None => i >= self@.calls.len(),
            },
    {
        if i < self.calls.len() {
            Some(&self.calls[i])
        } else {
            None
        }
    }

    /// What the host knows of the asynchronous work `work`.
    pub fn async_work(&self, work: usize) -> (r: Option<AsyncWork>)
        ensures
            r == (if work < self@.works.len() {
                Some(self@.works[work as int])
            } else {
                None
            }),
    {
        self.raw_work(work)
    }

    /// The number of modules that were registered.
    pub fn module_count(&self) -> (n: usize)
        ensures
            n == self@.modules.len(),
    {
        self.modules.len()
    }

    /// Records that the last operation succeeded.
    pub(crate) fn succeed(&mut self) -> (status: NapiStatus)
        ensures
            status == NapiStatus::Success,
            final(self)@ == old(self)@.pass(),
    {
        self.last_error = None;
        NapiStatus::Success
    }

    /// Records that the last operation failed with `status`.
    pub(crate) fn refuse(&mut self, status: NapiStatus) -> (r: NapiStatus)
        requires
            status != NapiStatus::Success,
        ensures
            r == status,
            final(self)@ == old(self)@.fail(status),
    {
        self.last_error = Some(
            ExtendedErrorInfo {
                error_message: Some(String::from_str(status_text(status))),
                engine_error_code: 0,
                error_code: status,
            },
        );
        status
    }

    /// Adds a value to the table and records success.
    pub(crate) fn allocate(&mut self, v: HostValue) -> (h: NapiValue)
        ensures
            h == old(self)@.values.len(),
            final(self)@ == old(self)@.create(v@),
    {
        let h = self.values.len();
        self.values.push(v);
        self.last_error = None;
        assert(self@.values =~= old(self)@.values.push(v@));
        h
    }

    /// The host's record of the last failed operation.
    pub(crate) fn last_error_info(&self) -> (r: Option<ExtendedErrorInfo>)
        ensures
            match r {
                Some(info) => self@.last_error == Some(info@),
                None => self@.last_error is None,
            },
    {
        match &self.last_error {
            Some(info) => {
                let message = match &info.error_message {
                    Some(m) => Some(m.clone()),
                    None => None,
                };
                Some(
                    ExtendedErrorInfo {
                        error_message: message,
                        engine_error_code: info.engine_error_code,
                        error_code: info.error_code,
                    },
                )
            },
            None => None,
        }
    }

    /// The type tag of a value.
    pub(crate) fn raw_typeof(&mut self, value: NapiValue) -> (r: (NapiStatus, NapiValueType))
        ensures
            final(self)@ == old(self)@.after(r.0),
            old(self)@.valid(value) ==> r == (
                NapiStatus::Success,
                old(self)@.values[value as int].type_tag(),
            ),
            !old(self)@.valid(value) ==> r.0 == NapiStatus::InvalidArg,
    {
        if value >= self.values.len() {
            return (self.refuse(NapiStatus::InvalidArg), NapiValueType::Undefined);
        }
        let tag = match &self.values[value] {
            HostValue::Undefined => NapiValueType::Undefined,
            HostValue::Null => NapiValueType::Null,
            HostValue::Boolean(_) => NapiValueType::Boolean,
            HostValue::Number(_) => NapiValueType::Number,
            HostValue::String(_) => NapiValueType::String,
            HostValue::Symbol => NapiValueType::Symbol,
            HostValue::Object(_) => NapiValueType::Object,
            HostValue::Array(_) => NapiValueType::Object,
            HostValue::Function { .. } => NapiValueType::Function,
            HostValue::External(_) => NapiValueType::External,
            HostValue::AsyncState(_) => NapiValueType::External,
        };
        (self.succeed(), tag)
    }

    /// The boolean that a value holds.
    pub(crate) fn raw_get_value_bool(&mut self, value: NapiValue) -> (r: (NapiStatus, bool))
        ensures
            final(self)@ == old(self)@.after(r.0),
            r.0 == (if !old(self)@.valid(value) {
                NapiStatus::InvalidArg
            } else if old(self)@.values[value as int] is Boolean {
                NapiStatus::Success
            } else {
                NapiStatus::BooleanExpected
            }),
            r.0 == NapiStatus::Success ==> old(self)@.values[value as int]
                == HostValueView::Boolean(r.1),
    {
        if value >= self.values.len() {
            return (self.refuse(NapiStatus::InvalidArg), false);
        }
        match &self.values[value] {
            HostValue::Boolean(b) => {
                let b = *b;
                (self.succeed(), b)
            },
            _ => (self.refuse(NapiStatus::BooleanExpected), false),
        }
    }

    /// Writes a named property of an object.
    pub(crate) fn raw_set_named_property(
        &mut self,
        object: NapiValue,
        name: &str,
        value: NapiValue,
    ) -> (status: NapiStatus)
        ensures
            status == (if !old(self)@.valid(object) || !old(self)@.valid(value) {
                NapiStatus::InvalidArg
            } else if old(self)@.values[object as int] is Object {
                NapiStatus::Success
            } else {
                NapiStatus::ObjectExpected
            }),
            status != NapiStatus::Success ==> final(self)@ == old(self)@.fail(status),
            status == NapiStatus::Success ==> final(self)@ == old(self)@.store(
                object,
                HostValueView::Object(
                    write_property(old(self)@.values[object as int]->Object_0, name@, value),
                ),
            ),
    {
        if object >= self.values.len() || value >= self.values.len() {
            return self.refuse(NapiStatus::InvalidArg);
        }
        match &self.values[object] {
            HostValue::Object(_) => {},
            _ => {
                return self.refuse(NapiStatus::ObjectExpected);
            },
        }
        let key = String::from_str(name);
        match &mut self.values[object] {
            HostValue::Object(props) => {
                let ghost before = properties_view(props@);
                let n = props.len();
                let mut i: usize = 0;
                let mut found = false;
                while i < n && !found
                    invariant
                        n == props@.len(),
                        0 <= i <= n,
                        properties_view(props@) == before,
                        key@ == name@,
                        find_property(before, name@, 0) == find_property(before, name@, i as int),
                        found ==> i < n && before[i as int].0 == name@,
                    decreases n - i + (if found { 0int } else { 1int }),
                {
                    if props[i].name == key {
                        found = true;
                    } else {
                        i = i + 1;
                    }
                }
                if found {
                    props.set(i, Property { name: key, value });
                } else {
                    props.push(Property { name: key, value });
                }
                assert(properties_view(props@) =~= write_property(before, name@, value));
            },
            _ => {},
        }
        self.last_error = None;
        assert(self@.values =~= old(self)@.values.update(
            object as int,
            HostValueView::Object(
                write_property(old(self)@.values[object as int]->Object_0, name@, value),
            ),
        ));
        NapiStatus::Success
    }
    /// The bits of the number that a value holds.
    pub(crate) fn raw_get_value_number(&mut self, value: NapiValue) -> (r: (NapiStatus, u64))
        ensures
            final(self)@ == old(self)@.after(r.0),
            r.0 == (if !old(self)@.valid(value) {
                NapiStatus::InvalidArg
            } else if old(self)@.values[value as int] is Number {
                NapiStatus::Success
            } else {
                NapiStatus::NumberExpected
            }),
            r.0 == NapiStatus::Success ==> old(self)@.values[value as int]
                == HostValueView::Number(r.1),
    {
        if value >= self.values.len() {
            return (self.refuse(NapiStatus::InvalidArg), 0);
        }
        match &self.values[value] {
            HostValue::Number(bits) => {
                let bits = *bits;
                (self.succeed(), bits)
            },
            _ => (self.refuse(NapiStatus::NumberExpected), 0),
        }
    }

    /// The length in bytes of the UTF-8 form of the string that a value
    /// holds.
    pub(crate) fn raw_string_length(&mut self, value: NapiValue) -> (r: (NapiStatus, usize))
        ensures
            final(self)@ == old(self)@.after(r.0),
            r.0 == (if !old(self)@.valid(value) {
                NapiStatus::InvalidArg
            } else if old(self)@.values[value as int] is String {
                NapiStatus::Success
            } else {
                NapiStatus::StringExpected
            }),
            r.0 == NapiStatus::Success ==> r.1 == encode_utf8(
                old(self)@.values[value as int]->String_0,
            ).len(),
    {
        if value >= self.values.len() {
            return (self.refuse(NapiStatus::InvalidArg), 0);
        }
        match &self.values[value] {
            HostValue::String(s) => {
                let n = s.as_str().as_bytes().len();
                (self.succeed(), n)
            },
            _ => (self.refuse(NapiStatus::StringExpected), 0),
        }
    }

    /// Copies the UTF-8 form of a string into `buf`, which is emptied first.
    /// One place of `bufsize` is kept for the terminator, so at most
    /// `bufsize - 1` bytes are copied; the count is returned.
    pub(crate) fn raw_string_copy(
        &mut self,
        value: NapiValue,
        buf: &mut Vec<u8>,
        bufsize: usize,
    ) -> (r: (NapiStatus, usize))
        ensures
            final(self)@ == old(self)@.after(r.0),
            r.0 == (if !old(self)@.valid(value) {
                NapiStatus::InvalidArg
            } else if old(self)@.values[value as int] is String {
                NapiStatus::Success
            } else {
                NapiStatus::StringExpected
            }),
            r.0 != NapiStatus::Success ==> final(buf)@ == old(buf)@,
            r.0 == NapiStatus::Success ==> {
                let bytes = encode_utf8(old(self)@.values[value as int]->String_0);
                &&& r.1 == copied_length(bytes.len(), bufsize)
                &&& final(buf)@ == bytes.subrange(0, r.1 as int)
            },
    {
        if value >= self.values.len() {
            return (self.refuse(NapiStatus::InvalidArg), 0);
        }
        match &self.values[value] {
            HostValue::String(s) => {
                let bytes = s.as_str().as_bytes();
                let n = bytes.len();
                let limit = if bufsize == 0 {
                    0
                } else if n < bufsize - 1 {
                    n
                } else {
                    bufsize - 1
                };
                buf.clear();
                let mut i: usize = 0;
                while i < limit
                    invariant
                        0 <= i <= limit <= n,
                        n == bytes@.len(),
                        buf@ == bytes@.subrange(0, i as int),
                    decreases limit - i,
                {
                    buf.push(bytes[i]);
                    assert(buf@ =~= bytes@.subrange(0, i as int + 1));
                    i = i + 1;
                }
                (self.succeed(), limit)
            },
            _ => (self.refuse(NapiStatus::StringExpected), 0),
        }
    }

    /// Whether a value is an array.
    pub(crate) fn raw_is_array(&mut self, value: NapiValue) -> (r: (NapiStatus, bool))
        ensures
            final(self)@ == old(self)@.after(r.0),
            r.0 == (if old(self)@.valid(value) {
                NapiStatus::Success
            } else {
                NapiStatus::InvalidArg
            }),
            r.0 == NapiStatus::Success ==> r.1 == (old(self)@.values[value as int] is Array),
    {
        if value >= self.values.len() {
            return (self.refuse(NapiStatus::InvalidArg), false);
        }
        match &self.values[value] {
            HostValue::Array(_) => (self.succeed(), true),
            _ => (self.succeed(), false),
        }
    }

    /// The number of elements of an array.
    pub(crate) fn raw_get_array_length(&mut self, value: NapiValue) -> (r: (NapiStatus, usize))
        ensures
            final(self)@ == old(self)@.after(r.0),
            r.0 == (if !old(self)@.valid(value) {
                NapiStatus::InvalidArg
            } else if old(self)@.values[value as int] is Array {
                NapiStatus::Success
            } else {
                NapiStatus::ArrayExpected
            }),
            r.0 == NapiStatus::Success ==> r.1 == old(self)@.values[value as int]->Array_0.len(),
    {
        if value >= self.values.len() {
            return (self.refuse(NapiStatus::InvalidArg), 0);
        }
        match &self.values[value] {
            HostValue::Array(elements) => {
                let n = elements.len();
                (self.succeed(), n)
            },
            _ => (self.refuse(NapiStatus::ArrayExpected), 0),
        }
    }

    /// The element of an array at `index`. A hole, or an index past the end,
    /// reads as a new undefined value.
    pub(crate) fn raw_get_element(&mut self, array: NapiValue, index: u32) -> (r: (
        NapiStatus,
        NapiValue,
    ))
        ensures
            r.0 == (if !old(self)@.valid(array) {
                NapiStatus::InvalidArg
            } else if old(self)@.values[array as int] is Array {
                NapiStatus::Success
            } else {
                NapiStatus::ArrayExpected
            }),
            r.0 != NapiStatus::Success ==> final(self)@ == old(self)@.fail(r.0),
            r.0 == NapiStatus::Success ==> {
                let elements = old(self)@.values[array as int]->Array_0;
                if index < elements.len() && elements[index as int] is Some {
                    r.1 == elements[index as int]->Some_0 && final(self)@ == old(self)@.pass()
                } else {
                    r.1 == old(self)@.values.len() && final(self)@ == old(self)@.create(
                        HostValueView::Undefined,
                    )
                }
            },
    {
        if array >= self.values.len() {
            return (self.refuse(NapiStatus::InvalidArg), 0);
        }
        match &self.values[array] {
            HostValue::Array(elements) => {
                if (index as usize) < elements.len() {
                    match elements[index as usize] {
                        Some(h) => {
                            return (self.succeed(), h);
                        },
                        None => {},
                    }
                }
            },
            _ => {
                return (self.refuse(NapiStatus::ArrayExpected), 0);
            },
        }
        let h = self.allocate(HostValue::Undefined);
        (NapiStatus::Success, h)
    }

    /// Writes the element of an array at `index`.
    pub(crate) fn raw_set_element(&mut self, array: NapiValue, index: u32, value: NapiValue) -> (status:
        NapiStatus)
        ensures
            status == (if !old(self)@.valid(array) || !old(self)@.valid(value) {
                NapiStatus::InvalidArg
            } else if old(self)@.values[array as int] is Array {
                NapiStatus::Success
            } else {
                NapiStatus::ArrayExpected
            }),
            status != NapiStatus::Success ==> final(self)@ == old(self)@.fail(status),
            status == NapiStatus::Success ==> final(self)@ == old(self)@.store(
                array,
                HostValueView::Array(
                    write_element(old(self)@.values[array as int]->Array_0, index as int, value),
                ),
            ),
    {
        if array >= self.values.len() || value >= self.values.len() {
            return self.refuse(NapiStatus::InvalidArg);
        }
        match &self.values[array] {
            HostValue::Array(_) => {},
            _ => {
                return self.refuse(NapiStatus::ArrayExpected);
            },
        }
        match &mut self.values[array] {
            HostValue::Array(elements) => {
                let ghost before = elements@;
                let at = index as usize;
                if at < elements.len() {
                    elements.set(at, Some(value));
                } else {
                    while elements.len() < at
                        invariant
                            before.len() <= elements@.len() <= at,
                            elements@ == before + Seq::new(
                                (elements@.len() - before.len()) as nat,
                                |k: int| None::<NapiValue>,
                            ),
                        decreases at - elements@.len(),
                    {
                        let ghost prev = elements@;
                        elements.push(None);
                        assert(elements@ =~= before + Seq::new(
                            (elements@.len() - before.len()) as nat,
                            |k: int| None::<NapiValue>,
                        ));
                    }
                    elements.push(Some(value));
                }
                assert(elements@ =~= write_element(before, index as int, value));
            },
            _ => {},
        }
        self.last_error = None;
        assert(self@.values =~= old(self)@.values.update(
            array as int,
            HostValueView::Array(
                write_element(old(self)@.values[array as int]->Array_0, index as int, value),
            ),
        ));
        NapiStatus::Success
    }

    /// Reads a named property of an object. A property that was never
    /// written reads as a new undefined value.
    pub(crate) fn raw_get_named_property(&mut self, object: NapiValue, name: &str) -> (r: (
        NapiStatus,
        NapiValue,
    ))
        ensures
            r.0 == (if !old(self)@.valid(object) {
                NapiStatus::InvalidArg
            } else if old(self)@.values[object as int] is Object {
                NapiStatus::Success
            } else {
                NapiStatus::ObjectExpected
            }),
            r.0 != NapiStatus::Success ==> final(self)@ == old(self)@.fail(r.0),
            r.0 == NapiStatus::Success ==> {
                let props = old(self)@.values[object as int]->Object_0;
                let i = find_property(props, name@, 0);
                if i < props.len() {
                    r.1 == props[i].1 && final(self)@ == old(self)@.pass()
                } else {
                    r.1 == old(self)@.values.len() && final(self)@ == old(self)@.create(
                        HostValueView::Undefined,
                    )
                }
            },
    {
        if object >= self.values.len() {
            return (self.refuse(NapiStatus::InvalidArg), 0);
        }
        let key = String::from_str(name);
        match &self.values[object] {
            HostValue::Object(props) => {
                let ghost before = properties_view(props@);
                let n = props.len();
                let mut i: usize = 0;
                while i < n
                    invariant
                        n == props@.len(),
                        0 <= i <= n,
                        properties_view(props@) == before,
                        key@ == name@,
                        find_property(before, name@, 0) == find_property(before, name@, i as int),
                        *self == *old(self),
                        old(self)@.valid(object),
                        old(self)@.values[object as int] == HostValueView::Object(before),
                    decreases n - i,
                {
                    if props[i].name == key {
                        let h = props[i].value;
                        return (self.succeed(), h);
                    }
                    i = i + 1;
                }
            },
            _ => {
                return (self.refuse(NapiStatus::ObjectExpected), 0);
            },
        }
        let h = self.allocate(HostValue::Undefined);
        (NapiStatus::Success, h)
    }

    /// The native data of an external value.
    pub(crate) fn raw_get_value_external(&mut self, value: NapiValue) -> (r: (NapiStatus, usize))
        ensures
            final(self)@ == old(self)@.after(r.0),
            r.0 == (if old(self)@.valid(value) && old(self)@.values[value as int] is External {
                NapiStatus::Success
            } else {
                NapiStatus::InvalidArg
            }),
            r.0 == NapiStatus::Success ==> old(self)@.values[value as int]
                == HostValueView::External(r.1),
    {
        if value >= self.values.len() {
            return (self.refuse(NapiStatus::InvalidArg), 0);
        }
        match &self.values[value] {
            HostValue::External(data) => {
                let data = *data;
                (self.succeed(), data)
            },
            _ => (self.refuse(NapiStatus::InvalidArg), 0),
        }
    }

    /// The handle of the global object, which is created when it is first
    /// asked for.
    pub(crate) fn raw_get_global(&mut self) -> (h: NapiValue)
        ensures
            match old(self)@.global {
                Some(g) => h == g && final(self)@ == old(self)@.pass(),
                None => h == old(self)@.values.len() && final(self)@ == (HostState {
                    global: Some(h),
                    ..old(self)@.create(HostValueView::Object(Seq::empty()))
                }),
            },
    {
        match self.global {
            Some(g) => {
                self.last_error = None;
                g
            },
            None => {
                let object = HostValue::Object(Vec::new());
                assert(object@ == HostValueView::Object(Seq::empty())) by {
                    assert(properties_view(Seq::<Property>::empty()) =~= Seq::empty());
                }
                let h = self.allocate(object);
                self.global = Some(h);
                h
            },
        }
    }

    /// Creates an array of `length` holes.
    pub(crate) fn raw_create_array(&mut self, length: usize) -> (h: NapiValue)
        ensures
            h == old(self)@.values.len(),
            final(self)@ == old(self)@.create(
                HostValueView::Array(Seq::new(length as nat, |k: int| None::<NapiValue>)),
            ),
    {
        let mut elements: Vec<Option<NapiValue>> = Vec::new();
        while elements.len() < length
            invariant
                elements@.len() <= length,
                elements@ == Seq::new(elements@.len(), |k: int| None::<NapiValue>),
            decreases length - elements@.len(),
        {
            elements.push(None);
            assert(elements@ =~= Seq::new(elements@.len(), |k: int| None::<NapiValue>));
        }
        self.allocate(HostValue::Array(elements))
    }

    /// Calls a host function. The call is recorded; what the host's function
    /// computes is not modelled, and its result is a new undefined value.
    pub(crate) fn raw_call_function(
        &mut self,
        recv: NapiValue,
        func: NapiValue,
        args: &[NapiValue],
    ) -> (r: (NapiStatus, NapiValue))
        ensures
            r.0 == old(self)@.call_status(recv, func, args@),
            r.0 != NapiStatus::Success ==> final(self)@ == old(self)@.fail(r.0),
            r.0 == NapiStatus::Success ==> r.1 == old(self)@.values.len() && final(self)@
                == old(self)@.called(recv, func, args@),
    {
        if self.exception.is_some() {
            return (self.refuse(NapiStatus::PendingException), 0);
        }
        if recv >= self.values.len() || func >= self.values.len() {
            return (self.refuse(NapiStatus::InvalidArg), 0);
        }
        match &self.values[func] {
            HostValue::Function { .. } => {},
            _ => {
                return (self.refuse(NapiStatus::FunctionExpected), 0);
            },
        }
        let mut copy: Vec<NapiValue> = Vec::new();
        let mut i: usize = 0;
        while i < args.len()
            invariant
                0 <= i <= args@.len(),
                copy@ == args@.subrange(0, i as int),
                forall|k: int| 0 <= k < i ==> old(self)@.valid(#[trigger] args@[k]),
                self.values@.len() == old(self)@.values.len(),
                *self == *old(self),
                old(self)@.exception is None,
                old(self)@.valid(recv),
                old(self)@.valid(func),
                old(self)@.values[func as int] is Function,
            decreases args@.len() - i,
        {
            if args[i] >= self.values.len() {
                return (self.refuse(NapiStatus::InvalidArg), 0);
            }
            copy.push(args[i]);
            assert(copy@ =~= args@.subrange(0, i as int + 1));
            i = i + 1;
        }
        assert(copy@ =~= args@);
        self.calls.push(CallRecord { func, recv, args: copy });
        let h = self.allocate(HostValue::Undefined);
        assert(self@.calls =~= old(self)@.calls.push(CallView { func, recv, args: args@ }));
        (NapiStatus::Success, h)
    }

    /// Throws an error into the host. While one is pending no other can be
    /// thrown.
    pub(crate) fn raw_throw(&mut self, error: NapiError) -> (status: NapiStatus)
        ensures
            status == (if old(self)@.exception is None {
                NapiStatus::Success
            } else {
                NapiStatus::PendingException
            }),
            status != NapiStatus::Success ==> final(self)@ == old(self)@.fail(status),
            status == NapiStatus::Success ==> final(self)@ == old(self)@.thrown(error@),
    {
        if self.exception.is_some() {
            return self.refuse(NapiStatus::PendingException);
        }
        self.exception = Some(error);
        self.last_error = None;
        NapiStatus::Success
    }

    /// Whether slot `slot` holds native data that the host has not
    /// reclaimed.
    pub fn slot_attached(&self, slot: usize) -> (b: bool)
        ensures
            b == self@.attached(slot),
    {
        slot < self.slots.len() && self.slots[slot] == SlotState::Attached
    }

    /// Registers a piece of native data as owned by the host and returns
    /// its slot number.
    pub(crate) fn raw_attach(&mut self) -> (slot: usize)
        ensures
            slot == old(self)@.slots.len(),
            final(self)@ == (HostState {
                slots: old(self)@.slots.push(SlotState::Attached),
                ..old(self)@
            }),
    {
        let slot = self.slots.len();
        self.slots.push(SlotState::Attached);
        slot
    }

    /// Runs the host's finalizer on a slot. Only attached data can be
    /// released; the answer says whether it was.
    pub(crate) fn raw_release(&mut self, slot: usize) -> (released: bool)
        ensures
            released == old(self)@.attached(slot),
            released ==> final(self)@ == (HostState {
                slots: old(self)@.slots.update(slot as int, SlotState::Released),
                ..old(self)@
            }),
            !released ==> final(self)@ == old(self)@,
    {
        if slot < self.slots.len() && self.slots[slot] == SlotState::Attached {
            self.slots.set(slot, SlotState::Released);
            true
        } else {
            false
        }
    }

    /// Registers a piece of asynchronous work and returns its number.
    pub(crate) fn raw_create_work(&mut self) -> (work: usize)
        ensures
            work == old(self)@.works.len(),
            final(self)@ == (HostState {
                works: old(self)@.works.push(
                    AsyncWork {
                        state: AsyncState::Created,
                        settled: None,
                        registered: None,
                        fired: false,
                    },
                ),
                last_error: None,
                ..old(self)@
            }),
    {
        let work = self.works.len();
        self.works.push(
            AsyncWork { state: AsyncState::Created, settled: None, registered: None, fired: false },
        );
        self.last_error = None;
        work
    }

    /// What the host knows of a piece of asynchronous work.
    pub(crate) fn raw_work(&self, work: usize) -> (r: Option<AsyncWork>)
        ensures
            r == (if work < self@.works.len() {
                Some(self@.works[work as int])
            } else {
                None
            }),
    {
        if work < self.works.len() {
            Some(self.works[work])
        } else {
            None
        }
    }

    /// Replaces what the host knows of a piece of asynchronous work.
    pub(crate) fn raw_set_work(&mut self, work: usize, record: AsyncWork)
        requires
            work < old(self)@.works.len(),
        ensures
            final(self)@ == (HostState {
                works: old(self)@.works.update(work as int, record),
                last_error: None,
                ..old(self)@
            }),
    {
        self.works.set(work, record);
        self.last_error = None;
    }

    /// The number of the asynchronous work that the state of a thenable
    /// names.
    pub(crate) fn raw_get_async_state(&mut self, value: NapiValue) -> (r: (NapiStatus, usize))
        ensures
            final(self)@ == old(self)@.after(r.0),
            r.0 == (if old(self)@.valid(value) && old(self)@.values[value as int] is AsyncState {
                NapiStatus::Success
            } else {
                NapiStatus::InvalidArg
            }),
            r.0 == NapiStatus::Success ==> old(self)@.values[value as int]
                == HostValueView::AsyncState(r.1),
    {
        if value >= self.values.len() {
            return (self.refuse(NapiStatus::InvalidArg), 0);
        }
        match &self.values[value] {
            HostValue::AsyncState(work) => {
                let work = *work;
                (self.succeed(), work)
            },
            _ => (self.refuse(NapiStatus::InvalidArg), 0),
        }
    }

    /// Records the registration of a module.
    pub(crate) fn raw_register_module(&mut self, module: NapiModule)
        ensures
            final(self)@ == (HostState {
                modules: old(self)@.modules.push(module@),
                last_error: None,
                ..old(self)@
            }),
    {
        self.modules.push(module);
        self.last_error = None;
        assert(self@.modules =~= old(self)@.modules.push(module@));
    }

    /// The status with which native data can be wrapped into `object`: it
    /// must be an object that nothing was wrapped into before.
    pub(crate) fn raw_wrap(&mut self, object: NapiValue) -> (r: (NapiStatus, NapiRef, usize))
        ensures
            r.0 == old(self)@.wrap_status(object),
            r.0 != NapiStatus::Success ==> final(self)@ == old(self)@.fail(r.0),
            r.0 == NapiStatus::Success ==> {
                &&& r.1 == old(self)@.wraps.len()
                &&& r.2 == old(self)@.slots.len()
                &&& final(self)@ == old(self)@.wrapped(object)
            },
    {
        if object >= self.values.len() {
            return (self.refuse(NapiStatus::InvalidArg), 0, 0);
        }
        match &self.values[object] {
            HostValue::Object(_) => {},
            _ => {
                return (self.refuse(NapiStatus::ObjectExpected), 0, 0);
            },
        }
        let (found, _) = self.wrap_of(object);
        if found {
            return (self.refuse(NapiStatus::InvalidArg), 0, 0);
        }
        let slot = self.slots.len();
        self.slots.push(SlotState::Attached);
        let reference = self.wraps.len();
        self.wraps.push((object, slot));
        self.last_error = None;
        (NapiStatus::Success, reference, slot)
    }

    /// The slot of the native data that was wrapped into `object`, if any
    /// was.
    pub(crate) fn wrap_of(&self, object: NapiValue) -> (r: (bool, usize))
        ensures
            ({
                let i = find_wrap(self@.wraps, object, 0);
                &&& r.0 == (i < self@.wraps.len())
                &&& r.0 ==> r.1 == self@.wraps[i].1
            }),
    {
        let n = self.wraps.len();
        let mut i: usize = 0;
        while i < n
            invariant
                n == self.wraps@.len(),
                0 <= i <= n,
                find_wrap(self@.wraps, object, 0) == find_wrap(self@.wraps, object, i as int),
            decreases n - i,
        {
            if self.wraps[i].0 == object {
                return (true, self.wraps[i].1);
            }
            i = i + 1;
        }
        (false, 0)
    }

    /// The names of the properties of an object, in the order in which they
    /// were first written.
    pub(crate) fn raw_get_property_names(&mut self, object: NapiValue) -> (r: (
        NapiStatus,
        Vec<String>,
    ))
        ensures
            final(self)@ == old(self)@.after(r.0),
            r.0 == (if !old(self)@.valid(object) {
                NapiStatus::InvalidArg
            } else if old(self)@.values[object as int] is Object {
                NapiStatus::Success
            } else {
                NapiStatus::ObjectExpected
            }),
            r.0 == NapiStatus::Success ==> names_view(r.1@) == property_names(
                old(self)@.values[object as int]->Object_0,
            ),
    {
        if object >= self.values.len() {
            return (self.refuse(NapiStatus::InvalidArg), Vec::new());
        }
        let mut names: Vec<String> = Vec::new();
        match &self.values[object] {
            HostValue::Object(props) => {
                let mut i: usize = 0;
                while i < props.len()
                    invariant
                        0 <= i <= props@.len(),
                        names@.len() == i,
                        forall|k: int| 0 <= k < i ==> (#[trigger] names@[k])@ == props@[k].name@,
                    decreases props@.len() - i,
                {
                    names.push(props[i].name.clone());
                    i = i + 1;
                }
                assert(names_view(names@) =~= property_names(properties_view(props@)));
            },
            _ => {
                return (self.refuse(NapiStatus::ObjectExpected), Vec::new());
            },
        }
        (self.succeed(), names)
    }

    /// Whether an object has a property of the given name.
    pub(crate) fn raw_has_named_property(&mut self, object: NapiValue, name: &str) -> (r: (
        NapiStatus,
        bool,
    ))
        ensures
            final(self)@ == old(self)@.after(r.0),
            r.0 == (if !old(self)@.valid(object) {
                NapiStatus::InvalidArg
            } else if old(self)@.values[object as int] is Object {
                NapiStatus::Success
            } else {
                NapiStatus::ObjectExpected
            }),
            r.0 == NapiStatus::Success ==> r.1 == (find_property(
                old(self)@.values[object as int]->Object_0,
                name@,
                0,
            ) < old(self)@.values[object as int]->Object_0.len()),
    {
        if object >= self.values.len() {
            return (self.refuse(NapiStatus::InvalidArg), false);
        }
        let key = String::from_str(name);
        match &self.values[object] {
            HostValue::Object(props) => {
                let ghost before = properties_view(props@);
                let n = props.len();
                let mut i: usize = 0;
                while i < n
                    invariant
                        n == props@.len(),
                        0 <= i <= n,
                        properties_view(props@) == before,
                        key@ == name@,
                        find_property(before, name@, 0) == find_property(before, name@, i as int),
                        *self == *old(self),
                        old(self)@.valid(object),
                        old(self)@.values[object as int] == HostValueView::Object(before),
                    decreases n - i,
                {
                    if props[i].name == key {
                        return (self.succeed(), true);
                    }
                    i = i + 1;
                }
            },
            _ => {
                return (self.refuse(NapiStatus::ObjectExpected), false);
            },
        }
        (self.succeed(), false)
    }
}

} // verus!
