//! The operations of the host, each answered with a value or with the error
//! that the host recorded.

use vstd::prelude::*;
use vstd::utf8::{encode_utf8, valid_utf8};
use crate::error::{ExtendedErrorInfo, ExtendedErrorInfoView, NapiError, NapiErrorType, NapiErrorView, NapiStatus};
use crate::error::{error_of_info, make_generic_napi_error, plain_error, result_view};
use crate::host::{HostState, HostValue, HostValueView, NapiEnv, NapiModule, NapiModuleView, NapiValue};
use crate::host::{NapiValueType, Property};
use crate::host::{find_property, host_error, names_view, properties_view, property_names};
use crate::host::{write_element, write_property};
use crate::number::Double;
use crate::text::{contains_nul, decimal, decimal_string, has_nul};

verus! {

/// The error reported for a failed operation, given the host's record of
/// it: the record as an error, or a `GenericFailure` where the host kept
/// none.
pub open spec fn reported_error(last: Option<ExtendedErrorInfoView>) -> NapiErrorView {
    match last {
        Some(info) => error_of_info(info),
        None => plain_error(NapiErrorType::GenericFailure, "error fetching last napi error"@),
    }
}

/// The host's record of the last failed operation, or `GenericFailure`
/// where it keeps none.
pub fn get_last_error_info(env: &NapiEnv) -> (r: Result<ExtendedErrorInfo, NapiStatus>)
    ensures
        match r {
            Ok(info) => env@.last_error == Some(info@),
            Err(status) => env@.last_error is None && status == NapiStatus::GenericFailure,
        },
{
    match env.last_error_info() {
        Some(info) => Ok(info),
        None => Err(NapiStatus::GenericFailure),
    }
}

/// The last failed operation as an error, or the kind of the failure to
/// fetch it.
pub fn get_last_napi_error(env: &NapiEnv) -> (r: Result<NapiError, NapiErrorType>)
    ensures
        match r {
            Ok(e) => env@.last_error matches Some(info) && e@ == error_of_info(info),
            Err(kind) => env@.last_error is None && kind == NapiErrorType::GenericFailure,
        },
{
    match get_last_error_info(env) {
        Ok(info) => Ok(NapiError::from_error_info(info)),
        Err(status) => Err(NapiErrorType::from(status)),
    }
}

/// Turns the status of a host operation into a result: the value where the
/// status is success, else the error that the host recorded.
pub fn napi_either<T>(env: &NapiEnv, status: NapiStatus, val: T) -> (r: Result<T, NapiError>)
    ensures
        match r {
            Ok(v) => status == NapiStatus::Success && v == val,
            Err(e) => status != NapiStatus::Success && e@ == reported_error(env@.last_error),
        },
{
    match status {
        NapiStatus::Success => Ok(val),
        _ => match get_last_napi_error(env) {
            Ok(e) => Err(e),
            Err(_) => Err(make_generic_napi_error("error fetching last napi error")),
        },
    }
}

/// The outcome of a host operation that ended with `status`, changed
/// nothing but the record of the last operation, and on success gave `val`.
pub open spec fn answer<T>(st: HostState, status: NapiStatus, val: T) -> (
    HostState,
    Result<T, NapiErrorView>,
) {
    if status == NapiStatus::Success {
        (st.pass(), Ok(val))
    } else {
        (st.fail(status), Err(host_error(status)))
    }
}

/// The outcome of creating the value `v`: its handle is the old length of
/// the table.
pub open spec fn created(st: HostState, v: HostValueView) -> (HostState, Result<NapiValue, NapiErrorView>) {
    (st.create(v), Ok(st.values.len() as usize))
}

/// The outcome of an operation that was refused before the host was asked.
pub open spec fn refused<T>(st: HostState, e: NapiErrorView) -> (HostState, Result<T, NapiErrorView>) {
    (st, Err(e))
}

/// The error for text that holds a zero byte.
pub open spec fn nul_error() -> NapiErrorView {
    plain_error(NapiErrorType::GenericFailure, "string must not contain 0 byte"@)
}

/// The status with which reading the value at `h` ends, where `fits` says
/// whether the value has the type that is asked for and `wrong` is the
/// status for one that has not.
pub open spec fn read_status(st: HostState, h: NapiValue, fits: bool, wrong: NapiStatus) -> NapiStatus {
    if !st.valid(h) {
        NapiStatus::InvalidArg
    } else if fits {
        NapiStatus::Success
    } else {
        wrong
    }
}

/// The mathematical content of a fallible result that holds text.
pub open spec fn text_result_view(r: Result<String, NapiError>) -> Result<Seq<char>, NapiErrorView> {
    match r {
        Ok(s) => Ok(s@),
        Err(e) => Err(e@),
    }
}

/// A handle to a new undefined value.
pub fn get_undefined(env: &mut NapiEnv) -> (r: Result<NapiValue, NapiError>)
    ensures
        (final(env)@, result_view(r)) == created(old(env)@, HostValueView::Undefined),
{
    let napi_val = env.allocate(HostValue::Undefined);
    napi_either(env, NapiStatus::Success, napi_val)
}

/// A handle to a new null value.
pub fn get_null(env: &mut NapiEnv) -> (r: Result<NapiValue, NapiError>)
    ensures
        (final(env)@, result_view(r)) == created(old(env)@, HostValueView::Null),
{
    let napi_val = env.allocate(HostValue::Null);
    napi_either(env, NapiStatus::Success, napi_val)
}

/// What [`get_global`] does: the global object is created when it is first
/// asked for, and the same handle is given from then on.
pub open spec fn get_global_spec(st: HostState) -> (HostState, Result<NapiValue, NapiErrorView>) {
    match st.global {
        Some(g) => (st.pass(), Ok(g)),
        None => (
            HostState {
                global: Some(st.values.len() as usize),
                ..st.create(HostValueView::Object(Seq::empty()))
            },
            Ok(st.values.len() as usize),
        ),
    }
}

/// The handle of the global object.
pub fn get_global(env: &mut NapiEnv) -> (r: Result<NapiValue, NapiError>)
    ensures
        (final(env)@, result_view(r)) == get_global_spec(old(env)@),
{
    let napi_val = env.raw_get_global();
    napi_either(env, NapiStatus::Success, napi_val)
}

/// A handle to a new boolean value.
pub fn get_boolean(env: &mut NapiEnv, value: bool) -> (r: Result<NapiValue, NapiError>)
    ensures
        (final(env)@, result_view(r)) == created(old(env)@, HostValueView::Boolean(value)),
{
    let napi_val = env.allocate(HostValue::Boolean(value));
    napi_either(env, NapiStatus::Success, napi_val)
}

/// A handle to a new object without properties.
pub fn create_object(env: &mut NapiEnv) -> (r: Result<NapiValue, NapiError>)
    ensures
        (final(env)@, result_view(r)) == created(old(env)@, HostValueView::Object(Seq::empty())),
{
    let object = HostValue::Object(Vec::new());
    assert(object@ == HostValueView::Object(Seq::empty())) by {
        assert(properties_view(Seq::<Property>::empty()) =~= Seq::empty());
    }
    let napi_val = env.allocate(object);
    napi_either(env, NapiStatus::Success, napi_val)
}

/// A handle to a new array without elements.
pub fn create_array(env: &mut NapiEnv) -> (r: Result<NapiValue, NapiError>)
    ensures
        (final(env)@, result_view(r)) == created(old(env)@, HostValueView::Array(Seq::empty())),
{
    let napi_val = env.raw_create_array(0);
    assert(Seq::new(0, |k: int| None::<NapiValue>) =~= Seq::empty());
    napi_either(env, NapiStatus::Success, napi_val)
}

/// An array of `size` holes.
pub open spec fn holes(size: nat) -> HostValueView {
    HostValueView::Array(Seq::new(size, |k: int| None::<NapiValue>))
}

/// A handle to a new array of `size` holes.
pub fn array_with_length(env: &mut NapiEnv, size: usize) -> (r: Result<NapiValue, NapiError>)
    ensures
        (final(env)@, result_view(r)) == created(old(env)@, holes(size as nat)),
{
    let napi_val = env.raw_create_array(size);
    napi_either(env, NapiStatus::Success, napi_val)
}

/// A handle to a new number.
pub fn create_number(env: &mut NapiEnv, value: Double) -> (r: Result<NapiValue, NapiError>)
    ensures
        (final(env)@, result_view(r)) == created(old(env)@, HostValueView::Number(value.bits)),
{
    let napi_val = env.allocate(HostValue::Number(value.to_bits()));
    napi_either(env, NapiStatus::Success, napi_val)
}

/// What [`create_string_utf8`] does. Text that holds a zero byte cannot be
/// handed to the host: it is refused and the host is not touched.
pub open spec fn create_string_spec(st: HostState, val: Seq<char>) -> (
    HostState,
    Result<NapiValue, NapiErrorView>,
) {
    if has_nul(encode_utf8(val)) {
        refused(st, nul_error())
    } else {
        created(st, HostValueView::String(val))
    }
}

/// A handle to a new string with the text of `val`.
pub fn create_string_utf8(env: &mut NapiEnv, val: &str) -> (r: Result<NapiValue, NapiError>)
    ensures
        (final(env)@, result_view(r)) == create_string_spec(old(env)@, val@),
{
    if contains_nul(val) {
        return Err(NapiError::from_nul_error());
    }
    let napi_val = env.allocate(HostValue::String(String::from_str(val)));
    napi_either(env, NapiStatus::Success, napi_val)
}

/// What [`type_of`] does.
pub open spec fn type_of_spec(st: HostState, h: NapiValue) -> (
    HostState,
    Result<NapiValueType, NapiErrorView>,
) {
    answer(st, read_status(st, h, true, NapiStatus::InvalidArg), st.values[h as int].type_tag())
}

/// The type tag of a value.
pub fn type_of(env: &mut NapiEnv, napi_value: NapiValue) -> (r: Result<NapiValueType, NapiError>)
    ensures
        (final(env)@, result_view(r)) == type_of_spec(old(env)@, napi_value),
{
    let (status, napi_value_type) = env.raw_typeof(napi_value);
    napi_either(env, status, napi_value_type)
}

/// What [`get_value_double`] does.
pub open spec fn get_value_double_spec(st: HostState, h: NapiValue) -> (
    HostState,
    Result<Double, NapiErrorView>,
) {
    answer(
        st,
        read_status(st, h, st.values[h as int] is Number, NapiStatus::NumberExpected),
        Double { bits: st.values[h as int]->Number_0 },
    )
}

/// The number that a value holds.
pub fn get_value_double(env: &mut NapiEnv, value: NapiValue) -> (r: Result<Double, NapiError>)
    ensures
        (final(env)@, result_view(r)) == get_value_double_spec(old(env)@, value),
{
    let (status, bits) = env.raw_get_value_number(value);
    napi_either(env, status, Double::from_bits(bits))
}

/// What [`get_value_uint32`] does: the number is rounded toward zero and
/// reduced modulo two to the 32.
pub open spec fn get_value_uint32_spec(st: HostState, h: NapiValue) -> (
    HostState,
    Result<u32, NapiErrorView>,
) {
    answer(
        st,
        read_status(st, h, st.values[h as int] is Number, NapiStatus::NumberExpected),
        (Double { bits: st.values[h as int]->Number_0 }).to_u32_spec(),
    )
}

/// The number that a value holds, as an unsigned 32-bit integer.
pub fn get_value_uint32(env: &mut NapiEnv, value: NapiValue) -> (r: Result<u32, NapiError>)
    ensures
        (final(env)@, result_view(r)) == get_value_uint32_spec(old(env)@, value),
{
    let (status, bits) = env.raw_get_value_number(value);
    napi_either(env, status, Double::from_bits(bits).to_u32())
}

/// What [`get_value_int32`] does: the number is rounded toward zero and
/// reduced to the low 32 bits, read as a signed integer.
pub open spec fn get_value_int32_spec(st: HostState, h: NapiValue) -> (
    HostState,
    Result<i32, NapiErrorView>,
) {
    answer(
        st,
        read_status(st, h, st.values[h as int] is Number, NapiStatus::NumberExpected),
        (Double { bits: st.values[h as int]->Number_0 }).to_i32_spec(),
    )
}

/// The number that a value holds, as a signed 32-bit integer.
pub fn get_value_int32(env: &mut NapiEnv, value: NapiValue) -> (r: Result<i32, NapiError>)
    ensures
        (final(env)@, result_view(r)) == get_value_int32_spec(old(env)@, value),
{
    let (status, bits) = env.raw_get_value_number(value);
    napi_either(env, status, Double::from_bits(bits).to_i32())
}

/// What [`get_value_int64`] does: the number is rounded toward zero and held
/// to the range of the type; an infinity or a NaN gives 0.
pub open spec fn get_value_int64_spec(st: HostState, h: NapiValue) -> (
    HostState,
    Result<i64, NapiErrorView>,
) {
    answer(
        st,
        read_status(st, h, st.values[h as int] is Number, NapiStatus::NumberExpected),
        (Double { bits: st.values[h as int]->Number_0 }).to_i64_spec(),
    )
}

/// The number that a value holds, as a 64-bit integer.
pub fn get_value_int64(env: &mut NapiEnv, value: NapiValue) -> (r: Result<i64, NapiError>)
    ensures
        (final(env)@, result_view(r)) == get_value_int64_spec(old(env)@, value),
{
    let (status, bits) = env.raw_get_value_number(value);
    napi_either(env, status, Double::from_bits(bits).to_i64())
}

/// What [`get_value_bool`] does.
pub open spec fn get_value_bool_spec(st: HostState, h: NapiValue) -> (
    HostState,
    Result<bool, NapiErrorView>,
) {
    answer(
        st,
        read_status(st, h, st.values[h as int] is Boolean, NapiStatus::BooleanExpected),
        st.values[h as int]->Boolean_0,
    )
}

/// The boolean that a value holds.
pub fn get_value_bool(env: &mut NapiEnv, value: NapiValue) -> (r: Result<bool, NapiError>)
    ensures
        (final(env)@, result_view(r)) == get_value_bool_spec(old(env)@, value),
{
    let (status, result) = env.raw_get_value_bool(value);
    napi_either(env, status, result)
}

/// `String::from_utf8` of std: the string whose UTF-8 form is `bytes`, or
/// nothing where `bytes` is not UTF-8.
#[verifier::external_body]
fn string_from_utf8(bytes: Vec<u8>) -> (r: Option<String>)
    ensures
        r is Some <==> valid_utf8(bytes@),
        r matches Some(s) ==> encode_utf8(s@) == bytes@,
{
    match String::from_utf8(bytes) {
        Ok(s) => Some(s),
        Err(_) => None,
    }
}

/// The message for a string whose copy came out with another length than
/// the host had announced.
pub open spec fn mismatch_message(size: nat, written: nat) -> Seq<char> {
    "buffer size mismatch, expected "@ + decimal(size) + ", got "@ + decimal(written)
}

/// The error for a string whose copy came out with another length than the
/// host had announced.
pub fn buffer_size_mismatch(size: usize, written: usize) -> (e: NapiError)
    ensures
        e@ == plain_error(NapiErrorType::GenericFailure, mismatch_message(size as nat, written as nat)),
{
    let mut message = String::from_str("buffer size mismatch, expected ");
    message.append(decimal_string(size).as_str());
    message.append(", got ");
    message.append(decimal_string(written).as_str());
    NapiError {
        error_message: message,
        engine_error_code: 0,
        error_code: NapiErrorType::GenericFailure,
    }
}

/// What [`get_value_string_utf8`] does. A string of `usize::MAX` bytes
/// leaves no room for the terminator in the buffer: its copy comes out one
/// byte short and is refused as a mismatch.
pub open spec fn get_value_string_spec(st: HostState, h: NapiValue) -> (
    HostState,
    Result<Seq<char>, NapiErrorView>,
) {
    let status = read_status(st, h, st.values[h as int] is String, NapiStatus::StringExpected);
    if status != NapiStatus::Success {
        (st.fail(status), Err(host_error(status)))
    } else if encode_utf8(st.values[h as int]->String_0).len() == usize::MAX {
        (
            st.pass(),
            Err(
                plain_error(
                    NapiErrorType::GenericFailure,
                    mismatch_message(usize::MAX as nat, (usize::MAX - 1) as nat),
                ),
            ),
        )
    } else {
        (st.pass(), Ok(st.values[h as int]->String_0))
    }
}

/// The text of the string that a value holds.
///
/// The host is first asked for the length of the UTF-8 form, then for the
/// bytes, into a buffer with one more place for the terminator.
pub fn get_value_string_utf8(env: &mut NapiEnv, value: NapiValue) -> (r: Result<String, NapiError>)
    ensures
        (final(env)@, text_result_view(r)) == get_value_string_spec(old(env)@, value),
{
    // obtain string length in bytes to determine buffer size
    let (size_status, size) = env.raw_string_length(value);
    match napi_either(env, size_status, size) {
        Err(e) => {
            return Err(e);
        },
        Ok(_) => {},
    }
    let ghost text = old(env)@.values[value as int]->String_0;
    let bufsize = if size < usize::MAX {
        size + 1
    } else {
        size
    };
    let mut buffer: Vec<u8> = Vec::with_capacity(bufsize);
    let (status, written) = env.raw_string_copy(value, &mut buffer, bufsize);
    if written == size {
        assert(buffer@ =~= encode_utf8(text));
        proof {
            vstd::utf8::encode_utf8_valid_utf8(text);
            vstd::utf8::encode_utf8_decode_utf8(text);
        }
        match string_from_utf8(buffer) {
            Some(s) => {
                proof {
                    vstd::utf8::encode_utf8_decode_utf8(s@);
                }
                napi_either(env, status, s)
            },
            None => Err(NapiError::from_utf8_error()),
        }
    } else {
        Err(buffer_size_mismatch(size, written))
    }
}

/// What [`set_named_property`] does. A name that holds a zero byte is
/// refused and the host is not touched.
pub open spec fn set_named_property_spec(
    st: HostState,
    target: NapiValue,
    name: Seq<char>,
    value: NapiValue,
) -> (HostState, Result<(), NapiErrorView>) {
    if has_nul(encode_utf8(name)) {
        refused(st, nul_error())
    } else if !st.valid(target) || !st.valid(value) {
        answer(st, NapiStatus::InvalidArg, ())
    } else if st.values[target as int] is Object {
        (
            st.store(
                target,
                HostValueView::Object(write_property(st.values[target as int]->Object_0, name, value)),
            ),
            Ok(()),
        )
    } else {
        answer(st, NapiStatus::ObjectExpected, ())
    }
}

/// Writes the property `name` of the object `target`.
pub fn set_named_property(env: &mut NapiEnv, target: NapiValue, name: &str, value: NapiValue) -> (r:
    Result<(), NapiError>)
    ensures
        (final(env)@, result_view(r)) == set_named_property_spec(old(env)@, target, name@, value),
{
    if contains_nul(name) {
        return Err(NapiError::from_nul_error());
    }
    let status = env.raw_set_named_property(target, name, value);
    napi_either(env, status, ())
}

/// What [`get_named_property`] does. A property that was never written
/// reads as a new undefined value. A name that holds a zero byte is refused
/// and the host is not touched.
pub open spec fn get_named_property_spec(st: HostState, object: NapiValue, name: Seq<char>) -> (
    HostState,
    Result<NapiValue, NapiErrorView>,
) {
    if has_nul(encode_utf8(name)) {
        refused(st, nul_error())
    } else if !st.valid(object) {
        answer(st, NapiStatus::InvalidArg, 0usize)
    } else if st.values[object as int] is Object {
        let props = st.values[object as int]->Object_0;
        let i = find_property(props, name, 0);
        if i < props.len() {
            (st.pass(), Ok(props[i].1))
        } else {
            created(st, HostValueView::Undefined)
        }
    } else {
        answer(st, NapiStatus::ObjectExpected, 0usize)
    }
}

/// Reads the property `name` of `object`.
pub fn get_named_property(env: &mut NapiEnv, object: NapiValue, name: &str) -> (r: Result<
    NapiValue,
    NapiError,
>)
    ensures
        (final(env)@, result_view(r)) == get_named_property_spec(old(env)@, object, name@),
{
    if contains_nul(name) {
        return Err(NapiError::from_nul_error());
    }
    let (status, result) = env.raw_get_named_property(object, name);
    napi_either(env, status, result)
}

/// What [`has_named_property`] does. A name that holds a zero byte is
/// refused and the host is not touched.
pub open spec fn has_named_property_spec(st: HostState, object: NapiValue, name: Seq<char>) -> (
    HostState,
    Result<bool, NapiErrorView>,
) {
    if has_nul(encode_utf8(name)) {
        refused(st, nul_error())
    } else {
        answer(
            st,
            read_status(st, object, st.values[object as int] is Object, NapiStatus::ObjectExpected),
            find_property(st.values[object as int]->Object_0, name, 0)
                < st.values[object as int]->Object_0.len(),
        )
    }
}

/// Whether `object` has a property named `name`.
pub fn has_named_property(env: &mut NapiEnv, object: NapiValue, name: &str) -> (r: Result<
    bool,
    NapiError,
>)
    ensures
        (final(env)@, result_view(r)) == has_named_property_spec(old(env)@, object, name@),
{
    if contains_nul(name) {
        return Err(NapiError::from_nul_error());
    }
    let (status, result) = env.raw_has_named_property(object, name);
    napi_either(env, status, result)
}

/// What [`get_property_names`] does.
pub open spec fn get_property_names_spec(st: HostState, object: NapiValue) -> (
    HostState,
    Result<Seq<Seq<char>>, NapiErrorView>,
) {
    answer(
        st,
        read_status(st, object, st.values[object as int] is Object, NapiStatus::ObjectExpected),
        property_names(st.values[object as int]->Object_0),
    )
}

/// The names of the properties of an object, in the order in which they were
/// first written.
pub fn get_property_names(env: &mut NapiEnv, object: NapiValue) -> (r: Result<Vec<String>, NapiError>)
    ensures
        final(env)@ == get_property_names_spec(old(env)@, object).0,
        match r {
            Ok(names) => get_property_names_spec(old(env)@, object).1 == Ok::<
                Seq<Seq<char>>,
                NapiErrorView,
            >(names_view(names@)),
            Err(e) => get_property_names_spec(old(env)@, object).1 == Err::<
                Seq<Seq<char>>,
                NapiErrorView,
            >(e@),
        },
{
    let (status, names) = env.raw_get_property_names(object);
    napi_either(env, status, names)
}

/// What [`set_element`] does. The host counts elements in 32 bits: only the
/// low 32 bits of `index` are used. An array that is too short is extended
/// with holes, one for every index up to the one that is written.
pub open spec fn set_element_spec(st: HostState, array: NapiValue, index: usize, value: NapiValue) -> (
    HostState,
    Result<(), NapiErrorView>,
) {
    if !st.valid(array) || !st.valid(value) {
        answer(st, NapiStatus::InvalidArg, ())
    } else if st.values[array as int] is Array {
        (
            st.store(
                array,
                HostValueView::Array(
                    write_element(st.values[array as int]->Array_0, (index as u32) as int, value),
                ),
            ),
            Ok(()),
        )
    } else {
        answer(st, NapiStatus::ArrayExpected, ())
    }
}

/// Writes the element of `array` at `index`.
pub fn set_element(env: &mut NapiEnv, array: NapiValue, index: usize, value: NapiValue) -> (r:
    Result<(), NapiError>)
    ensures
        (final(env)@, result_view(r)) == set_element_spec(old(env)@, array, index, value),
{
    let status = env.raw_set_element(array, #[verifier::truncate] (index as u32), value);
    napi_either(env, status, ())
}

/// What [`get_element`] does. A hole, or an index past the end, reads as a
/// new undefined value. The host counts elements in 32 bits: only the low 32
/// bits of `index` are used.
pub open spec fn get_element_spec(st: HostState, array: NapiValue, index: usize) -> (
    HostState,
    Result<NapiValue, NapiErrorView>,
) {
    if !st.valid(array) {
        answer(st, NapiStatus::InvalidArg, 0usize)
    } else if st.values[array as int] is Array {
        let elements = st.values[array as int]->Array_0;
        let at = (index as u32) as int;
        if at < elements.len() && elements[at] is Some {
            (st.pass(), Ok(elements[at]->Some_0))
        } else {
            created(st, HostValueView::Undefined)
        }
    } else {
        answer(st, NapiStatus::ArrayExpected, 0usize)
    }
}

/// Reads the element of `array` at `index`.
pub fn get_element(env: &mut NapiEnv, array: NapiValue, index: usize) -> (r: Result<
    NapiValue,
    NapiError,
>)
    ensures
        (final(env)@, result_view(r)) == get_element_spec(old(env)@, array, index),
{
    let (status, result) = env.raw_get_element(array, #[verifier::truncate] (index as u32));
    napi_either(env, status, result)
}

/// What [`is_array`] does.
pub open spec fn is_array_spec(st: HostState, h: NapiValue) -> (HostState, Result<bool, NapiErrorView>) {
    answer(st, read_status(st, h, true, NapiStatus::InvalidArg), st.values[h as int] is Array)
}

/// Whether a value is an array.
pub fn is_array(env: &mut NapiEnv, value: NapiValue) -> (r: Result<bool, NapiError>)
    ensures
        (final(env)@, result_view(r)) == is_array_spec(old(env)@, value),
{
    let (status, result) = env.raw_is_array(value);
    napi_either(env, status, result)
}

/// What [`get_array_length`] does.
pub open spec fn get_array_length_spec(st: HostState, h: NapiValue) -> (
    HostState,
    Result<usize, NapiErrorView>,
) {
    answer(
        st,
        read_status(st, h, st.values[h as int] is Array, NapiStatus::ArrayExpected),
        st.values[h as int]->Array_0.len() as usize,
    )
}

/// The number of elements of an array.
pub fn get_array_length(env: &mut NapiEnv, value: NapiValue) -> (r: Result<usize, NapiError>)
    ensures
        (final(env)@, result_view(r)) == get_array_length_spec(old(env)@, value),
{
    let (status, result) = env.raw_get_array_length(value);
    napi_either(env, status, result)
}

/// What [`call_function`] does: the call is recorded and its result is a
/// new undefined value.
pub open spec fn call_function_spec(
    st: HostState,
    recv: NapiValue,
    func: NapiValue,
    args: Seq<NapiValue>,
) -> (HostState, Result<NapiValue, NapiErrorView>) {
    let status = st.call_status(recv, func, args);
    if status == NapiStatus::Success {
        (st.called(recv, func, args), Ok(st.values.len() as usize))
    } else {
        answer(st, status, 0usize)
    }
}

/// Calls the host function `func` on the receiver `recv`.
pub fn call_function(env: &mut NapiEnv, recv: NapiValue, func: NapiValue, args: &[NapiValue]) -> (r:
    Result<NapiValue, NapiError>)
    ensures
        (final(env)@, result_view(r)) == call_function_spec(old(env)@, recv, func, args@),
{
    let (status, result) = env.raw_call_function(recv, func, args);
    napi_either(env, status, result)
}

/// What [`throw_error`] does. While an error is pending no other can be
/// thrown: the first stays.
pub open spec fn throw_error_spec(st: HostState, error: NapiErrorView) -> (
    HostState,
    Result<(), NapiErrorView>,
) {
    if st.exception is None {
        (st.thrown(error), Ok(()))
    } else {
        answer(st, NapiStatus::PendingException, ())
    }
}

/// Throws `error` into the host.
pub fn throw_error(env: &mut NapiEnv, error: NapiError) -> (r: Result<(), NapiError>)
    ensures
        (final(env)@, result_view(r)) == throw_error_spec(old(env)@, error@),
{
    let status = env.raw_throw(error);
    napi_either(env, status, ())
}

/// What [`module_register`] does. The names go to the host as terminated
/// strings: a descriptor whose file name or module name holds a zero byte is
/// refused and nothing is registered.
pub open spec fn module_register_spec(st: HostState, module: NapiModuleView) -> (
    HostState,
    Result<(), NapiErrorView>,
) {
    if has_nul(encode_utf8(module.filename)) || has_nul(encode_utf8(module.modname)) {
        refused(st, nul_error())
    } else {
        (HostState { modules: st.modules.push(module), last_error: None, ..st }, Ok(()))
    }
}

/// Registers an extension module at the host.
pub fn module_register(env: &mut NapiEnv, mod_: NapiModule) -> (r: Result<(), NapiError>)
    ensures
        (final(env)@, result_view(r)) == module_register_spec(old(env)@, mod_@),
{
    if contains_nul(mod_.filename.as_str()) {
        return Err(NapiError::from_nul_error());
    }
    if contains_nul(mod_.modname.as_str()) {
        return Err(NapiError::from_nul_error());
    }
    env.raw_register_module(mod_);
    Ok(())
}

} // verus!
