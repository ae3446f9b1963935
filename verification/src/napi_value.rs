//! The two halves of marshaling: [`FromNapiValues`] decodes the handles of
//! an argument list into a native value, [`IntoNapiValue`] encodes a native
//! value into a handle.

use vstd::prelude::*;
use crate::error::{NapiError, NapiErrorType, NapiErrorView};
use crate::error::{make_invalid_arg_error, plain_error, result_view};
use crate::host::{HostState, HostValueView, NapiEnv, NapiValue, NapiValueType};
use crate::napi::{array_with_length, create_number, create_string_utf8, get_array_length, get_boolean};
use crate::napi::{get_element, get_undefined, get_value_bool, get_value_double, get_value_string_utf8};
use crate::napi::{get_value_int64, get_value_uint32, get_value_int64_spec, get_value_uint32_spec};
use crate::napi::{is_array, set_element, type_of};
use crate::napi::{create_string_spec, created, get_array_length_spec, get_element_spec};
use crate::napi::{get_value_bool_spec, get_value_double_spec, get_value_string_spec, holes};
use crate::napi::{is_array_spec, set_element_spec, type_of_spec};
use crate::number::{double_of, widened, Double, Single};
use crate::text::{decimal, decimal_string};

verus! {

/// The message for an argument list of the wrong length.
pub open spec fn arity_message(expected: nat, actual: nat) -> Seq<char> {
    "expected "@ + decimal(expected) + " argument, got "@ + decimal(actual)
}

/// The error for an argument list of the wrong length.
pub open spec fn arity_error(expected: nat, actual: nat) -> NapiErrorView {
    plain_error(NapiErrorType::InvalidArg, arity_message(expected, actual))
}

/// What [`check_napi_args_length`] answers for a list of `actual` handles.
pub open spec fn check_length_spec(actual: nat, expected: nat) -> Result<(), NapiErrorView> {
    if actual == expected {
        Ok(())
    } else {
        Err(arity_error(expected, actual))
    }
}

/// Accepts an argument list of exactly `expected_length` handles and
/// refuses any other with `InvalidArg`, naming both counts.
pub fn check_napi_args_length(
    _env: &NapiEnv,
    napi_values: &[NapiValue],
    expected_length: usize,
) -> (r: Result<(), NapiError>)
    ensures
        result_view(r) == check_length_spec(napi_values@.len(), expected_length as nat),
{
    let values_length = napi_values.len();
    if values_length == expected_length {
        Ok(())
    } else {
        let mut message = String::from_str("expected ");
        message.append(decimal_string(expected_length).as_str());
        message.append(" argument, got ");
        message.append(decimal_string(values_length).as_str());
        Err(make_invalid_arg_error(message))
    }
}

/// The name of a type tag as it stands in messages.
pub open spec fn tag_name(t: NapiValueType) -> Seq<char> {
    match t {
        NapiValueType::Undefined => "Undefined"@,
        NapiValueType::Null => "Null"@,
        NapiValueType::Boolean => "Boolean"@,
        NapiValueType::Number => "Number"@,
        NapiValueType::String => "String"@,
        NapiValueType::Symbol => "Symbol"@,
        NapiValueType::Object => "Object"@,
        NapiValueType::Function => "Function"@,
        NapiValueType::External => "External"@,
    }
}

/// The name of a type tag as it stands in messages.
pub fn type_text(t: NapiValueType) -> (r: &'static str)
    ensures
        r@ == tag_name(t),
{
    match t {
        NapiValueType::Undefined => "Undefined",
        NapiValueType::Null => "Null",
        NapiValueType::Boolean => "Boolean",
        NapiValueType::Number => "Number",
        NapiValueType::String => "String",
        NapiValueType::Symbol => "Symbol",
        NapiValueType::Object => "Object",
        NapiValueType::Function => "Function",
        NapiValueType::External => "External",
    }
}

/// The kind of the error for a value that has not the type `expected`: the
/// kind that names that type, or `InvalidArg` where no kind does.
pub open spec fn expected_kind(expected: NapiValueType) -> NapiErrorType {
    match expected {
        NapiValueType::Boolean => NapiErrorType::BooleanExpected,
        NapiValueType::Number => NapiErrorType::NumberExpected,
        NapiValueType::String => NapiErrorType::StringExpected,
        NapiValueType::Object => NapiErrorType::ObjectExpected,
        NapiValueType::Function => NapiErrorType::FunctionExpected,
        _ => NapiErrorType::InvalidArg,
    }
}

/// The kind of the error for a value that has not the type `expected`.
pub fn kind_for(expected: NapiValueType) -> (kind: NapiErrorType)
    ensures
        kind == expected_kind(expected),
{
    match expected {
        NapiValueType::Boolean => NapiErrorType::BooleanExpected,
        NapiValueType::Number => NapiErrorType::NumberExpected,
        NapiValueType::String => NapiErrorType::StringExpected,
        NapiValueType::Object => NapiErrorType::ObjectExpected,
        NapiValueType::Function => NapiErrorType::FunctionExpected,
        _ => NapiErrorType::InvalidArg,
    }
}

/// The message for a value of type `actual` where `expected` was asked for.
pub open spec fn type_message(expected: NapiValueType, actual: NapiValueType) -> Seq<char> {
    "expected argument to be of type "@ + tag_name(expected)
        + ", but found it to be of type "@ + tag_name(actual)
}

/// The error for a value of type `actual` where `expected` was asked for.
pub open spec fn type_error(expected: NapiValueType, actual: NapiValueType) -> NapiErrorView {
    plain_error(expected_kind(expected), type_message(expected, actual))
}

/// What [`check_napi_type`] does.
pub open spec fn check_napi_type_spec(st: HostState, expected: NapiValueType, value: NapiValue) -> (
    HostState,
    Result<(), NapiErrorView>,
) {
    let (s1, r1) = type_of_spec(st, value);
    match r1 {
        Err(e) => (s1, Err(e)),
        Ok(actual) => if actual == expected {
            (s1, Ok(()))
        } else {
            (s1, Err(type_error(expected, actual)))
        },
    }
}

/// Accepts a value whose type tag is `expected_type`. A value of another
/// type is refused with the kind that names the expected type and a message
/// that names both.
pub fn check_napi_type(env: &mut NapiEnv, expected_type: NapiValueType, value: NapiValue) -> (r:
    Result<(), NapiError>)
    ensures
        (final(env)@, result_view(r)) == check_napi_type_spec(old(env)@, expected_type, value),
{
    let value_type = match type_of(env, value) {
        Ok(t) => t,
        Err(e) => {
            return Err(e);
        },
    };
    if expected_type == value_type {
        Ok(())
    } else {
        let mut message = String::from_str("expected argument to be of type ");
        message.append(type_text(expected_type));
        message.append(", but found it to be of type ");
        message.append(type_text(value_type));
        Err(
            NapiError {
                error_message: message,
                engine_error_code: 0,
                error_code: kind_for(expected_type),
            },
        )
    }
}

/// The error of a fallible outcome, if it is one.
pub open spec fn error_of<T>(r: Result<T, NapiErrorView>) -> Option<NapiErrorView> {
    match r {
        Ok(_) => None,
        Err(e) => Some(e),
    }
}

/// Decoding of one host value into a native value.
///
/// What an implementation does is said by `read_outcome` and `reads_as`. An
/// implementation that says nothing leaves `obeys_read_spec` false, and
/// nothing is taken for granted of it.
pub trait FromNapiValue: Sized {
    /// Whether this implementation keeps to `read_outcome` and `reads_as`.
    open spec fn obeys_read_spec() -> bool {
        false
    }

    /// The state in which reading `value` leaves the host, and the error
    /// with which it fails, if it does.
    open spec fn read_outcome(st: HostState, value: NapiValue) -> (HostState, Option<NapiErrorView>) {
        (st, None)
    }

    /// Whether `v` is what `value` is read as.
    open spec fn reads_as(st: HostState, value: NapiValue, v: Self) -> bool {
        true
    }

    /// Reads `value` as a `Self`.
    fn from_napi_value(env: &mut NapiEnv, value: NapiValue) -> (r: Result<Self, NapiError>)
        ensures
            Self::obeys_read_spec() ==> {
                &&& final(env)@ == Self::read_outcome(old(env)@, value).0
                &&& match r {
                    Ok(v) => Self::read_outcome(old(env)@, value).1 is None && Self::reads_as(
                        old(env)@,
                        value,
                        v,
                    ),
                    Err(e) => Self::read_outcome(old(env)@, value).1 == Some(e@),
                }
            },
    ;
}

/// Decoding of an argument list into a native value.
///
/// What an implementation does is said by `decode_outcome` and `decodes_to`.
/// An implementation that says nothing leaves `obeys_decode_spec` false, and
/// nothing is taken for granted of it.
pub trait FromNapiValues: Sized {
    /// Whether this implementation keeps to `decode_outcome` and
    /// `decodes_to`.
    open spec fn obeys_decode_spec() -> bool {
        false
    }

    /// The state in which decoding leaves the host, and the error with which
    /// it fails, if it does.
    open spec fn decode_outcome(st: HostState, this: NapiValue, values: Seq<NapiValue>) -> (
        HostState,
        Option<NapiErrorView>,
    ) {
        (st, None)
    }

    /// Whether `v` is what the argument list decodes to.
    open spec fn decodes_to(st: HostState, this: NapiValue, values: Seq<NapiValue>, v: Self) -> bool {
        true
    }

    /// Decodes the arguments `napi_values` of a call on the receiver `this`.
    fn from_napi_values(env: &mut NapiEnv, this: NapiValue, napi_values: &[NapiValue]) -> (r: Result<
        Self,
        NapiError,
    >)
        ensures
            Self::obeys_decode_spec() ==> {
                &&& final(env)@ == Self::decode_outcome(old(env)@, this, napi_values@).0
                &&& match r {
                    Ok(v) => Self::decode_outcome(old(env)@, this, napi_values@).1 is None
                        && Self::decodes_to(old(env)@, this, napi_values@, v),
                    Err(e) => Self::decode_outcome(old(env)@, this, napi_values@).1 == Some(e@),
                }
            },
    ;
}

/// Encoding of a native value into a host value.
///
/// What an implementation does is said by `encode_spec`. An implementation
/// that says nothing leaves `obeys_encode_spec` false, and nothing is taken
/// for granted of it.
pub trait IntoNapiValue: Sized {
    /// Whether this implementation keeps to `encode_spec`.
    open spec fn obeys_encode_spec() -> bool {
        false
    }

    /// The state in which encoding leaves the host, and the handle of the
    /// encoded value or the error.
    open spec fn encode_spec(&self, st: HostState) -> (HostState, Result<NapiValue, NapiErrorView>) {
        (st, Ok(0usize))
    }

    /// Encodes the value and returns its handle.
    fn into_napi_value(self, env: &mut NapiEnv) -> (r: Result<NapiValue, NapiError>)
        ensures
            Self::obeys_encode_spec() ==> (final(env)@, result_view(r)) == self.encode_spec(
                old(env)@,
            ),
    ;
}

/// The outcome of decoding an argument list as one value of type `T`: the
/// list must hold exactly one handle, which is then read.
pub open spec fn single_outcome<T: FromNapiValue>(st: HostState, values: Seq<NapiValue>) -> (
    HostState,
    Option<NapiErrorView>,
) {
    if values.len() != 1 {
        (st, Some(arity_error(1, values.len())))
    } else {
        T::read_outcome(st, values[0])
    }
}

/// Decodes an argument list as one value of type `T`.
pub fn decode_single<T: FromNapiValue>(env: &mut NapiEnv, napi_values: &[NapiValue]) -> (r: Result<
    T,
    NapiError,
>)
    ensures
        T::obeys_read_spec() ==> {
            &&& final(env)@ == single_outcome::<T>(old(env)@, napi_values@).0
            &&& match r {
                Ok(v) => single_outcome::<T>(old(env)@, napi_values@).1 is None && T::reads_as(
                    old(env)@,
                    napi_values@[0],
                    v,
                ),
                Err(e) => single_outcome::<T>(old(env)@, napi_values@).1 == Some(e@),
            }
        },
        napi_values@.len() != 1 ==> r is Err && final(env)@ == old(env)@,
{
    match check_napi_args_length(env, napi_values, 1) {
        Err(e) => {
            return Err(e);
        },
        Ok(_) => {},
    }
    let value = napi_values[0];
    T::from_napi_value(env, value)
}

/// The outcome of reading a value that must have the type `expected`, where
/// `then` is the outcome of the accessor on the state after the type check.
pub open spec fn typed_outcome<T>(
    checked: (HostState, Result<(), NapiErrorView>),
    then: (HostState, Result<T, NapiErrorView>),
) -> (HostState, Option<NapiErrorView>) {
    match checked.1 {
        Err(e) => (checked.0, Some(e)),
        Ok(_) => (then.0, error_of(then.1)),
    }
}

impl FromNapiValue for bool {
    open spec fn obeys_read_spec() -> bool {
        true
    }

    open spec fn read_outcome(st: HostState, value: NapiValue) -> (HostState, Option<NapiErrorView>) {
        let checked = check_napi_type_spec(st, NapiValueType::Boolean, value);
        typed_outcome(checked, get_value_bool_spec(checked.0, value))
    }

    open spec fn reads_as(st: HostState, value: NapiValue, v: Self) -> bool {
        st.valid(value) && st.values[value as int] == HostValueView::Boolean(v)
    }

    fn from_napi_value(env: &mut NapiEnv, value: NapiValue) -> (r: Result<Self, NapiError>) {
        match check_napi_type(env, NapiValueType::Boolean, value) {
            Err(e) => {
                return Err(e);
            },
            Ok(_) => {},
        }
        get_value_bool(env, value)
    }
}

impl FromNapiValues for bool {
    open spec fn obeys_decode_spec() -> bool {
        true
    }

    open spec fn decode_outcome(st: HostState, this: NapiValue, values: Seq<NapiValue>) -> (
        HostState,
        Option<NapiErrorView>,
    ) {
        single_outcome::<bool>(st, values)
    }

    open spec fn decodes_to(st: HostState, this: NapiValue, values: Seq<NapiValue>, v: Self) -> bool {
        <bool as FromNapiValue>::reads_as(st, values[0], v)
    }

    fn from_napi_values(env: &mut NapiEnv, this: NapiValue, napi_values: &[NapiValue]) -> (r: Result<
        Self,
        NapiError,
    >) {
        decode_single::<bool>(env, napi_values)
    }
}

impl FromNapiValue for String {
    open spec fn obeys_read_spec() -> bool {
        true
    }

    open spec fn read_outcome(st: HostState, value: NapiValue) -> (HostState, Option<NapiErrorView>) {
        let checked = check_napi_type_spec(st, NapiValueType::String, value);
        typed_outcome(checked, get_value_string_spec(checked.0, value))
    }

    open spec fn reads_as(st: HostState, value: NapiValue, v: Self) -> bool {
        st.valid(value) && st.values[value as int] == HostValueView::String(v@)
    }

    fn from_napi_value(env: &mut NapiEnv, value: NapiValue) -> (r: Result<Self, NapiError>) {
        match check_napi_type(env, NapiValueType::String, value) {
            Err(e) => {
                return Err(e);
            },
            Ok(_) => {},
        }
        get_value_string_utf8(env, value)
    }
}

impl FromNapiValues for String {
    open spec fn obeys_decode_spec() -> bool {
        true
    }

    open spec fn decode_outcome(st: HostState, this: NapiValue, values: Seq<NapiValue>) -> (
        HostState,
        Option<NapiErrorView>,
    ) {
        single_outcome::<String>(st, values)
    }

    open spec fn decodes_to(st: HostState, this: NapiValue, values: Seq<NapiValue>, v: Self) -> bool {
        <String as FromNapiValue>::reads_as(st, values[0], v)
    }

    fn from_napi_values(env: &mut NapiEnv, this: NapiValue, napi_values: &[NapiValue]) -> (r: Result<
        Self,
        NapiError,
    >) {
        decode_single::<String>(env, napi_values)
    }
}

impl FromNapiValue for Double {
    open spec fn obeys_read_spec() -> bool {
        true
    }

    open spec fn read_outcome(st: HostState, value: NapiValue) -> (HostState, Option<NapiErrorView>) {
        let checked = check_napi_type_spec(st, NapiValueType::Number, value);
        typed_outcome(checked, get_value_double_spec(checked.0, value))
    }

    open spec fn reads_as(st: HostState, value: NapiValue, v: Self) -> bool {
        st.valid(value) && st.values[value as int] == HostValueView::Number(v.bits)
    }

    fn from_napi_value(env: &mut NapiEnv, value: NapiValue) -> (r: Result<Self, NapiError>) {
        match check_napi_type(env, NapiValueType::Number, value) {
            Err(e) => {
                return Err(e);
            },
            Ok(_) => {},
        }
        get_value_double(env, value)
    }
}

impl FromNapiValues for Double {
    open spec fn obeys_decode_spec() -> bool {
        true
    }

    open spec fn decode_outcome(st: HostState, this: NapiValue, values: Seq<NapiValue>) -> (
        HostState,
        Option<NapiErrorView>,
    ) {
        single_outcome::<Double>(st, values)
    }

    open spec fn decodes_to(st: HostState, this: NapiValue, values: Seq<NapiValue>, v: Self) -> bool {
        <Double as FromNapiValue>::reads_as(st, values[0], v)
    }

    fn from_napi_values(env: &mut NapiEnv, this: NapiValue, napi_values: &[NapiValue]) -> (r: Result<
        Self,
        NapiError,
    >) {
        decode_single::<Double>(env, napi_values)
    }
}

/// What [`get_value_uint64`] does: the number is read as an unsigned 32-bit
/// integer and widened, so a number above two to the 32 comes out reduced.
pub open spec fn get_value_uint64_spec(st: HostState, h: NapiValue) -> (
    HostState,
    Result<u64, NapiErrorView>,
) {
    let (s1, r1) = get_value_uint32_spec(st, h);
    match r1 {
        Ok(x) => (s1, Ok(x as u64)),
        Err(e) => (s1, Err(e)),
    }
}

/// The number that a value holds, as an unsigned 64-bit integer. The host
/// is asked for 32 bits only.
pub fn get_value_uint64(env: &mut NapiEnv, value: NapiValue) -> (r: Result<u64, NapiError>)
    ensures
        (final(env)@, result_view(r)) == get_value_uint64_spec(old(env)@, value),
{
    match get_value_uint32(env, value) {
        Ok(x) => Ok(x as u64),
        Err(e) => Err(e),
    }
}

impl FromNapiValue for u64 {
    open spec fn obeys_read_spec() -> bool {
        true
    }

    open spec fn read_outcome(st: HostState, value: NapiValue) -> (HostState, Option<NapiErrorView>) {
        let checked = check_napi_type_spec(st, NapiValueType::Number, value);
        typed_outcome(checked, get_value_uint64_spec(checked.0, value))
    }

    open spec fn reads_as(st: HostState, value: NapiValue, v: Self) -> bool {
        &&& st.valid(value)
        &&& st.values[value as int] is Number
        &&& v == (Double { bits: st.values[value as int]->Number_0 }).to_u32_spec()
    }

    fn from_napi_value(env: &mut NapiEnv, value: NapiValue) -> (r: Result<Self, NapiError>) {
        match check_napi_type(env, NapiValueType::Number, value) {
            Err(e) => {
                return Err(e);
            },
            Ok(_) => {},
        }
        get_value_uint64(env, value)
    }
}

impl FromNapiValues for u64 {
    open spec fn obeys_decode_spec() -> bool {
        true
    }

    open spec fn decode_outcome(st: HostState, this: NapiValue, values: Seq<NapiValue>) -> (
        HostState,
        Option<NapiErrorView>,
    ) {
        single_outcome::<u64>(st, values)
    }

    open spec fn decodes_to(st: HostState, this: NapiValue, values: Seq<NapiValue>, v: Self) -> bool {
        <u64 as FromNapiValue>::reads_as(st, values[0], v)
    }

    fn from_napi_values(env: &mut NapiEnv, this: NapiValue, napi_values: &[NapiValue]) -> (r: Result<
        Self,
        NapiError,
    >) {
        decode_single::<u64>(env, napi_values)
    }
}

impl FromNapiValue for i64 {
    open spec fn obeys_read_spec() -> bool {
        true
    }

    open spec fn read_outcome(st: HostState, value: NapiValue) -> (HostState, Option<NapiErrorView>) {
        let checked = check_napi_type_spec(st, NapiValueType::Number, value);
        typed_outcome(checked, get_value_int64_spec(checked.0, value))
    }

    open spec fn reads_as(st: HostState, value: NapiValue, v: Self) -> bool {
        &&& st.valid(value)
        &&& st.values[value as int] is Number
        &&& v == (Double { bits: st.values[value as int]->Number_0 }).to_i64_spec()
    }

    fn from_napi_value(env: &mut NapiEnv, value: NapiValue) -> (r: Result<Self, NapiError>) {
        match check_napi_type(env, NapiValueType::Number, value) {
            Err(e) => {
                return Err(e);
            },
            Ok(_) => {},
        }
        get_value_int64(env, value)
    }
}

impl FromNapiValues for i64 {
    open spec fn obeys_decode_spec() -> bool {
        true
    }

    open spec fn decode_outcome(st: HostState, this: NapiValue, values: Seq<NapiValue>) -> (
        HostState,
        Option<NapiErrorView>,
    ) {
        single_outcome::<i64>(st, values)
    }

    open spec fn decodes_to(st: HostState, this: NapiValue, values: Seq<NapiValue>, v: Self) -> bool {
        <i64 as FromNapiValue>::reads_as(st, values[0], v)
    }

    fn from_napi_values(env: &mut NapiEnv, this: NapiValue, napi_values: &[NapiValue]) -> (r: Result<
        Self,
        NapiError,
    >) {
        decode_single::<i64>(env, napi_values)
    }
}

impl FromNapiValues for () {
    open spec fn obeys_decode_spec() -> bool {
        true
    }

    /// The unit type takes no argument: it accepts any list and leaves the
    /// host as it was.
    open spec fn decode_outcome(st: HostState, this: NapiValue, values: Seq<NapiValue>) -> (
        HostState,
        Option<NapiErrorView>,
    ) {
        (st, None)
    }

    open spec fn decodes_to(st: HostState, this: NapiValue, values: Seq<NapiValue>, v: Self) -> bool {
        true
    }

    fn from_napi_values(env: &mut NapiEnv, this: NapiValue, napi_values: &[NapiValue]) -> (r: Result<
        Self,
        NapiError,
    >) {
        Ok(())
    }
}

/// The error for a value that is not an array where a sequence is decoded.
pub open spec fn expected_array_error() -> NapiErrorView {
    plain_error(NapiErrorType::InvalidArg, "expected array"@)
}

/// The outcome of decoding the elements of `array` from index `i` up to
/// `n`, in order: each element is fetched and then decoded as a one-element
/// argument list, and the first failure ends the decoding.
pub open spec fn decode_elements<T: FromNapiValues>(
    st: HostState,
    this: NapiValue,
    array: NapiValue,
    i: nat,
    n: nat,
) -> (HostState, Option<NapiErrorView>)
    decreases n - i,
{
    if i >= n {
        (st, None)
    } else {
        let (s1, r1) = get_element_spec(st, array, i as usize);
        match r1 {
            Err(e) => (s1, Some(e)),
            Ok(h) => {
                let (s2, e2) = T::decode_outcome(s1, this, seq![h]);
                match e2 {
                    Some(e) => (s2, Some(e)),
                    None => decode_elements::<T>(s2, this, array, i + 1, n),
                }
            },
        }
    }
}

/// Whether `v[i]`, `v[i + 1]`, ... are what the elements of `array` from
/// index `i` up to `n` decode to, each in the state in which its turn comes.
pub open spec fn elements_decode_to<T: FromNapiValues>(
    st: HostState,
    this: NapiValue,
    array: NapiValue,
    i: nat,
    n: nat,
    v: Seq<T>,
) -> bool
    decreases n - i,
{
    if i >= n {
        true
    } else {
        let (s1, r1) = get_element_spec(st, array, i as usize);
        match r1 {
            Err(e) => false,
            Ok(h) => {
                &&& T::decodes_to(s1, this, seq![h], v[i as int])
                &&& elements_decode_to::<T>(
                    T::decode_outcome(s1, this, seq![h]).0,
                    this,
                    array,
                    i + 1,
                    n,
                    v,
                )
            },
        }
    }
}

/// The state after the arity and array checks of a sequence decoding, and
/// the number of elements, or the error of the check that failed.
pub open spec fn sequence_header(st: HostState, values: Seq<NapiValue>) -> (
    HostState,
    Result<usize, NapiErrorView>,
) {
    if values.len() != 1 {
        (st, Err(arity_error(1, values.len())))
    } else {
        let (s1, r1) = is_array_spec(st, values[0]);
        match r1 {
            Err(e) => (s1, Err(e)),
            Ok(false) => (s1, Err(expected_array_error())),
            Ok(true) => get_array_length_spec(s1, values[0]),
        }
    }
}

impl<T: FromNapiValues> FromNapiValues for Vec<T> {
    open spec fn obeys_decode_spec() -> bool {
        T::obeys_decode_spec()
    }

    open spec fn decode_outcome(st: HostState, this: NapiValue, values: Seq<NapiValue>) -> (
        HostState,
        Option<NapiErrorView>,
    ) {
        let (s1, r1) = sequence_header(st, values);
        match r1 {
            Err(e) => (s1, Some(e)),
            Ok(n) => decode_elements::<T>(s1, this, values[0], 0, n as nat),
        }
    }

    open spec fn decodes_to(st: HostState, this: NapiValue, values: Seq<NapiValue>, v: Self) -> bool {
        let (s1, r1) = sequence_header(st, values);
        match r1 {
            Err(e) => false,
            Ok(n) => v@.len() == n && elements_decode_to::<T>(s1, this, values[0], 0, n as nat, v@),
        }
    }

    fn from_napi_values(env: &mut NapiEnv, this: NapiValue, napi_values: &[NapiValue]) -> (r: Result<
        Self,
        NapiError,
    >) {
        match check_napi_args_length(env, napi_values, 1) {
            Err(e) => {
                return Err(e);
            },
            Ok(_) => {},
        }
        let value = napi_values[0];
        let array = match is_array(env, value) {
            Err(e) => {
                return Err(e);
            },
            Ok(b) => b,
        };
        if !array {
            Err(make_invalid_arg_error(String::from_str("expected array")))
        } else {
            let size = match get_array_length(env, value) {
                Err(e) => {
                    return Err(e);
                },
                Ok(n) => n,
            };
            let ghost start = env@;
            let mut result: Vec<T> = Vec::with_capacity(size);
            let mut i: usize = 0;
            while i < size
                invariant
                    0 <= i <= size,
                    result@.len() == i,
                    sequence_header(old(env)@, napi_values@) == (start, Ok::<usize, NapiErrorView>(size)),
                    napi_values@.len() == 1,
                    value == napi_values@[0],
                    T::obeys_decode_spec() ==> decode_elements::<T>(start, this, value, 0, size as nat)
                        == decode_elements::<T>(env@, this, value, i as nat, size as nat),
                    T::obeys_decode_spec() ==> forall|w: Seq<T>|
                        w.len() == size && w.subrange(0, i as int) == result@ ==> (
                        #[trigger] elements_decode_to::<T>(
                            start,
                            this,
                            value,
                            0,
                            size as nat,
                            w,
                        ) <==> elements_decode_to::<T>(env@, this, value, i as nat, size as nat, w)),
                decreases size - i,
            {
                let ghost before = env@;
                let ghost prefix = result@;
                let ival = match get_element(env, value, i) {
                    Err(e) => {
                        return Err(e);
                    },
                    Ok(h) => h,
                };
                let ghost fetched = env@;
                let one = [ival];
                assert(one@ =~= seq![ival]);
                let item = match T::from_napi_values(env, this, one.as_slice()) {
                    Err(e) => {
                        return Err(e);
                    },
                    Ok(item) => item,
                };
                result.push(item);
                proof {
                    if T::obeys_decode_spec() {
                        assert forall|w: Seq<T>|
                            w.len() == size && w.subrange(0, i as int + 1) == result@ implies (
                        #[trigger] elements_decode_to::<T>(start, this, value, 0, size as nat, w)
                            <==> elements_decode_to::<T>(
                            env@,
                            this,
                            value,
                            (i + 1) as nat,
                            size as nat,
                            w,
                        )) by {
                            assert(w.subrange(0, i as int) =~= prefix) by {
                                assert(result@.subrange(0, i as int) =~= prefix);
                                assert(w.subrange(0, i as int) =~= w.subrange(0, i as int + 1).subrange(
                                    0,
                                    i as int,
                                ));
                            }
                            assert(w[i as int] == w.subrange(0, i as int + 1)[i as int]);
                            assert(w[i as int] == item);
                        }
                    }
                }
                i = i + 1;
            }
            proof {
                if T::obeys_decode_spec() {
                    assert(result@.subrange(0, size as int) =~= result@);
                }
            }
            Ok(result)
        }
    }
}

impl IntoNapiValue for () {
    open spec fn obeys_encode_spec() -> bool {
        true
    }

    open spec fn encode_spec(&self, st: HostState) -> (HostState, Result<NapiValue, NapiErrorView>) {
        created(st, HostValueView::Undefined)
    }

    fn into_napi_value(self, env: &mut NapiEnv) -> (r: Result<NapiValue, NapiError>) {
        get_undefined(env)
    }
}

impl IntoNapiValue for String {
    open spec fn obeys_encode_spec() -> bool {
        true
    }

    open spec fn encode_spec(&self, st: HostState) -> (HostState, Result<NapiValue, NapiErrorView>) {
        create_string_spec(st, self@)
    }

    fn into_napi_value(self, env: &mut NapiEnv) -> (r: Result<NapiValue, NapiError>) {
        create_string_utf8(env, self.as_str())
    }
}

impl<'a> IntoNapiValue for &'a str {
    open spec fn obeys_encode_spec() -> bool {
        true
    }

    open spec fn encode_spec(&self, st: HostState) -> (HostState, Result<NapiValue, NapiErrorView>) {
        create_string_spec(st, self@)
    }

    fn into_napi_value(self, env: &mut NapiEnv) -> (r: Result<NapiValue, NapiError>) {
        create_string_utf8(env, self)
    }
}

impl IntoNapiValue for bool {
    open spec fn obeys_encode_spec() -> bool {
        true
    }

    open spec fn encode_spec(&self, st: HostState) -> (HostState, Result<NapiValue, NapiErrorView>) {
        created(st, HostValueView::Boolean(*self))
    }

    fn into_napi_value(self, env: &mut NapiEnv) -> (r: Result<NapiValue, NapiError>) {
        get_boolean(env, self)
    }
}

impl IntoNapiValue for Double {
    open spec fn obeys_encode_spec() -> bool {
        true
    }

    open spec fn encode_spec(&self, st: HostState) -> (HostState, Result<NapiValue, NapiErrorView>) {
        created(st, HostValueView::Number(self.bits))
    }

    fn into_napi_value(self, env: &mut NapiEnv) -> (r: Result<NapiValue, NapiError>) {
        create_number(env, self)
    }
}

impl IntoNapiValue for u8 {
    open spec fn obeys_encode_spec() -> bool {
        true
    }

    open spec fn encode_spec(&self, st: HostState) -> (HostState, Result<NapiValue, NapiErrorView>) {
        created(st, HostValueView::Number(double_of(*self as int).bits))
    }

    fn into_napi_value(self, env: &mut NapiEnv) -> (r: Result<NapiValue, NapiError>) {
        create_number(env, Double::from_u64(self as u64))
    }
}

impl IntoNapiValue for u16 {
    open spec fn obeys_encode_spec() -> bool {
        true
    }

    open spec fn encode_spec(&self, st: HostState) -> (HostState, Result<NapiValue, NapiErrorView>) {
        created(st, HostValueView::Number(double_of(*self as int).bits))
    }

    fn into_napi_value(self, env: &mut NapiEnv) -> (r: Result<NapiValue, NapiError>) {
        create_number(env, Double::from_u64(self as u64))
    }
}

impl IntoNapiValue for u32 {
    open spec fn obeys_encode_spec() -> bool {
        true
    }

    open spec fn encode_spec(&self, st: HostState) -> (HostState, Result<NapiValue, NapiErrorView>) {
        created(st, HostValueView::Number(double_of(*self as int).bits))
    }

    fn into_napi_value(self, env: &mut NapiEnv) -> (r: Result<NapiValue, NapiError>) {
        create_number(env, Double::from_u64(self as u64))
    }
}

impl IntoNapiValue for u64 {
    open spec fn obeys_encode_spec() -> bool {
        true
    }

    open spec fn encode_spec(&self, st: HostState) -> (HostState, Result<NapiValue, NapiErrorView>) {
        created(st, HostValueView::Number(double_of(*self as int).bits))
    }

    fn into_napi_value(self, env: &mut NapiEnv) -> (r: Result<NapiValue, NapiError>) {
        create_number(env, Double::from_u64(self))
    }
}

impl IntoNapiValue for i8 {
    open spec fn obeys_encode_spec() -> bool {
        true
    }

    open spec fn encode_spec(&self, st: HostState) -> (HostState, Result<NapiValue, NapiErrorView>) {
        created(st, HostValueView::Number(double_of(*self as int).bits))
    }

    fn into_napi_value(self, env: &mut NapiEnv) -> (r: Result<NapiValue, NapiError>) {
        create_number(env, Double::from_i64(self as i64))
    }
}

impl IntoNapiValue for i16 {
    open spec fn obeys_encode_spec() -> bool {
        true
    }

    open spec fn encode_spec(&self, st: HostState) -> (HostState, Result<NapiValue, NapiErrorView>) {
        created(st, HostValueView::Number(double_of(*self as int).bits))
    }

    fn into_napi_value(self, env: &mut NapiEnv) -> (r: Result<NapiValue, NapiError>) {
        create_number(env, Double::from_i64(self as i64))
    }
}

impl IntoNapiValue for i32 {
    open spec fn obeys_encode_spec() -> bool {
        true
    }

    open spec fn encode_spec(&self, st: HostState) -> (HostState, Result<NapiValue, NapiErrorView>) {
        created(st, HostValueView::Number(double_of(*self as int).bits))
    }

    fn into_napi_value(self, env: &mut NapiEnv) -> (r: Result<NapiValue, NapiError>) {
        create_number(env, Double::from_i64(self as i64))
    }
}

impl IntoNapiValue for i64 {
    open spec fn obeys_encode_spec() -> bool {
        true
    }

    open spec fn encode_spec(&self, st: HostState) -> (HostState, Result<NapiValue, NapiErrorView>) {
        created(st, HostValueView::Number(double_of(*self as int).bits))
    }

    fn into_napi_value(self, env: &mut NapiEnv) -> (r: Result<NapiValue, NapiError>) {
        create_number(env, Double::from_i64(self))
    }
}

impl IntoNapiValue for Single {
    open spec fn obeys_encode_spec() -> bool {
        true
    }

    open spec fn encode_spec(&self, st: HostState) -> (HostState, Result<NapiValue, NapiErrorView>) {
        created(st, HostValueView::Number(widened(*self) as u64))
    }

    fn into_napi_value(self, env: &mut NapiEnv) -> (r: Result<NapiValue, NapiError>) {
        create_number(env, Double::from_single(self))
    }
}

/// The outcome of encoding `items[i]`, `items[i + 1]`, ... into the array
/// `array`, in order: each item is encoded and then written at its index,
/// and the first failure ends the encoding.
pub open spec fn encode_items<T: IntoNapiValue>(
    st: HostState,
    items: Seq<T>,
    array: NapiValue,
    i: nat,
) -> (HostState, Result<NapiValue, NapiErrorView>)
    decreases items.len() - i,
{
    if i >= items.len() {
        (st, Ok(array))
    } else {
        let (s1, r1) = items[i as int].encode_spec(st);
        match r1 {
            Err(e) => (s1, Err(e)),
            Ok(h) => {
                let (s2, r2) = set_element_spec(s1, array, i as usize, h);
                match r2 {
                    Err(e) => (s2, Err(e)),
                    Ok(_) => encode_items(s2, items, array, i + 1),
                }
            },
        }
    }
}

/// The outcome of encoding a sequence: an array of matching length is
/// created, then filled.
pub open spec fn encode_sequence<T: IntoNapiValue>(st: HostState, items: Seq<T>) -> (
    HostState,
    Result<NapiValue, NapiErrorView>,
) {
    encode_items(st.create(holes(items.len())), items, st.values.len() as usize, 0)
}

impl<T: IntoNapiValue> IntoNapiValue for Vec<T> {
    open spec fn obeys_encode_spec() -> bool {
        T::obeys_encode_spec()
    }

    open spec fn encode_spec(&self, st: HostState) -> (HostState, Result<NapiValue, NapiErrorView>) {
        encode_sequence(st, self@)
    }

    fn into_napi_value(self, env: &mut NapiEnv) -> (r: Result<NapiValue, NapiError>) {
        let ghost items = self@;
        let array = match array_with_length(env, self.len()) {
            Err(e) => {
                return Err(e);
            },
            Ok(a) => a,
        };
        let ghost start = env@;
        let mut index: usize = 0;
        for item in it: self
            invariant
                it.seq() == items,
                index == it.index(),
                start == old(env)@.create(holes(items.len())),
                array == old(env)@.values.len() as usize,
                items.len() <= usize::MAX,
                T::obeys_encode_spec() ==> encode_items(start, items, array, 0) == encode_items(
                    env@,
                    items,
                    array,
                    index as nat,
                ),
        {
            assert(item == items[index as int]);
            let converted_item = match item.into_napi_value(env) {
                Err(e) => {
                    return Err(e);
                },
                Ok(h) => h,
            };
            match set_element(env, array, index, converted_item) {
                Err(e) => {
                    return Err(e);
                },
                Ok(_) => {},
            }
            index = index + 1;
        }
        Ok(array)
    }
}

impl<'a, T: IntoNapiValue + Copy> IntoNapiValue for &'a [T] {
    open spec fn obeys_encode_spec() -> bool {
        T::obeys_encode_spec()
    }

    open spec fn encode_spec(&self, st: HostState) -> (HostState, Result<NapiValue, NapiErrorView>) {
        encode_sequence(st, self@)
    }

    fn into_napi_value(self, env: &mut NapiEnv) -> (r: Result<NapiValue, NapiError>) {
        let array = match array_with_length(env, self.len()) {
            Err(e) => {
                return Err(e);
            },
            Ok(a) => a,
        };
        let ghost start = env@;
        let mut index: usize = 0;
        while index < self.len()
            invariant
                0 <= index <= self@.len(),
                start == old(env)@.create(holes(self@.len())),
                array == old(env)@.values.len() as usize,
                T::obeys_encode_spec() ==> encode_items(start, self@, array, 0) == encode_items(
                    env@,
                    self@,
                    array,
                    index as nat,
                ),
            decreases self@.len() - index,
        {
            let item = self[index];
            let converted_item = match item.into_napi_value(env) {
                Err(e) => {
                    return Err(e);
                },
                Ok(h) => h,
            };
            match set_element(env, array, index, converted_item) {
                Err(e) => {
                    return Err(e);
                },
                Ok(_) => {},
            }
            index = index + 1;
        }
        Ok(array)
    }
}

impl<T: IntoNapiValue + Copy, const N: usize> IntoNapiValue for [T; N] {
    open spec fn obeys_encode_spec() -> bool {
        T::obeys_encode_spec()
    }

    open spec fn encode_spec(&self, st: HostState) -> (HostState, Result<NapiValue, NapiErrorView>) {
        encode_sequence(st, self@)
    }

    fn into_napi_value(self, env: &mut NapiEnv) -> (r: Result<NapiValue, NapiError>) {
        let items = self.as_slice();
        assert(items@ == self@);
        items.into_napi_value(env)
    }
}

} // verus!
