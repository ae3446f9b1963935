//! A checked binding layer between native code and a host runtime that
//! exchanges opaque value handles.
//!
//! The host's value space is modelled by [`host::NapiEnv`]. Handles into it
//! are decoded to native values by [`FromNapiValues`], and native values are
//! encoded to handles by [`IntoNapiValue`]. [`adapter`] presents a native
//! closure as a function of the host, and [`napi_futures`] presents
//! asynchronous work as a thenable.

pub mod text;

pub mod error;

pub mod number;

pub mod host;

pub mod napi;

pub mod napi_value;

pub mod adapter;

pub mod executor;

pub mod napi_futures;

pub mod laws;

pub use crate::adapter::{create_external, create_function, finalize_box, finalize_slot};
pub use crate::adapter::get_value_external;
pub use crate::adapter::{unwrap, wrap, wrapper, CallbackInfo, NativeSlot, MAX_ARGS};
pub use crate::executor::{begin_async_work, create_async_work, queue_async_work, spawn_fn};
pub use crate::executor::{Async, NapiFuture, Received};
pub use crate::host::{AsyncState, AsyncWork, NapiEnv, NapiModule, NapiRef, NapiValue, NapiValueType};
pub use crate::napi::{array_with_length, call_function, create_array, create_number, create_object};
pub use crate::napi::{create_string_utf8, get_array_length, get_boolean, get_element, get_global};
pub use crate::napi::{get_last_error_info, get_last_napi_error, get_named_property, get_null};
pub use crate::napi::{get_property_names, get_undefined, get_value_bool, get_value_double};
pub use crate::napi::{get_value_int32, get_value_int64, has_named_property};
pub use crate::napi::{get_value_string_utf8, get_value_uint32, is_array, module_register};
pub use crate::napi::{napi_either, set_element, set_named_property, throw_error, type_of};
pub use crate::napi_futures::{complete_async_work, then, thenable_work, ThenArgs};
pub use crate::napi_value::{check_napi_args_length, check_napi_type, get_value_uint64};
pub use crate::napi_value::{FromNapiValue, FromNapiValues, IntoNapiValue};
pub use crate::number::{Double, Single};
