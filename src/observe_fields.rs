//! Typed recorders: each turns a primitive into a [`Value`] and records it
//! into the context slot as a durable field, a transient field or the result
//! of the top span. Without a context each of them does nothing.
use vstd::prelude::*;
use vstd::string::*;
use crate::context::Context;
use crate::observer::{field, last_recorded, observe_result, recorded, slot_wf, transient_field};
use crate::value::{char_text, Value, ValueModel};

verus! {

/// The top span's result was set to a value with model `v`, where a context
/// is there and its top span is open with no result yet; nothing else
/// changed.
pub open spec fn result_recorded(old: Option<Context>, new: Option<Context>, v: ValueModel) -> bool {
    match old {
        None => new is None,
        Some(c) => new matches Some(d) && d.same_below_top(c) && d.top().items == c.top().items
            && d.top().id == c.top().id && (if c.top().is_open() && c.top().result is None {
            d.top().result matches Some(r) && r@ == v
        } else {
            d.top().result == c.top().result
        }),
    }
}

/// Records a string as a durable field.
pub fn observe_string(slot: &mut Option<Context>, name: &str, value: &str)
    requires
        slot_wf(*old(slot)),
    ensures
        slot_wf(*final(slot)),
        recorded(*old(slot), *final(slot)),
        (*old(slot)) is Some ==> last_recorded(*final(slot)).is_field(name@, ValueModel::Str(value@)),
{
    field(slot, name, Value::Str(String::from_str(value)));
}

/// Records a boolean as a durable field.
pub fn observe_bool(slot: &mut Option<Context>, name: &str, value: bool)
    requires
        slot_wf(*old(slot)),
    ensures
        slot_wf(*final(slot)),
        recorded(*old(slot), *final(slot)),
        (*old(slot)) is Some ==> last_recorded(*final(slot)).is_field(name@, ValueModel::Bool(value)),
{
    field(slot, name, Value::Bool(value));
}

/// Records a boolean as a durable field where there is one; `None` records
/// nothing.
pub fn observe_optional_bool(slot: &mut Option<Context>, name: &str, value: Option<bool>)
    requires
        slot_wf(*old(slot)),
    ensures
        slot_wf(*final(slot)),
        value is None ==> *final(slot) == *old(slot),
        value matches Some(b) ==> recorded(*old(slot), *final(slot)) && ((*old(slot)) is Some
            ==> last_recorded(*final(slot)).is_field(name@, ValueModel::Bool(b))),
{
    if let Some(v) = value {
        field(slot, name, Value::Bool(v));
    }
}

/// Records a character, as a one-character string as a durable field.
pub fn observe_char(slot: &mut Option<Context>, name: &str, value: char)
    requires
        slot_wf(*old(slot)),
    ensures
        slot_wf(*final(slot)),
        recorded(*old(slot), *final(slot)),
        (*old(slot)) is Some ==> last_recorded(*final(slot)).is_field(name@, ValueModel::Str(seq![value])),
{
    field(slot, name, Value::Str(char_text(value)));
}

/// Records an `i8` as a durable field.
pub fn observe_i8(slot: &mut Option<Context>, name: &str, value: i8)
    requires
        slot_wf(*old(slot)),
    ensures
        slot_wf(*final(slot)),
        recorded(*old(slot), *final(slot)),
        (*old(slot)) is Some ==> last_recorded(*final(slot)).is_field(name@, ValueModel::Int(value as i64)),
{
    field(slot, name, Value::Int(value as i64));
}

/// Records an `i16` as a durable field.
pub fn observe_i16(slot: &mut Option<Context>, name: &str, value: i16)
    requires
        slot_wf(*old(slot)),
    ensures
        slot_wf(*final(slot)),
        recorded(*old(slot), *final(slot)),
        (*old(slot)) is Some ==> last_recorded(*final(slot)).is_field(name@, ValueModel::Int(value as i64)),
{
    field(slot, name, Value::Int(value as i64));
}

/// Records an `i32` as a durable field.
pub fn observe_i32(slot: &mut Option<Context>, name: &str, value: i32)
    requires
        slot_wf(*old(slot)),
    ensures
        slot_wf(*final(slot)),
        recorded(*old(slot), *final(slot)),
        (*old(slot)) is Some ==> last_recorded(*final(slot)).is_field(name@, ValueModel::Int(value as i64)),
{
    field(slot, name, Value::Int(value as i64));
}

/// Records an `i64` as a durable field.
pub fn observe_i64(slot: &mut Option<Context>, name: &str, value: i64)
    requires
        slot_wf(*old(slot)),
    ensures
        slot_wf(*final(slot)),
        recorded(*old(slot), *final(slot)),
        (*old(slot)) is Some ==> last_recorded(*final(slot)).is_field(name@, ValueModel::Int(value as i64)),
{
    field(slot, name, Value::Int(value as i64));
}

/// Records an `isize` as a durable field.
pub fn observe_isize(slot: &mut Option<Context>, name: &str, value: isize)
    requires
        slot_wf(*old(slot)),
    ensures
        slot_wf(*final(slot)),
        recorded(*old(slot), *final(slot)),
        (*old(slot)) is Some ==> last_recorded(*final(slot)).is_field(name@, ValueModel::Int(value as i64)),
{
    field(slot, name, Value::Int(value as i64));
}

/// Records a `u8` as a durable field.
pub fn observe_u8(slot: &mut Option<Context>, name: &str, value: u8)
    requires
        slot_wf(*old(slot)),
    ensures
        slot_wf(*final(slot)),
        recorded(*old(slot), *final(slot)),
        (*old(slot)) is Some ==> last_recorded(*final(slot)).is_field(name@, ValueModel::UInt(value as u64)),
{
    field(slot, name, Value::UInt(value as u64));
}

/// Records a `u16` as a durable field.
pub fn observe_u16(slot: &mut Option<Context>, name: &str, value: u16)
    requires
        slot_wf(*old(slot)),
    ensures
        slot_wf(*final(slot)),
        recorded(*old(slot), *final(slot)),
        (*old(slot)) is Some ==> last_recorded(*final(slot)).is_field(name@, ValueModel::UInt(value as u64)),
{
    field(slot, name, Value::UInt(value as u64));
}

/// Records a `u32` as a durable field.
pub fn observe_u32(slot: &mut Option<Context>, name: &str, value: u32)
    requires
        slot_wf(*old(slot)),
    ensures
        slot_wf(*final(slot)),
        recorded(*old(slot), *final(slot)),
        (*old(slot)) is Some ==> last_recorded(*final(slot)).is_field(name@, ValueModel::UInt(value as u64)),
{
    field(slot, name, Value::UInt(value as u64));
}

/// Records a `u64` as a durable field.
pub fn observe_u64(slot: &mut Option<Context>, name: &str, value: u64)
    requires
        slot_wf(*old(slot)),
    ensures
        slot_wf(*final(slot)),
        recorded(*old(slot), *final(slot)),
        (*old(slot)) is Some ==> last_recorded(*final(slot)).is_field(name@, ValueModel::UInt(value as u64)),
{
    field(slot, name, Value::UInt(value as u64));
}

/// Records a `usize` as a durable field.
pub fn observe_usize(slot: &mut Option<Context>, name: &str, value: usize)
    requires
        slot_wf(*old(slot)),
    ensures
        slot_wf(*final(slot)),
        recorded(*old(slot), *final(slot)),
        (*old(slot)) is Some ==> last_recorded(*final(slot)).is_field(name@, ValueModel::UInt(value as u64)),
{
    field(slot, name, Value::UInt(value as u64));
}

/// Records a structured value as a durable field.
pub fn observe_json(slot: &mut Option<Context>, name: &str, value: Value)
    requires
        slot_wf(*old(slot)),
    ensures
        slot_wf(*final(slot)),
        recorded(*old(slot), *final(slot)),
        (*old(slot)) is Some ==> last_recorded(*final(slot)).is_field(name@, value@),
{
    field(slot, name, value);
}

/// Records a string as a transient field.
pub fn transient_string(slot: &mut Option<Context>, name: &str, value: &str)
    requires
        slot_wf(*old(slot)),
    ensures
        slot_wf(*final(slot)),
        recorded(*old(slot), *final(slot)),
        (*old(slot)) is Some ==> last_recorded(*final(slot)).is_transient(name@, ValueModel::Str(value@)),
{
    transient_field(slot, name, Value::Str(String::from_str(value)));
}

/// Records a boolean as a transient field.
pub fn transient_bool(slot: &mut Option<Context>, name: &str, value: bool)
    requires
        slot_wf(*old(slot)),
    ensures
        slot_wf(*final(slot)),
        recorded(*old(slot), *final(slot)),
        (*old(slot)) is Some ==> last_recorded(*final(slot)).is_transient(name@, ValueModel::Bool(value)),
{
    transient_field(slot, name, Value::Bool(value));
}

/// Records a character, as a one-character string as a transient field.
pub fn transient_char(slot: &mut Option<Context>, name: &str, value: char)
    requires
        slot_wf(*old(slot)),
    ensures
        slot_wf(*final(slot)),
        recorded(*old(slot), *final(slot)),
        (*old(slot)) is Some ==> last_recorded(*final(slot)).is_transient(name@, ValueModel::Str(seq![value])),
{
    transient_field(slot, name, Value::Str(char_text(value)));
}

/// Records an `i8` as a transient field.
pub fn transient_i8(slot: &mut Option<Context>, name: &str, value: i8)
    requires
        slot_wf(*old(slot)),
    ensures
        slot_wf(*final(slot)),
        recorded(*old(slot), *final(slot)),
        (*old(slot)) is Some ==> last_recorded(*final(slot)).is_transient(name@, ValueModel::Int(value as i64)),
{
    transient_field(slot, name, Value::Int(value as i64));
}

/// Records an `i16` as a transient field.
pub fn transient_i16(slot: &mut Option<Context>, name: &str, value: i16)
    requires
        slot_wf(*old(slot)),
    ensures
        slot_wf(*final(slot)),
        recorded(*old(slot), *final(slot)),
        (*old(slot)) is Some ==> last_recorded(*final(slot)).is_transient(name@, ValueModel::Int(value as i64)),
{
    transient_field(slot, name, Value::Int(value as i64));
}

/// Records an `i32` as a transient field.
pub fn transient_i32(slot: &mut Option<Context>, name: &str, value: i32)
    requires
        slot_wf(*old(slot)),
    ensures
        slot_wf(*final(slot)),
        recorded(*old(slot), *final(slot)),
        (*old(slot)) is Some ==> last_recorded(*final(slot)).is_transient(name@, ValueModel::Int(value as i64)),
{
    transient_field(slot, name, Value::Int(value as i64));
}

/// Records an `i64` as a transient field.
pub fn transient_i64(slot: &mut Option<Context>, name: &str, value: i64)
    requires
        slot_wf(*old(slot)),
    ensures
        slot_wf(*final(slot)),
        recorded(*old(slot), *final(slot)),
        (*old(slot)) is Some ==> last_recorded(*final(slot)).is_transient(name@, ValueModel::Int(value as i64)),
{
    transient_field(slot, name, Value::Int(value as i64));
}

/// Records an `isize` as a transient field.
pub fn transient_isize(slot: &mut Option<Context>, name: &str, value: isize)
    requires
        slot_wf(*old(slot)),
    ensures
        slot_wf(*final(slot)),
        recorded(*old(slot), *final(slot)),
        (*old(slot)) is Some ==> last_recorded(*final(slot)).is_transient(name@, ValueModel::Int(value as i64)),
{
    transient_field(slot, name, Value::Int(value as i64));
}

/// Records a `u8` as a transient field.
pub fn transient_u8(slot: &mut Option<Context>, name: &str, value: u8)
    requires
        slot_wf(*old(slot)),
    ensures
        slot_wf(*final(slot)),
        recorded(*old(slot), *final(slot)),
        (*old(slot)) is Some ==> last_recorded(*final(slot)).is_transient(name@, ValueModel::UInt(value as u64)),
{
    transient_field(slot, name, Value::UInt(value as u64));
}

/// Records a `u16` as a transient field.
pub fn transient_u16(slot: &mut Option<Context>, name: &str, value: u16)
    requires
        slot_wf(*old(slot)),
    ensures
        slot_wf(*final(slot)),
        recorded(*old(slot), *final(slot)),
        (*old(slot)) is Some ==> last_recorded(*final(slot)).is_transient(name@, ValueModel::UInt(value as u64)),
{
    transient_field(slot, name, Value::UInt(value as u64));
}

/// Records a `u32` as a transient field.
pub fn transient_u32(slot: &mut Option<Context>, name: &str, value: u32)
    requires
        slot_wf(*old(slot)),
    ensures
        slot_wf(*final(slot)),
        recorded(*old(slot), *final(slot)),
        (*old(slot)) is Some ==> last_recorded(*final(slot)).is_transient(name@, ValueModel::UInt(value as u64)),
{
    transient_field(slot, name, Value::UInt(value as u64));
}

/// Records a `u64` as a transient field.
pub fn transient_u64(slot: &mut Option<Context>, name: &str, value: u64)
    requires
        slot_wf(*old(slot)),
    ensures
        slot_wf(*final(slot)),
        recorded(*old(slot), *final(slot)),
        (*old(slot)) is Some ==> last_recorded(*final(slot)).is_transient(name@, ValueModel::UInt(value as u64)),
{
    transient_field(slot, name, Value::UInt(value as u64));
}

/// Records a `usize` as a transient field.
pub fn transient_usize(slot: &mut Option<Context>, name: &str, value: usize)
    requires
        slot_wf(*old(slot)),
    ensures
        slot_wf(*final(slot)),
        recorded(*old(slot), *final(slot)),
        (*old(slot)) is Some ==> last_recorded(*final(slot)).is_transient(name@, ValueModel::UInt(value as u64)),
{
    transient_field(slot, name, Value::UInt(value as u64));
}

/// Records a structured value as a transient field.
pub fn transient_json(slot: &mut Option<Context>, name: &str, value: Value)
    requires
        slot_wf(*old(slot)),
    ensures
        slot_wf(*final(slot)),
        recorded(*old(slot), *final(slot)),
        (*old(slot)) is Some ==> last_recorded(*final(slot)).is_transient(name@, value@),
{
    transient_field(slot, name, value);
}

/// Sets a string as the result of the top span.
pub fn observe_result_string(slot: &mut Option<Context>, value: &str)
    requires
        slot_wf(*old(slot)),
    ensures
        slot_wf(*final(slot)),
        result_recorded(*old(slot), *final(slot), ValueModel::Str(value@)),
{
    observe_result(slot, Value::Str(String::from_str(value)));
}

/// Sets a boolean as the result of the top span.
pub fn observe_result_bool(slot: &mut Option<Context>, value: bool)
    requires
        slot_wf(*old(slot)),
    ensures
        slot_wf(*final(slot)),
        result_recorded(*old(slot), *final(slot), ValueModel::Bool(value)),
{
    observe_result(slot, Value::Bool(value));
}

/// Sets a character, as a one-character string as the result of the top span.
pub fn observe_result_char(slot: &mut Option<Context>, value: char)
    requires
        slot_wf(*old(slot)),
    ensures
        slot_wf(*final(slot)),
        result_recorded(*old(slot), *final(slot), ValueModel::Str(seq![value])),
{
    observe_result(slot, Value::Str(char_text(value)));
}

/// Sets an `i8` as the result of the top span.
pub fn observe_result_i8(slot: &mut Option<Context>, value: i8)
    requires
        slot_wf(*old(slot)),
    ensures
        slot_wf(*final(slot)),
        result_recorded(*old(slot), *final(slot), ValueModel::Int(value as i64)),
{
    observe_result(slot, Value::Int(value as i64));
}

/// Sets an `i16` as the result of the top span.
pub fn observe_result_i16(slot: &mut Option<Context>, value: i16)
    requires
        slot_wf(*old(slot)),
    ensures
        slot_wf(*final(slot)),
        result_recorded(*old(slot), *final(slot), ValueModel::Int(value as i64)),
{
    observe_result(slot, Value::Int(value as i64));
}

/// Sets an `i32` as the result of the top span.
pub fn observe_result_i32(slot: &mut Option<Context>, value: i32)
    requires
        slot_wf(*old(slot)),
    ensures
        slot_wf(*final(slot)),
        result_recorded(*old(slot), *final(slot), ValueModel::Int(value as i64)),
{
    observe_result(slot, Value::Int(value as i64));
}

/// Sets an `i64` as the result of the top span.
pub fn observe_result_i64(slot: &mut Option<Context>, value: i64)
    requires
        slot_wf(*old(slot)),
    ensures
        slot_wf(*final(slot)),
        result_recorded(*old(slot), *final(slot), ValueModel::Int(value as i64)),
{
    observe_result(slot, Value::Int(value as i64));
}

/// Sets an `isize` as the result of the top span.
pub fn observe_result_isize(slot: &mut Option<Context>, value: isize)
    requires
        slot_wf(*old(slot)),
    ensures
        slot_wf(*final(slot)),
        result_recorded(*old(slot), *final(slot), ValueModel::Int(value as i64)),
{
    observe_result(slot, Value::Int(value as i64));
}

/// Sets a `u8` as the result of the top span.
pub fn observe_result_u8(slot: &mut Option<Context>, value: u8)
    requires
        slot_wf(*old(slot)),
    ensures
        slot_wf(*final(slot)),
        result_recorded(*old(slot), *final(slot), ValueModel::UInt(value as u64)),
{
    observe_result(slot, Value::UInt(value as u64));
}

/// Sets a `u16` as the result of the top span.
pub fn observe_result_u16(slot: &mut Option<Context>, value: u16)
    requires
        slot_wf(*old(slot)),
    ensures
        slot_wf(*final(slot)),
        result_recorded(*old(slot), *final(slot), ValueModel::UInt(value as u64)),
{
    observe_result(slot, Value::UInt(value as u64));
}

/// Sets a `u32` as the result of the top span.
pub fn observe_result_u32(slot: &mut Option<Context>, value: u32)
    requires
        slot_wf(*old(slot)),
    ensures
        slot_wf(*final(slot)),
        result_recorded(*old(slot), *final(slot), ValueModel::UInt(value as u64)),
{
    observe_result(slot, Value::UInt(value as u64));
}

/// Sets a `u64` as the result of the top span.
pub fn observe_result_u64(slot: &mut Option<Context>, value: u64)
    requires
        slot_wf(*old(slot)),
    ensures
        slot_wf(*final(slot)),
        result_recorded(*old(slot), *final(slot), ValueModel::UInt(value as u64)),
{
    observe_result(slot, Value::UInt(value as u64));
}

/// Sets a `usize` as the result of the top span.
pub fn observe_result_usize(slot: &mut Option<Context>, value: usize)
    requires
        slot_wf(*old(slot)),
    ensures
        slot_wf(*final(slot)),
        result_recorded(*old(slot), *final(slot), ValueModel::UInt(value as u64)),
{
    observe_result(slot, Value::UInt(value as u64));
}

/// Sets a structured value as the result of the top span.
pub fn observe_result_object(slot: &mut Option<Context>, value: Value)
    requires
        slot_wf(*old(slot)),
    ensures
        slot_wf(*final(slot)),
        result_recorded(*old(slot), *final(slot), value@),
{
    observe_result(slot, value);
}

} // verus!
