use vstd::prelude::*;

use vstd::bytes::spec_u64_to_le_bytes;

use crate::errors::HarnessError;
use crate::fixed::{from_fixed, spec_round_mag, spec_to_fixed, to_fixed, valid_scale, Decimal};
use crate::journal::{push_i64_le, push_str_field, push_u64_le, spec_i64_le, spec_str_field};
use crate::ops::{spec_arity, Operation};
use crate::provision::{ImageRef, ImageRefModel};
use crate::session::{make_task_id, spec_task_id};

verus! {

/// One argument handed to the dispatcher, already in its typed form.
#[derive(Debug, Clone)]
pub enum ArgValue {
    Dec(Decimal),
    UInt(u64),
    Int(i64),
    Text(String),
    Blob(Vec<u8>),
}

/// The model of an argument.
pub enum ArgModel {
    Dec(Decimal),
    UInt(u64),
    Int(i64),
    Text(Seq<char>),
    Blob(Seq<u8>),
}

impl View for ArgValue {
    type V = ArgModel;

    open spec fn view(&self) -> ArgModel {
        match self {
            ArgValue::Dec(d) => ArgModel::Dec(*d),
            ArgValue::UInt(u) => ArgModel::UInt(*u),
            ArgValue::Int(i) => ArgModel::Int(*i),
            ArgValue::Text(s) => ArgModel::Text(s@),
            ArgValue::Blob(b) => ArgModel::Blob(b@),
        }
    }
}

/// What dispatch produces: the request payload for the proving engine, and
/// the image reference the provisioner resolves. No proving happens here.
#[derive(Debug, Clone)]
pub struct DispatchPlan {
    pub operation: Operation,
    pub payload: Vec<u8>,
    pub image: ImageRef,
}

/// The model of a dispatch plan.
pub struct PlanModel {
    pub operation: Operation,
    pub payload: Seq<u8>,
    pub image: ImageRefModel,
}

impl View for DispatchPlan {
    type V = PlanModel;

    open spec fn view(&self) -> PlanModel {
        PlanModel { operation: self.operation, payload: self.payload@, image: self.image@ }
    }
}

/// Whether serde_json accepts a text as a JSON document.
pub uninterp spec fn json_accepts(s: Seq<char>) -> bool;

/// Relies on `serde_json::from_str::<Value>`: whether a text parses as JSON
/// is a function of the text alone.
#[verifier::external_body]
fn json_text_valid(s: &str) -> (r: bool)
    ensures
        r == json_accepts(s@),
{
    serde_json::from_str::<serde_json::Value>(s).is_ok()
}

/// A usable decimal argument: well formed, and small enough that its
/// magnitude rescaled at the operation's scale fits the signed 64-bit
/// payload field.
pub open spec fn dec_arg_ok(a: ArgModel, scale: u64) -> bool {
    match a {
        ArgModel::Dec(d) => d.wf() && spec_round_mag(d, scale) <= i64::MAX,
        _ => false,
    }
}

/// The fixed-point value of a decimal argument at the operation's scale.
pub open spec fn dec_arg_fixed(a: ArgModel, scale: u64) -> i64 {
    match a {
        ArgModel::Dec(d) => spec_to_fixed(d, scale) as i64,
        _ => 0,
    }
}

/// A usable JSON argument: text that parses as JSON and whose UTF-8 form
/// fits the four-byte length field.
pub open spec fn json_arg_ok(a: ArgModel) -> bool {
    match a {
        ArgModel::Text(s) => json_accepts(s) && vstd::utf8::encode_utf8(s).len() <= u32::MAX,
        _ => false,
    }
}

/// What dispatch must produce for every operation and argument list: the
/// arity check first, then argument kinds and ranges positionally, then the
/// payload laid out field by field.
pub open spec fn spec_dispatch(op: Operation, args: Seq<ArgModel>, timestamp: u64) -> Result<
    PlanModel,
    HarnessError,
> {
    if args.len() != spec_arity(op) {
        Err(
            HarnessError::ArityMismatch {
                expected: spec_arity(op) as usize,
                actual: args.len() as usize,
            },
        )
    } else {
        match op {
            Operation::Add | Operation::Multiply => {
                let scale = crate::ops::spec_scale_for(op);
                if !dec_arg_ok(args[0], scale) {
                    Err(HarnessError::InvalidArgument { position: 0 })
                } else if !dec_arg_ok(args[1], scale) {
                    Err(HarnessError::InvalidArgument { position: 1 })
                } else {
                    Ok(
                        PlanModel {
                            operation: op,
                            payload: spec_i64_le(dec_arg_fixed(args[0], scale)) + spec_i64_le(
                                dec_arg_fixed(args[1], scale),
                            ),
                            image: ImageRefModel::Builtin(op),
                        },
                    )
                }
            },
            Operation::Sqrt => {
                let scale = crate::ops::spec_scale_for(op);
                if !dec_arg_ok(args[0], scale) {
                    Err(HarnessError::InvalidArgument { position: 0 })
                } else {
                    Ok(
                        PlanModel {
                            operation: op,
                            payload: spec_i64_le(dec_arg_fixed(args[0], scale)),
                            image: ImageRefModel::Builtin(op),
                        },
                    )
                }
            },
            Operation::Modexp | Operation::Range => if !(args[0] is UInt) {
                Err(HarnessError::InvalidArgument { position: 0 })
            } else if !(args[1] is UInt) {
                Err(HarnessError::InvalidArgument { position: 1 })
            } else if !(args[2] is UInt) {
                Err(HarnessError::InvalidArgument { position: 2 })
            } else {
                Ok(
                    PlanModel {
                        operation: op,
                        payload: spec_u64_to_le_bytes(args[0]->UInt_0) + spec_u64_to_le_bytes(
                            args[1]->UInt_0,
                        ) + spec_u64_to_le_bytes(args[2]->UInt_0),
                        image: ImageRefModel::Builtin(op),
                    },
                )
            },
            Operation::AuthenticatedAdd => if !(args[0] is Int) {
                Err(HarnessError::InvalidArgument { position: 0 })
            } else if !(args[1] is Int) {
                Err(HarnessError::InvalidArgument { position: 1 })
            } else if !(args[2] is Text) {
                Err(HarnessError::InvalidArgument { position: 2 })
            } else {
                let a = args[0]->Int_0;
                let b = args[1]->Int_0;
                let task = spec_task_id(timestamp, a, b, args[2]->Text_0);
                if vstd::utf8::encode_utf8(task).len() > u32::MAX {
                    Err(HarnessError::InvalidArgument { position: 2 })
                } else {
                    Ok(
                        PlanModel {
                            operation: op,
                            payload: spec_i64_le(a) + spec_i64_le(b) + spec_u64_to_le_bytes(
                                timestamp,
                            ) + spec_str_field(task),
                            image: ImageRefModel::Builtin(op),
                        },
                    )
                }
            },
            Operation::Dynamic => if !(args[0] is Text) {
                Err(HarnessError::InvalidArgument { position: 0 })
            } else if !json_arg_ok(args[1]) {
                Err(HarnessError::InvalidArgument { position: 1 })
            } else {
                Ok(
                    PlanModel {
                        operation: op,
                        payload: spec_str_field(args[1]->Text_0),
                        image: ImageRefModel::DynamicSource(args[0]->Text_0),
                    },
                )
            },
            Operation::Precompiled => if !(args[0] is Blob) {
                Err(HarnessError::InvalidArgument { position: 0 })
            } else if !json_arg_ok(args[1]) {
                Err(HarnessError::InvalidArgument { position: 1 })
            } else {
                Ok(
                    PlanModel {
                        operation: op,
                        payload: spec_str_field(args[1]->Text_0),
                        image: ImageRefModel::PrecompiledBinary(args[0]->Blob_0),
                    },
                )
            },
        }
    }
}

/// The model of a dispatch outcome.
pub open spec fn dispatch_outcome(r: Result<DispatchPlan, HarnessError>) -> Result<
    PlanModel,
    HarnessError,
> {
    match r {
        Ok(plan) => Ok(plan@),
        Err(e) => Err(e),
    }
}

/// Validates arity and argument kinds for an operation, rescales decimal
/// arguments, and lays out the request payload. Fails with `ArityMismatch`
/// exactly when the argument count is wrong — before anything else — and
/// with `InvalidArgument` at the first unusable position. Nothing is proved
/// here about the proving engine: no proving call is made.
pub fn dispatch(op: Operation, args: &Vec<ArgValue>, timestamp: u64) -> (r: Result<
    DispatchPlan,
    HarnessError,
>)
    ensures
        dispatch_outcome(r) == spec_dispatch(op, args@.map_values(|a: ArgValue| a@), timestamp),
{
    let ghost margs = args@.map_values(|a: ArgValue| a@);
    let expected = crate::ops::arity(op);
    if args.len() != expected {
        return Err(HarnessError::ArityMismatch { expected, actual: args.len() });
    }
    match op {
        Operation::Add | Operation::Multiply => {
            let scale = crate::ops::scale_for(op);
            let a = match parse_dec_arg(args, 0, scale) {
                Ok(v) => v,
                Err(e) => {
                    return Err(e);
                },
            };
            let b = match parse_dec_arg(args, 1, scale) {
                Ok(v) => v,
                Err(e) => {
                    return Err(e);
                },
            };
            let mut payload: Vec<u8> = Vec::new();
            push_i64_le(&mut payload, a);
            push_i64_le(&mut payload, b);
            proof {
                assert(payload@ =~= spec_i64_le(dec_arg_fixed(margs[0], scale as u64))
                    + spec_i64_le(dec_arg_fixed(margs[1], scale as u64)));
            }
            Ok(DispatchPlan { operation: op, payload, image: ImageRef::Builtin(op) })
        },
        Operation::Sqrt => {
            let scale = crate::ops::scale_for(op);
            let a = match parse_dec_arg(args, 0, scale) {
                Ok(v) => v,
                Err(e) => {
                    return Err(e);
                },
            };
            let mut payload: Vec<u8> = Vec::new();
            push_i64_le(&mut payload, a);
            proof {
                assert(payload@ =~= spec_i64_le(dec_arg_fixed(margs[0], scale as u64)));
            }
            Ok(DispatchPlan { operation: op, payload, image: ImageRef::Builtin(op) })
        },
        Operation::Modexp | Operation::Range => {
            let x0 = match parse_uint_arg(args, 0) {
                Ok(v) => v,
                Err(e) => {
                    return Err(e);
                },
            };
            let x1 = match parse_uint_arg(args, 1) {
                Ok(v) => v,
                Err(e) => {
                    return Err(e);
                },
            };
            let x2 = match parse_uint_arg(args, 2) {
                Ok(v) => v,
                Err(e) => {
                    return Err(e);
                },
            };
            let mut payload: Vec<u8> = Vec::new();
            push_u64_le(&mut payload, x0);
            push_u64_le(&mut payload, x1);
            push_u64_le(&mut payload, x2);
            proof {
                assert(payload@ =~= spec_u64_to_le_bytes(margs[0]->UInt_0) + spec_u64_to_le_bytes(
                    margs[1]->UInt_0,
                ) + spec_u64_to_le_bytes(margs[2]->UInt_0));
            }
            Ok(DispatchPlan { operation: op, payload, image: ImageRef::Builtin(op) })
        },
        Operation::AuthenticatedAdd => {
            let a = match &args[0] {
                ArgValue::Int(v) => *v,
                _ => {
                    return Err(HarnessError::InvalidArgument { position: 0 });
                },
            };
            let b = match &args[1] {
                ArgValue::Int(v) => *v,
                _ => {
                    return Err(HarnessError::InvalidArgument { position: 1 });
                },
            };
            let key_id = match &args[2] {
                ArgValue::Text(s) => s,
                _ => {
                    return Err(HarnessError::InvalidArgument { position: 2 });
                },
            };
            let task = make_task_id(timestamp, a, b, key_id.as_str());
            if task.as_str().as_bytes().len() > u32::MAX as usize {
                return Err(HarnessError::InvalidArgument { position: 2 });
            }
            let mut payload: Vec<u8> = Vec::new();
            push_i64_le(&mut payload, a);
            push_i64_le(&mut payload, b);
            push_u64_le(&mut payload, timestamp);
            push_str_field(&mut payload, task.as_str());
            proof {
                assert(payload@ =~= spec_i64_le(a) + spec_i64_le(b) + spec_u64_to_le_bytes(
                    timestamp,
                ) + spec_str_field(task@));
            }
            Ok(DispatchPlan { operation: op, payload, image: ImageRef::Builtin(op) })
        },
        Operation::Dynamic => {
            let source = match &args[0] {
                ArgValue::Text(s) => s,
                _ => {
                    return Err(HarnessError::InvalidArgument { position: 0 });
                },
            };
            let json = match parse_json_arg(args, 1) {
                Ok(v) => v,
                Err(e) => {
                    return Err(e);
                },
            };
            let mut payload: Vec<u8> = Vec::new();
            push_str_field(&mut payload, json.as_str());
            proof {
                assert(payload@ =~= spec_str_field(margs[1]->Text_0));
            }
            Ok(
                DispatchPlan {
                    operation: op,
                    payload,
                    image: ImageRef::DynamicSource(source.clone()),
                },
            )
        },
        Operation::Precompiled => {
            let binary = match &args[0] {
                ArgValue::Blob(b) => b,
                _ => {
                    return Err(HarnessError::InvalidArgument { position: 0 });
                },
            };
            let json = match parse_json_arg(args, 1) {
                Ok(v) => v,
                Err(e) => {
                    return Err(e);
                },
            };
            let mut payload: Vec<u8> = Vec::new();
            push_str_field(&mut payload, json.as_str());
            proof {
                assert(payload@ =~= spec_str_field(margs[1]->Text_0));
            }
            Ok(
                DispatchPlan {
                    operation: op,
                    payload,
                    image: ImageRef::PrecompiledBinary(binary.clone()),
                },
            )
        },
    }
}

/// Plans one invocation from the operation's name: resolves the name, then
/// dispatches. Unrecognized names fail with `UnknownOperation` before the
/// arguments are looked at.
pub fn plan_invocation(name: &str, args: &Vec<ArgValue>, timestamp: u64) -> (r: Result<
    DispatchPlan,
    HarnessError,
>)
    ensures
        crate::ops::spec_operation_for_name(name@) is None <==> (r matches Err(e)
            && e is UnknownOperation),
        crate::ops::spec_operation_for_name(name@) matches Some(op) ==> dispatch_outcome(r)
            == spec_dispatch(op, args@.map_values(|a: ArgValue| a@), timestamp),
{
    match crate::ops::resolve_operation(name) {
        Ok(op) => dispatch(op, args, timestamp),
        Err(e) => Err(e),
    }
}

/// Reads a fixed-point result field back as a decimal, at the same scale
/// the operation's family used to encode and rescale — never the other
/// family's.
pub fn result_decimal(op: Operation, fixed: i64) -> (r: Decimal)
    requires
        valid_scale(crate::ops::spec_scale_for(op)),
    ensures
        r.wf(),
        r.negative == (fixed < 0),
        r.mantissa == vstd::math::abs(fixed as int),
        r.spec_den() == crate::ops::spec_scale_for(op),
{
    from_fixed(fixed, crate::ops::scale_for(op))
}

/// Fetches a decimal argument and rescales it at the operation's scale,
/// rejecting anything of the wrong kind or out of range at that position.
fn parse_dec_arg(args: &Vec<ArgValue>, position: usize, scale: u64) -> (r: Result<
    i64,
    HarnessError,
>)
    requires
        position < args@.len(),
        valid_scale(scale),
    ensures
        dec_arg_ok(args@[position as int]@, scale) <==> (r matches Ok(v) && v == dec_arg_fixed(
            args@[position as int]@,
            scale,
        )),
        !dec_arg_ok(args@[position as int]@, scale) <==> r == Err::<i64, HarnessError>(
            HarnessError::InvalidArgument { position },
        ),
{
    match &args[position] {
        ArgValue::Dec(d) => {
            if d.frac_digits > 18 {
                return Err(HarnessError::InvalidArgument { position });
            }
            let den = crate::fixed::pow10_u64(d.frac_digits);
            proof {
                crate::fixed::lemma_pow10_monotone(0, d.frac_digits as nat);
            }
            proof {
                assert((d.mantissa as int) * (scale as int) <= (u64::MAX as int) * 100_000)
                    by (nonlinear_arith)
                    requires
                        d.mantissa <= u64::MAX && scale <= 100_000,
                ;
            }
            let num: u128 = d.mantissa as u128 * scale as u128 + (den / 2) as u128;
            let q: u128 = num / (den as u128);
            proof {
                vstd::arithmetic::div_mod::lemma_div_is_ordered(
                    0,
                    d.mantissa as int * scale as int + den as int / 2,
                    den as int,
                );
            }
            if q > i64::MAX as u128 {
                return Err(HarnessError::InvalidArgument { position });
            }
            Ok(to_fixed(d, scale))
        },
        _ => Err(HarnessError::InvalidArgument { position }),
    }
}

/// Fetches an unsigned integer argument, rejecting anything of the wrong
/// kind at that position.
fn parse_uint_arg(args: &Vec<ArgValue>, position: usize) -> (r: Result<u64, HarnessError>)
    requires
        position < args@.len(),
    ensures
        args@[position as int]@ is UInt <==> (r matches Ok(v) && v == args@[position as int]@
            ->UInt_0),
        !(args@[position as int]@ is UInt) <==> r == Err::<u64, HarnessError>(
            HarnessError::InvalidArgument { position },
        ),
{
    match &args[position] {
        ArgValue::UInt(v) => Ok(*v),
        _ => Err(HarnessError::InvalidArgument { position }),
    }
}

/// Fetches a JSON argument, rejecting anything of the wrong kind, anything
/// serde_json refuses, and anything too long for its length field.
fn parse_json_arg<'a>(args: &'a Vec<ArgValue>, position: usize) -> (r: Result<
    &'a String,
    HarnessError,
>)
    requires
        position < args@.len(),
    ensures
        json_arg_ok(args@[position as int]@) <==> (r matches Ok(v) && v@ == args@[position as int]@
            ->Text_0),
        !json_arg_ok(args@[position as int]@) <==> r == Err::<&'a String, HarnessError>(
            HarnessError::InvalidArgument { position },
        ),
{
    match &args[position] {
        ArgValue::Text(s) => {
            if !json_text_valid(s.as_str()) {
                return Err(HarnessError::InvalidArgument { position });
            }
            if s.as_str().as_bytes().len() > u32::MAX as usize {
                return Err(HarnessError::InvalidArgument { position });
            }
            Ok(s)
        },
        _ => Err(HarnessError::InvalidArgument { position }),
    }
}

} // verus!
