use vstd::prelude::*;

use crate::error::{DynArgError, ErrorModel};

verus! {

/// The closed set of types a value can be stored at.
///
/// A caller requests a value back by naming one of these; a request is served
/// only when it names exactly the stored variant, with no coercion.
#[derive(Clone, Copy, Debug, PartialEq, Eq, Structural)]
pub enum ArgKind {
    Str,
    I32,
    I64,
    Bool,
    F32,
    F64,
}

/// A single argument value with its type erased into a tagged union.
///
/// Floating-point values are carried as their IEEE 754 bit patterns
/// (`f32::to_bits` / `f64::to_bits`), so that the container itself never
/// computes on a float; converting at the boundary is the caller's business.
#[derive(Debug, PartialEq, Eq)]
pub enum ArgData {
    Str(String),
    I32(i32),
    I64(i64),
    Bool(bool),
    F32Bits(u32),
    F64Bits(u64),
}

/// Mathematical form of an `ArgData` value.
#[verifier::ext_equal]
pub enum DataModel {
    Str(Seq<char>),
    I32(i32),
    I64(i64),
    Bool(bool),
    F32Bits(u32),
    F64Bits(u64),
}

impl DataModel {
    /// The kind a stored value answers to.
    pub open spec fn kind(self) -> ArgKind {
        match self {
            DataModel::Str(_) => ArgKind::Str,
            DataModel::I32(_) => ArgKind::I32,
            DataModel::I64(_) => ArgKind::I64,
            DataModel::Bool(_) => ArgKind::Bool,
            DataModel::F32Bits(_) => ArgKind::F32,
            DataModel::F64Bits(_) => ArgKind::F64,
        }
    }
}

impl View for ArgData {
    type V = DataModel;

    open spec fn view(&self) -> DataModel {
        match self {
            ArgData::Str(s) => DataModel::Str(s@),
            ArgData::I32(v) => DataModel::I32(*v),
            ArgData::I64(v) => DataModel::I64(*v),
            ArgData::Bool(v) => DataModel::Bool(*v),
            ArgData::F32Bits(v) => DataModel::F32Bits(*v),
            ArgData::F64Bits(v) => DataModel::F64Bits(*v),
        }
    }
}

impl Clone for ArgData {
    fn clone(&self) -> (r: Self)
        ensures
            r@ == self@,
    {
        match self {
            ArgData::Str(s) => ArgData::Str(s.clone()),
            ArgData::I32(v) => ArgData::I32(*v),
            ArgData::I64(v) => ArgData::I64(*v),
            ArgData::Bool(v) => ArgData::Bool(*v),
            ArgData::F32Bits(v) => ArgData::F32Bits(*v),
            ArgData::F64Bits(v) => ArgData::F64Bits(*v),
        }
    }
}

impl ArgData {
    /// The kind of the stored value.
    pub fn kind(&self) -> (k: ArgKind)
        ensures
            k == self@.kind(),
    {
        match self {
            ArgData::Str(_) => ArgKind::Str,
            ArgData::I32(_) => ArgKind::I32,
            ArgData::I64(_) => ArgKind::I64,
            ArgData::Bool(_) => ArgKind::Bool,
            ArgData::F32Bits(_) => ArgKind::F32,
            ArgData::F64Bits(_) => ArgKind::F64,
        }
    }
}

/// The label a kind is reported under in a `NotOfType` error raised by a
/// bare `Arg`, mirroring the Rust name of the requested type.
pub open spec fn kind_label_spec(k: ArgKind) -> Seq<char> {
    match k {
        ArgKind::Str => "String"@,
        ArgKind::I32 => "i32"@,
        ArgKind::I64 => "i64"@,
        ArgKind::Bool => "bool"@,
        ArgKind::F32 => "f32"@,
        ArgKind::F64 => "f64"@,
    }
}

/// The printable label of a kind.
pub fn kind_label(k: ArgKind) -> (r: String)
    ensures
        r@ == kind_label_spec(k),
{
    match k {
        ArgKind::Str => "String".to_owned(),
        ArgKind::I32 => "i32".to_owned(),
        ArgKind::I64 => "i64".to_owned(),
        ArgKind::Bool => "bool".to_owned(),
        ArgKind::F32 => "f32".to_owned(),
        ArgKind::F64 => "f64".to_owned(),
    }
}

/// Mathematical form of an `Arg`: the stored value and its `used` flag.
#[verifier::ext_equal]
pub struct ArgModel {
    pub data: DataModel,
    pub used: bool,
}

/// A single stored argument: a type-erased value together with a `used`
/// flag that records whether the value has been read by a consuming,
/// correctly-typed access since the flag was last cleared.
#[derive(Debug)]
pub struct Arg {
    data: ArgData,
    used: bool,
}

impl View for Arg {
    type V = ArgModel;

    closed spec fn view(&self) -> ArgModel {
        ArgModel { data: self.data@, used: self.used }
    }
}

impl Clone for Arg {
    fn clone(&self) -> (r: Self)
        ensures
            r@ == self@,
    {
        Arg { data: self.data.clone(), used: self.used }
    }
}

impl Arg {
    /// Wrap a value in a fresh `Arg`; the `used` flag starts out `false`.
    pub fn new(data: ArgData) -> (r: Self)
        ensures
            r@ == (ArgModel { data: data@, used: false }),
    {
        Arg { data, used: false }
    }

    /// Like `new`; kept as a second spelling for callers that already hold
    /// an `ArgData` under that name.
    pub fn from_argdata(data: ArgData) -> (r: Self)
        ensures
            r@ == (ArgModel { data: data@, used: false }),
    {
        Arg::new(data)
    }

    /// Read the value at the requested kind, without touching the `used`
    /// flag. Succeeds exactly when the stored value is of that kind; a
    /// mismatch reports the requested kind's label.
    pub fn get(&self, want: ArgKind) -> (r: Result<ArgData, DynArgError>)
        ensures
            (if self@.data.kind() == want {
                r matches Ok(d) && d@ == self@.data
            } else {
                r matches Err(e) && e@ == ErrorModel::NotOfType(kind_label_spec(want))
            }),
    {
        if self.data.kind() == want {
            Ok(self.data.clone())
        } else {
            Err(DynArgError::NotOfType { name: kind_label(want) })
        }
    }

    /// Like `get`, but a successful read also marks the value as used.
    /// A failed read leaves the flag exactly as it was.
    pub fn poke(&mut self, want: ArgKind) -> (r: Result<ArgData, DynArgError>)
        ensures
            (if old(self)@.data.kind() == want {
                r matches Ok(d) && d@ == old(self)@.data
                    && final(self)@ == (ArgModel { data: old(self)@.data, used: true })
            } else {
                r matches Err(e) && e@ == ErrorModel::NotOfType(kind_label_spec(want))
                    && final(self)@ == old(self)@
            }),
    {
        if self.data.kind() == want {
            self.used = true;
            Ok(self.data.clone())
        } else {
            Err(DynArgError::NotOfType { name: kind_label(want) })
        }
    }

    /// Report the current `used` flag.
    pub fn used(&self) -> (r: bool)
        ensures
            r == self@.used,
    {
        self.used
    }

    /// Clear the `used` flag, leaving the value alone.
    pub(crate) fn clear_used(&mut self)
        ensures
            final(self)@ == (ArgModel { data: old(self)@.data, used: false }),
    {
        self.used = false;
    }
}

} // verus!
