use vstd::prelude::*;

verus! {

/// Mathematical form of a `DynArgError`: the variant plus the name it carries.
pub enum ErrorModel {
    NoSuchArg(Seq<char>),
    NotOfType(Seq<char>),
}

/// An error for passing failures up the call chain.
///
/// `NoSuchArg` means a lookup by name found no entry. `NotOfType` means the
/// entry exists but the stored value's type differs from the requested one.
/// Both are ordinary result values: the container never aborts.
#[derive(Debug, PartialEq, Eq)]
pub enum DynArgError {
    NoSuchArg { name: String },
    NotOfType { name: String },
}

impl View for DynArgError {
    type V = ErrorModel;

    open spec fn view(&self) -> ErrorModel {
        match self {
            DynArgError::NoSuchArg { name } => ErrorModel::NoSuchArg(name@),
            DynArgError::NotOfType { name } => ErrorModel::NotOfType(name@),
        }
    }
}

} // verus!
