//! What can be wrong with a catalog or with a request to it.

use vstd::prelude::*;

use crate::descriptor::{is_environment_name, valid_environment_name};
use crate::text::{agrees, cat2, cat4};

verus! {

#[derive(Debug)]
pub enum CatalogError {
    Read { path: String, source: String },
    Parse { path: String, source: String },
    Validation(String),
    IdentityMismatch(String),
    Resolution(String),
}

#[verifier::ext_equal]
pub enum CatalogErrorView {
    Read { path: Seq<char>, source: Seq<char> },
    Parse { path: Seq<char>, source: Seq<char> },
    Validation(Seq<char>),
    IdentityMismatch(Seq<char>),
    Resolution(Seq<char>),
}

impl View for CatalogError {
    type V = CatalogErrorView;

    open spec fn view(&self) -> CatalogErrorView {
        match self {
            CatalogError::Read { path, source } => CatalogErrorView::Read {
                path: path@,
                source: source@,
            },
            CatalogError::Parse { path, source } => CatalogErrorView::Parse {
                path: path@,
                source: source@,
            },
            CatalogError::Validation(m) => CatalogErrorView::Validation(m@),
            CatalogError::IdentityMismatch(m) => CatalogErrorView::IdentityMismatch(m@),
            CatalogError::Resolution(m) => CatalogErrorView::Resolution(m@),
        }
    }
}

impl CatalogErrorView {
    pub open spec fn text(self) -> Seq<char> {
        match self {
            CatalogErrorView::Read { path, source } => "failed to read runtime catalog "@ + path
                + ": "@ + source,
            CatalogErrorView::Parse { path, source } => "failed to parse runtime catalog "@ + path
                + ": "@ + source,
            CatalogErrorView::Validation(m) => "invalid runtime catalog: "@ + m,
            CatalogErrorView::IdentityMismatch(m) => "runtime identity mismatch: "@ + m,
            CatalogErrorView::Resolution(m) => "runtime catalog resolution failed: "@ + m,
        }
    }
}

impl CatalogError {
    pub fn message(&self) -> (r: String)
        ensures
            r@ == self@.text(),
    {
        match self {
            CatalogError::Read { path, source } => cat4(
                "failed to read runtime catalog ",
                path.as_str(),
                ": ",
                source.as_str(),
            ),
            CatalogError::Parse { path, source } => cat4(
                "failed to parse runtime catalog ",
                path.as_str(),
                ": ",
                source.as_str(),
            ),
            CatalogError::Validation(m) => cat2("invalid runtime catalog: ", m.as_str()),
            CatalogError::IdentityMismatch(m) => cat2("runtime identity mismatch: ", m.as_str()),
            CatalogError::Resolution(m) => cat2("runtime catalog resolution failed: ", m.as_str()),
        }
    }
}

pub open spec fn environment_name_checked(label: Seq<char>, value: Seq<char>) -> Result<
    (),
    CatalogErrorView,
> {
    if is_environment_name(value) {
        Ok(())
    } else {
        Err(CatalogErrorView::Validation(label + " "@ + value + " is invalid"@))
    }
}

pub fn validate_environment_name(label: &str, value: &str) -> (r: Result<(), CatalogError>)
    ensures
        agrees(r, environment_name_checked(label@, value@)),
{
    if valid_environment_name(value) {
        Ok(())
    } else {
        Err(CatalogError::Validation(cat4(label, " ", value, " is invalid")))
    }
}

} // verus!
