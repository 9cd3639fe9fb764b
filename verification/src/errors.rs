//! Errors reported while reading and expanding light-file declarations.
use vstd::prelude::*;

verus! {

#[derive(Debug, Clone, PartialEq, Eq)]
pub enum MacroCircomError {
    CheckUtxoInvalidHeaderFormat,
    CheckUtxoInvalidFormat,
    InvalidComparator(String),
    PropertyDefinedMultipleTimes,
    InvalidProperty,
    ParseInstanceError(String),
    LightTransactionUndefined,
    TemplateRenderError,
}

/// An error with its text taken by value.
pub enum ErrorView {
    CheckUtxoInvalidHeaderFormat,
    CheckUtxoInvalidFormat,
    InvalidComparator(Seq<char>),
    PropertyDefinedMultipleTimes,
    InvalidProperty,
    ParseInstanceError(Seq<char>),
    LightTransactionUndefined,
    TemplateRenderError,
}

impl View for MacroCircomError {
    type V = ErrorView;

    open spec fn view(&self) -> ErrorView {
        match self {
            MacroCircomError::CheckUtxoInvalidHeaderFormat => ErrorView::CheckUtxoInvalidHeaderFormat,
            MacroCircomError::CheckUtxoInvalidFormat => ErrorView::CheckUtxoInvalidFormat,
            MacroCircomError::InvalidComparator(s) => ErrorView::InvalidComparator(s@),
            MacroCircomError::PropertyDefinedMultipleTimes => ErrorView::PropertyDefinedMultipleTimes,
            MacroCircomError::InvalidProperty => ErrorView::InvalidProperty,
            MacroCircomError::ParseInstanceError(s) => ErrorView::ParseInstanceError(s@),
            MacroCircomError::LightTransactionUndefined => ErrorView::LightTransactionUndefined,
            MacroCircomError::TemplateRenderError => ErrorView::TemplateRenderError,
        }
    }
}

/// A result whose error is taken by value.
pub open spec fn result_view<T>(r: Result<T, MacroCircomError>) -> Result<T, ErrorView> {
    match r {
        Ok(v) => Ok(v),
        Err(e) => Err(e@),
    }
}

} // verus!
