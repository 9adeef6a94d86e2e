//! Field values whose ownership is known.
use vstd::prelude::*;
use crate::json;
use crate::json::{Json, JsonView};
use crate::model;

verus! {

/// A field value after resolution: one that the desired state owns, one that it
/// only sets while the live side has none, or none at all.
#[derive(Debug, PartialEq, Eq)]
pub enum ResolvedFieldValue {
    Managed(Json),
    Initial(Json),
    Unmanaged,
}

/// A field value, with the text that its JSON value stands for.
pub enum FieldValueView {
    Managed(Seq<char>),
    Initial(Seq<char>),
    Unmanaged,
}

impl View for ResolvedFieldValue {
    type V = FieldValueView;

    open spec fn view(&self) -> FieldValueView {
        match self {
            ResolvedFieldValue::Managed(value) => FieldValueView::Managed(plain_text(value@)),
            ResolvedFieldValue::Initial(value) => FieldValueView::Initial(plain_text(value@)),
            ResolvedFieldValue::Unmanaged => FieldValueView::Unmanaged,
        }
    }
}

/// The text of a field value: a string is itself, any other value is its JSON
/// text.
pub open spec fn plain_text(value: JsonView) -> Seq<char> {
    match value {
        JsonView::String(s) => s,
        other => json::json_text(other),
    }
}

/// The text that a field value carries, where it carries one.
pub open spec fn value_of(field: FieldValueView) -> Option<Seq<char>> {
    match field {
        FieldValueView::Managed(value) => Some(value),
        FieldValueView::Initial(value) => Some(value),
        FieldValueView::Unmanaged => None,
    }
}

fn text_of(value: &Json) -> (r: String)
    ensures
        r@ == plain_text(value@),
{
    match value {
        Json::String(s) => s.clone(),
        other => other.text(),
    }
}

impl ResolvedFieldValue {
    /// The text that the value carries, where it carries one.
    pub fn value(&self) -> (r: Option<String>)
        ensures
            model::opt_view(r) == value_of(self@),
    {
        match self {
            ResolvedFieldValue::Managed(value) => Some(text_of(value)),
            ResolvedFieldValue::Initial(value) => Some(text_of(value)),
            ResolvedFieldValue::Unmanaged => None,
        }
    }

    /// Whether the value is only set while the live side has none.
    pub fn is_initial(&self) -> (r: bool)
        ensures
            r == self@ is Initial,
    {
        match self {
            ResolvedFieldValue::Initial(_) => true,
            _ => false,
        }
    }

    /// Whether the field is left alone.
    pub fn is_unmanaged(&self) -> (r: bool)
        ensures
            r == self@ is Unmanaged,
    {
        match self {
            ResolvedFieldValue::Unmanaged => true,
            _ => false,
        }
    }
}

} // verus!
