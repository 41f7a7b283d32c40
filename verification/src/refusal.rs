//! What a caller is told whose request does not go through.
use vstd::prelude::*;

verus! {

/// An answer that refuses a request.
#[derive(Debug, PartialEq, Eq)]
pub enum Refusal {
    /// The request makes no sense as it is.
    Bad(String),
    /// What it names is not there.
    NotFound(String),
    /// It cannot be granted now. The detail is a JSON text.
    Conflict { message: String, detail: String },
    /// It could not be carried out.
    Failed(String),
}

/// What a `Refusal` holds.
#[verifier::ext_equal]
pub enum RefusalView {
    Bad(Seq<char>),
    NotFound(Seq<char>),
    Conflict { message: Seq<char>, detail: Seq<char> },
    Failed(Seq<char>),
}

impl View for Refusal {
    type V = RefusalView;

    open spec fn view(&self) -> RefusalView {
        match *self {
            Refusal::Bad(m) => RefusalView::Bad(m@),
            Refusal::NotFound(m) => RefusalView::NotFound(m@),
            Refusal::Conflict { message, detail } => RefusalView::Conflict { message: message@, detail: detail@ },
            Refusal::Failed(m) => RefusalView::Failed(m@),
        }
    }
}

} // verus!
