//! Error carriers handed back to the services around the library.
use vstd::prelude::*;

verus! {

#[verifier::external_type_specification]
#[verifier::external_body]
pub struct ExAnyhowError(anyhow::Error);

/// The errors of several tasks that ran side by side, in the order of the
/// tasks.
#[derive(Debug)]
pub struct IndividualErrorList<E> {
    list: Vec<E>,
}

impl<E> IndividualErrorList<E> {
    pub closed spec fn errors(&self) -> Seq<E> {
        self.list@
    }

    pub fn from(list: Vec<E>) -> (r: Self)
        ensures
            r.errors() == list@,
    {
        IndividualErrorList { list }
    }

    pub fn list(&self) -> (r: &Vec<E>)
        ensures
            r@ == self.errors(),
    {
        &self.list
    }
}

/// An error of the HTTP handlers, carrying the error chain that caused it.
#[derive(Debug)]
pub struct AnyhowErrorWrapper {
    err: anyhow::Error,
}

impl AnyhowErrorWrapper {
    pub closed spec fn inner(&self) -> anyhow::Error {
        self.err
    }

    pub fn from(err: anyhow::Error) -> (r: AnyhowErrorWrapper)
        ensures
            r.inner() == err,
    {
        AnyhowErrorWrapper { err }
    }

    pub fn into_inner(self) -> (r: anyhow::Error)
        ensures
            r == self.inner(),
    {
        self.err
    }
}

} // verus!
