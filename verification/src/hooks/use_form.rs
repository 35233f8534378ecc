//! Form state: values, validation errors and a submitting flag.

use vstd::prelude::*;
use std::collections::HashMap;

verus! {

/// The state of a form: its values, the errors of the last validation
/// (field name to message), and whether it is being submitted.
pub struct FormState<T> {
    pub values: T,
    pub errors: HashMap<String, String>,
    pub is_submitting: bool,
}

impl<T> FormState<T> {
    /// A form holding `values`, with no errors, not submitting.
    pub fn new(values: T) -> (r: Self)
        ensures
            r.values == values,
            r.errors@ == Map::<String, String>::empty(),
            !r.is_submitting,
    {
        FormState { values, errors: HashMap::new(), is_submitting: false }
    }
}

/// Drives a [`FormState`]: every change is validated and handed to
/// `set_state`, which stores it (in a component's state hook).
pub struct FormHelper<T, S, Val> {
    state: FormState<T>,
    set_state: S,
    validate: Val,
}

impl<T: Clone, S: Fn(FormState<T>), Val: Fn(&T) -> HashMap<String, String>> FormHelper<T, S, Val> {
    pub closed spec fn state(&self) -> FormState<T> {
        self.state
    }

    pub closed spec fn setter(&self) -> S {
        self.set_state
    }

    pub closed spec fn validator(&self) -> Val {
        self.validate
    }

    pub fn new(state: FormState<T>, set_state: S, validate: Val) -> (r: Self)
        ensures
            r.state() == state,
            r.setter() == set_state,
            r.validator() == validate,
    {
        FormHelper { state, set_state, validate }
    }

    /// The current values.
    pub fn values(&self) -> (r: &T)
        ensures
            *r == self.state().values,
    {
        &self.state.values
    }

    /// The errors of the last validation.
    pub fn errors(&self) -> (r: &HashMap<String, String>)
        ensures
            *r == self.state().errors,
    {
        &self.state.errors
    }

    /// Whether the form is being submitted.
    pub fn is_submitting(&self) -> (r: bool)
        ensures
            r == self.state().is_submitting,
    {
        self.state.is_submitting
    }

    /// Apply `updater` to a copy of the values, validate the result, and hand
    /// the new state (new values, their errors, same submitting flag) to
    /// `set_state`.
    pub fn set_value<F: FnOnce(T) -> T>(&self, updater: F)
        requires
            forall|v: T| call_requires(updater, (v,)),
            forall|v: T| call_requires(self.validator(), (&v,)),
            forall|s: FormState<T>| call_requires(self.setter(), (s,)),
        ensures
            exists|copy: T, next: FormState<T>| {
                &&& cloned(self.state().values, copy)
                &&& call_ensures(updater, (copy,), next.values)
                &&& call_ensures(self.validator(), (&next.values,), next.errors)
                &&& next.is_submitting == self.state().is_submitting
                &&& call_ensures(self.setter(), (next,), ())
            },
    {
        let copy = self.state.values.clone();
        let ghost g_copy = copy;
        let values = updater(copy);
        assert(call_requires(self.validator(), (&values,)));
        let errors = (self.validate)(&values);
        let next = FormState { values, errors, is_submitting: self.state.is_submitting };
        let ghost g_next = next;
        assert(call_requires(self.setter(), (next,)));
        (self.set_state)(next);
        assert({
            &&& cloned(self.state().values, g_copy)
            &&& call_ensures(updater, (g_copy,), g_next.values)
            &&& call_ensures(self.validator(), (&g_next.values,), g_next.errors)
            &&& g_next.is_submitting == self.state().is_submitting
            &&& call_ensures(self.setter(), (g_next,), ())
        });
    }

    /// Hand a copy of the state with the submitting flag set to
    /// `is_submitting` to `set_state`.
    pub fn set_submitting(&self, is_submitting: bool)
        requires
            forall|s: FormState<T>| call_requires(self.setter(), (s,)),
        ensures
            exists|next: FormState<T>| {
                &&& cloned(self.state().values, next.values)
                &&& next.errors@ == self.state().errors@
                &&& next.is_submitting == is_submitting
                &&& call_ensures(self.setter(), (next,), ())
            },
    {
        let next = FormState {
            values: self.state.values.clone(),
            errors: self.state.errors.clone(),
            is_submitting,
        };
        let ghost g_next = next;
        assert(call_requires(self.setter(), (next,)));
        (self.set_state)(next);
        assert({
            &&& cloned(self.state().values, g_next.values)
            &&& g_next.errors@ == self.state().errors@
            &&& g_next.is_submitting == is_submitting
            &&& call_ensures(self.setter(), (g_next,), ())
        });
    }
}

} // verus!
