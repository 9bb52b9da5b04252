//! Environment objects
//!
//! The environment is the building block of Envlang. An [`Environment`] holds the values
//! ([`EnvValue`]) read into it, in order; [`EnvScope`] tells where an environment is visible.
use vstd::prelude::*;

use crate::symbols::owned_text;

verus! {

/// Scope of an environment
///
/// - `LOCAL`: (default) Environment is accessible locally within its defined scope
/// - `GLOBAL`: Environment is accessible globally
/// - `INHERITED`: Environment is accessible locally and within the nested environment created
///   with the `inherit` keyword
#[derive(Debug, Clone, Copy, PartialEq, Eq, Structural)]
pub enum EnvScope {
    LOCAL,
    GLOBAL,
    INHERITED,
}

impl EnvScope {
    /// The description of the scope shown to a reader.
    pub open spec fn text(self) -> Seq<char> {
        match self {
            EnvScope::GLOBAL => seq!['G', 'l', 'o', 'b', 'a', 'l'],
            EnvScope::INHERITED => seq![
                'I', 'n', 'h', 'e', 'r', 'i', 't', 'e', 'd', ' ', 'f', 'r', 'o', 'm', ' ', 'p',
                'a', 'r', 'e', 'n', 't',
            ],
            EnvScope::LOCAL => seq!['L', 'o', 'c', 'a', 'l'],
        }
    }

    pub fn to_string(&self) -> (s: String)
        ensures
            s@ == self.text(),
    {
        proof {
            reveal_strlit("Global");
            reveal_strlit("Inherited from parent");
            reveal_strlit("Local");
        }
        match self {
            EnvScope::GLOBAL => owned_text("Global"),
            EnvScope::INHERITED => owned_text("Inherited from parent"),
            EnvScope::LOCAL => owned_text("Local"),
        }
    }
}

/// A value held by an environment.
///
/// A floating-point value is held as the decimal numeral it was written as (digits and one
/// full stop); reading it as a 64-bit float is left to the program that evaluates it.
#[derive(Debug, Clone, PartialEq)]
pub enum EnvValue {
    INT(isize),
    FLOAT(String),
    STRING(String),
    BOOL(bool),
}

/// The mathematical value of an [`EnvValue`].
pub enum EnvValueView {
    INT(isize),
    FLOAT(Seq<char>),
    STRING(Seq<char>),
    BOOL(bool),
}

impl View for EnvValue {
    type V = EnvValueView;

    open spec fn view(&self) -> EnvValueView {
        match self {
            EnvValue::INT(n) => EnvValueView::INT(*n),
            EnvValue::FLOAT(s) => EnvValueView::FLOAT(s@),
            EnvValue::STRING(s) => EnvValueView::STRING(s@),
            EnvValue::BOOL(b) => EnvValueView::BOOL(*b),
        }
    }
}

impl EnvValue {
    /// A copy of the value.
    pub fn duplicate(&self) -> (v: EnvValue)
        ensures
            v@ == self@,
    {
        match self {
            EnvValue::INT(n) => EnvValue::INT(*n),
            EnvValue::FLOAT(s) => EnvValue::FLOAT(s.clone()),
            EnvValue::STRING(s) => EnvValue::STRING(s.clone()),
            EnvValue::BOOL(b) => EnvValue::BOOL(*b),
        }
    }
}

/// The views of a sequence of values.
pub open spec fn value_views(vs: Seq<EnvValue>) -> Seq<EnvValueView> {
    vs.map_values(|v: EnvValue| v@)
}

/// An environment: the values read into it, in order.
pub struct Environment {
    elements: Vec<EnvValue>,
}

impl View for Environment {
    type V = Seq<EnvValueView>;

    closed spec fn view(&self) -> Seq<EnvValueView> {
        value_views(self.elements@)
    }
}

impl Environment {
    /// An empty environment.
    pub fn new() -> (env: Environment)
        ensures
            env@ == Seq::<EnvValueView>::empty(),
    {
        let env = Environment { elements: Vec::new() };
        assert(env@ =~= Seq::<EnvValueView>::empty());
        env
    }

    /// Adds a value after the values already held.
    pub fn add_element(&mut self, value: EnvValue)
        ensures
            final(self)@ == old(self)@.push(value@),
    {
        self.elements.push(value);
        assert(value_views(self.elements@) =~= value_views(old(self).elements@).push(value@));
    }

    /// The values held, in order.
    pub fn get_elements(&self) -> (elements: Vec<EnvValue>)
        ensures
            value_views(elements@) == self@,
    {
        let mut out: Vec<EnvValue> = Vec::new();
        let mut i: usize = 0;
        while i < self.elements.len()
            invariant
                i <= self.elements.len(),
                value_views(out@) == value_views(self.elements@.take(i as int)),
            decreases self.elements.len() - i,
        {
            let ghost before = value_views(out@);
            out.push(self.elements[i].duplicate());
            assert(value_views(out@) =~= before.push(self.elements@[i as int]@));
            assert(self.elements@.take(i + 1) =~= self.elements@.take(i as int).push(
                self.elements@[i as int],
            ));
            assert(value_views(self.elements@.take(i + 1)) =~= value_views(
                self.elements@.take(i as int),
            ).push(self.elements@[i as int]@));
            i += 1;
        }
        assert(self.elements@.take(self.elements.len() as int) =~= self.elements@);
        out
    }
}

} // verus!
