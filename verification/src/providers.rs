//! The chat providers an agent may talk to, registered by name in insertion
//! order, and the model and provider it currently talks to. What a provider
//! is stays the caller's: the registry holds any value.

use vstd::prelude::*;

use crate::agent::{no_provider_error, no_provider_message};
use crate::protocol::{ProviderError, ProviderErrorKind};

verus! {

/// The names of a registry's entries, in order.
pub open spec fn names_of<P>(entries: Seq<(Seq<char>, P)>) -> Seq<Seq<char>> {
    entries.map_values(|e: (Seq<char>, P)| e.0)
}

/// Providers by name, in insertion order. No name occurs twice.
pub struct ProviderSet<P> {
    providers: Vec<(String, P)>,
}

impl<P> View for ProviderSet<P> {
    type V = Seq<(Seq<char>, P)>;

    closed spec fn view(&self) -> Seq<(Seq<char>, P)> {
        self.providers@.map_values(|e: (String, P)| (e.0@, e.1))
    }
}

impl<P> ProviderSet<P> {
    #[verifier::type_invariant]
    spec fn names_distinct(&self) -> bool {
        names_of(self@).no_duplicates()
    }

    /// An empty registry.
    pub fn new() -> (r: Self)
        ensures
            r@ == Seq::<(Seq<char>, P)>::empty(),
    {
        let r = ProviderSet { providers: Vec::new() };
        assert(names_of(r@) =~= Seq::<Seq<char>>::empty());
        r
    }

    /// Registers `provider` under `name`. A name already registered keeps
    /// its place and gets the new provider; a new name goes last. No name
    /// ever occurs twice.
    pub fn insert(&mut self, name: String, provider: P)
        ensures
            if names_of(old(self)@).contains(name@) {
                exists|i: int|
                    0 <= i < old(self)@.len() && old(self)@[i].0 == name@ && final(self)@ == old(
                        self,
                    )@.update(i, (name@, provider))
            } else {
                final(self)@ == old(self)@.push((name@, provider))
            },
            names_of(final(self)@).no_duplicates(),
    {
        proof {
            use_type_invariant(&*self);
        }
        let ghost before = old(self)@;
        let mut i: usize = 0;
        while i < self.providers.len()
            invariant
                0 <= i <= self.providers.len(),
                self@ == before,
                before == old(self)@,
                names_of(before).no_duplicates(),
                forall|j: int| 0 <= j < i ==> before[j].0 != name@,
            decreases self.providers.len() - i,
        {
            if self.providers[i].0 == name {
                let ghost key = name@;
                let mut providers = Vec::new();
                std::mem::swap(&mut providers, &mut self.providers);
                providers.set(i, (name, provider));
                proof {
                    let after = providers@.map_values(|e: (String, P)| (e.0@, e.1));
                    assert(after =~= before.update(i as int, (key, provider)));
                    assert(names_of(after) =~= names_of(before));
                    assert(names_of(before).contains(key)) by {
                        assert(names_of(before)[i as int] == key);
                    }
                }
                self.providers = providers;
                assert(self@ =~= before.update(i as int, (key, provider)));
                assert(before[i as int].0 == key);
                return;
            }
            i += 1;
        }
        let ghost key = name@;
        let mut providers = Vec::new();
        std::mem::swap(&mut providers, &mut self.providers);
        providers.push((name, provider));
        proof {
            let after = providers@.map_values(|e: (String, P)| (e.0@, e.1));
            assert(after =~= before.push((key, provider)));
            assert(names_of(after) =~= names_of(before).push(key));
            assert(!names_of(before).contains(key)) by {
                if names_of(before).contains(key) {
                    let j = choose|j: int| 0 <= j < names_of(before).len() && names_of(before)[j] == key;
                    assert(before[j].0 == key);
                }
            }
        }
        self.providers = providers;
        proof {
            use_type_invariant(&*self);
        }
    }

    /// The provider registered under `name`, if any.
    pub fn get(&self, name: &str) -> (r: Option<&P>)
        ensures
            match r {
                Some(p) => exists|i: int| 0 <= i < self@.len() && self@[i].0 == name@ && self@[i].1 == *p,
                None => !names_of(self@).contains(name@),
            },
    {
        let mut i: usize = 0;
        while i < self.providers.len()
            invariant
                0 <= i <= self.providers.len(),
                forall|j: int| 0 <= j < i ==> self@[j].0 != name@,
            decreases self.providers.len() - i,
        {
            if crate::text::str_equals(self.providers[i].0.as_str(), name) {
                assert(self@[i as int].0 == name@);
                return Some(&self.providers[i].1);
            }
            i += 1;
        }
        proof {
            if names_of(self@).contains(name@) {
                let j = choose|j: int| 0 <= j < names_of(self@).len() && names_of(self@)[j] == name@;
                assert(self@[j].0 == name@);
            }
        }
        None
    }

    /// The provider a Send or a load goes to: the one registered under
    /// `name`, or the misconfiguration of an agent with no provider.
    pub fn selected(&self, name: &str) -> (r: Result<&P, ProviderError>)
        ensures
            match r {
                Ok(p) => exists|i: int| 0 <= i < self@.len() && self@[i].0 == name@ && self@[i].1 == *p,
                Err(e) => !names_of(self@).contains(name@) && e.kind == ProviderErrorKind::Config
                    && e.code is None && e.message@ == no_provider_message(),
            },
    {
        match self.get(name) {
            Some(p) => Ok(p),
            None => Err(no_provider_error()),
        }
    }

    /// The registered names, in insertion order.
    pub fn names(&self) -> (r: Vec<&str>)
        ensures
            r@.map_values(|s: &str| s@) == names_of(self@),
    {
        let mut out: Vec<&str> = Vec::new();
        let mut i: usize = 0;
        while i < self.providers.len()
            invariant
                0 <= i <= self.providers.len(),
                out@.len() == i,
                forall|j: int| 0 <= j < i ==> out@[j]@ == self@[j].0,
            decreases self.providers.len() - i,
        {
            out.push(self.providers[i].0.as_str());
            i += 1;
        }
        assert(out@.map_values(|s: &str| s@) =~= names_of(self@));
        out
    }
}

/// The model an agent asks for and the provider it asks.
pub struct ModelSelection {
    model: String,
    provider: String,
}

impl View for ModelSelection {
    type V = (Seq<char>, Seq<char>);

    closed spec fn view(&self) -> (Seq<char>, Seq<char>) {
        (self.model@, self.provider@)
    }
}

impl ModelSelection {
    /// No model and no provider yet: both empty.
    pub fn new() -> (r: Self)
        ensures
            r@ == (Seq::<char>::empty(), Seq::<char>::empty()),
    {
        ModelSelection { model: String::new(), provider: String::new() }
    }

    /// Selects `model`; a given provider is selected too, while `None` keeps
    /// the provider selected before.
    pub fn set_model(&mut self, model: String, provider: Option<&str>)
        ensures
            final(self)@.0 == model@,
            final(self)@.1 == match provider {
                Some(p) => p@,
                None => old(self)@.1,
            },
    {
        self.model = model;
        if let Some(p) = provider {
            self.provider = p.to_owned();
        }
    }

    /// The selected model.
    pub fn current_model(&self) -> (r: &str)
        ensures
            r@ == self@.0,
    {
        self.model.as_str()
    }

    /// The selected provider.
    pub fn current_provider(&self) -> (r: &str)
        ensures
            r@ == self@.1,
    {
        self.provider.as_str()
    }
}

} // verus!
