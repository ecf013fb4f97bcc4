use vstd::prelude::*;
use crate::apply::opt_view;
use crate::operator::{NameOrId, PropKey, names_match, same_name};
use crate::value::{Val, Value};

verus! {

/// A graph element: an identity, a label and, unless it is synthetic, a property store.
pub struct Element {
    pub id: i64,
    pub label: NameOrId,
    pub properties: Option<Vec<(NameOrId, Value)>>,
}

/// The value of the first property whose name matches `k`.
pub open spec fn lookup_spec(ps: Seq<(NameOrId, Value)>, k: NameOrId) -> Option<Val>
    decreases ps.len(),
{
    if ps.len() == 0 {
        None
    } else if same_name(ps[0].0, k) {
        Some(ps[0].1@)
    } else {
        lookup_spec(ps.drop_first(), k)
    }
}

/// A label as a value: an integer label as an integer, a named one as text.
pub open spec fn label_value(l: NameOrId) -> Val {
    match l {
        NameOrId::Id(i) => Val::Int(i as int),
        NameOrId::Str(s) => Val::Str(s@),
    }
}

/// What a variable reads from an element: its identity without a selector, else the
/// selected property, which needs a property store.
pub open spec fn read_spec(e: Element, key: Option<PropKey>) -> Option<Val> {
    match key {
        None => Some(Val::Int(e.id as int)),
        Some(k) => match e.properties {
            None => None,
            Some(ps) => match k {
                PropKey::Id => Some(Val::Int(e.id as int)),
                PropKey::Label => Some(label_value(e.label)),
                PropKey::Key(name) => lookup_spec(ps@, name),
            },
        },
    }
}

proof fn lemma_lookup_skip(ps: Seq<(NameOrId, Value)>, i: int, k: NameOrId)
    requires
        0 <= i < ps.len(),
        !same_name(ps[i].0, k),
    ensures
        lookup_spec(ps.subrange(i, ps.len() as int), k) == lookup_spec(
            ps.subrange(i + 1, ps.len() as int),
            k,
        ),
{
    assert(ps.subrange(i, ps.len() as int).drop_first() =~= ps.subrange(i + 1, ps.len() as int));
}

fn label_of(l: &NameOrId) -> (r: Value)
    ensures
        r@ == label_value(*l),
{
    match l {
        NameOrId::Id(i) => Value::Int(*i as i64),
        NameOrId::Str(s) => Value::Str(s.clone()),
    }
}

impl Element {
    /// Reads the identity (no selector) or a selected property of the element.
    pub fn read(&self, key: &Option<PropKey>) -> (r: Option<Value>)
        ensures
            opt_view(r) == read_spec(*self, *key),
    {
        match key {
            None => Some(Value::Int(self.id)),
            Some(k) => match &self.properties {
                None => None,
                Some(ps) => match k {
                    PropKey::Id => Some(Value::Int(self.id)),
                    PropKey::Label => Some(label_of(&self.label)),
                    PropKey::Key(name) => {
                        let mut i: usize = 0;
                        assert(ps@.subrange(0, ps@.len() as int) =~= ps@);
                        while i < ps.len()
                            invariant
                                i <= ps@.len(),
                                self.properties == Some(*ps),
                                *key == Some(PropKey::Key(*name)),
                                lookup_spec(ps@, *name) == lookup_spec(
                                    ps@.subrange(i as int, ps@.len() as int),
                                    *name,
                                ),
                            decreases ps@.len() - i,
                        {
                            if names_match(&ps[i].0, name) {
                                let v = ps[i].1.copied();
                                proof {
                                    let sub = ps@.subrange(i as int, ps@.len() as int);
                                    assert(sub[0] == ps@[i as int]);
                                    assert(same_name(sub[0].0, *name));
                                    assert(lookup_spec(sub, *name) == Some(sub[0].1@));
                                }
                                return Some(v);
                            }
                            proof {
                                lemma_lookup_skip(ps@, i as int, *name);
                            }
                            i = i + 1;
                        }
                        None
                    },
                },
            },
        }
    }
}

/// Resolves a tag to at most one element while an expression is evaluated.
pub trait Context {
    /// The element that `tag` denotes, if any.
    spec fn element(&self, tag: NameOrId) -> Option<Element>;

    fn get(&self, tag: &NameOrId) -> (r: Option<&Element>)
        ensures
            match r {
                Some(e) => self.element(*tag) == Some(*e),
                None => self.element(*tag) is None,
            },
    ;
}

/// A context that knows no tag, for expressions made of constants.
pub struct NoneContext {}

impl Context for NoneContext {
    open spec fn element(&self, tag: NameOrId) -> Option<Element> {
        None
    }

    fn get(&self, tag: &NameOrId) -> (r: Option<&Element>) {
        None
    }
}

/// A context of elements addressed by position: tag `Id(i)` denotes the `i`-th element.
pub struct ElementList {
    pub vec: Vec<Element>,
}

impl Context for ElementList {
    open spec fn element(&self, tag: NameOrId) -> Option<Element> {
        match tag {
            NameOrId::Id(i) => if 0 <= i < self.vec@.len() {
                Some(self.vec@[i as int])
            } else {
                None
            },
            NameOrId::Str(_) => None,
        }
    }

    fn get(&self, tag: &NameOrId) -> (r: Option<&Element>) {
        match tag {
            NameOrId::Id(i) => if *i >= 0 && (*i as usize) < self.vec.len() {
                Some(&self.vec[*i as usize])
            } else {
                None
            },
            NameOrId::Str(_) => None,
        }
    }
}

} // verus!
