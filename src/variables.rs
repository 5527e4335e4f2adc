use vstd::prelude::*;

use ahash::AHashMap;

use crate::error::{Error, Result};
use crate::node::Term;
use crate::tree::{bind_term, Tree};

verus! {

/// `ahash::AHashMap`, carried opaquely: what a name table holds is `name_table`.
#[verifier::external_type_specification]
#[verifier::external_body]
#[verifier::reject_recursive_types(K)]
#[verifier::reject_recursive_types(V)]
#[verifier::reject_recursive_types(S)]
pub struct ExAHashMap<K, V, S>(AHashMap<K, V, S>);

/// `ahash::RandomState`, the hasher of `AHashMap`, carried opaquely.
#[verifier::external_type_specification]
#[verifier::external_body]
pub struct ExRandomState(ahash::RandomState);

/// A hash map from variable names to their positions.
pub type NameTable = AHashMap<String, usize>;

/// What a name table holds: each name with its position.
pub uninterp spec fn name_table(m: NameTable) -> Map<Seq<char>, usize>;

/// Relies on `AHashMap::new`: a new map is empty.
#[verifier::external_body]
fn table_new() -> (r: NameTable)
    ensures
        name_table(r) =~= Map::empty(),
{
    AHashMap::new()
}

/// Relies on `AHashMap::get`: the value stored under `name`, if any.
#[verifier::external_body]
fn table_get(m: &NameTable, name: &str) -> (r: Option<usize>)
    ensures
        r == (if name_table(*m).contains_key(name@) {
            Some(name_table(*m)[name@])
        } else {
            None
        }),
{
    m.get(name).copied()
}

/// Relies on `AHashMap::insert`: afterwards `name` maps to `index`, other entries stay.
#[verifier::external_body]
fn table_insert(m: &mut NameTable, name: String, index: usize)
    ensures
        name_table(*final(m)) == name_table(*old(m)).insert(name@, index),
{
    m.insert(name, index);
}

/// A set of named free variables with their current values, to parameterise trees.
///
/// Variables are numbered in the order they were added; that number is the token of
/// the free-variable node that stands for the variable.
pub struct Variables {
    map: NameTable,
    names: Vec<String>,
    values: Vec<u32>,
}

impl Variables {
    /// The names, in the order they were added.
    pub closed spec fn names(&self) -> Seq<Seq<char>> {
        self.names@.map_values(|s: String| s@)
    }

    /// The current values, as `f32` bit patterns, in the order the variables were added.
    pub closed spec fn values(&self) -> Seq<u32> {
        self.values@
    }

    /// Position of the variable `name`, if it is in the set.
    pub open spec fn index_of(&self, name: Seq<char>) -> Option<int> {
        if exists|i: int| 0 <= i < self.names().len() && self.names()[i] == name {
            Some(choose|i: int| 0 <= i < self.names().len() && self.names()[i] == name)
        } else {
            None
        }
    }

    /// Names are unique, one value each, and the name table finds each name's position.
    pub closed spec fn wf(&self) -> bool {
        &&& self.names@.len() == self.values@.len()
        &&& forall|i: int, j: int|
            0 <= i < j < self.names@.len() ==> self.names@[i]@ != self.names@[j]@
        &&& name_table(self.map).dom() == self.names().to_set()
        &&& forall|i: int| 0 <= i < self.names@.len() ==> name_table(self.map)[self.names@[i]@] == i
    }

    proof fn lemma_lookup(&self, name: Seq<char>)
        requires
            self.wf(),
        ensures
            name_table(self.map).contains_key(name) <==> self.index_of(name) is Some,
            name_table(self.map).contains_key(name) ==> self.index_of(name) == Some(
                name_table(self.map)[name] as int,
            ),
    {
        if name_table(self.map).contains_key(name) {
            assert(self.names().to_set().contains(name));
            let i = choose|i: int| 0 <= i < self.names().len() && self.names()[i] == name;
            let k = choose|k: int| 0 <= k < self.names().len() && self.names()[k] == name;
            assert(i == k);
        } else {
            if exists|i: int| 0 <= i < self.names().len() && self.names()[i] == name {
                let i = choose|i: int| 0 <= i < self.names().len() && self.names()[i] == name;
                assert(self.names().to_set().contains(self.names()[i]));
            }
        }
    }

    /// A new, empty set of variables.
    pub fn new() -> (r: Variables)
        ensures
            r.wf(),
            r.names().len() == 0,
            r.values().len() == 0,
    {
        let r = Variables { map: table_new(), names: Vec::new(), values: Vec::new() };
        assert(r.names().to_set() =~= Set::<Seq<char>>::empty());
        r
    }

    /// Number of variables in the set.
    pub fn len(&self) -> (r: usize)
        requires
            self.wf(),
        ensures
            r == self.values().len(),
    {
        self.values.len()
    }

    /// Adds the variable `name` with the given value (an `f32` bit pattern) and returns
    /// the free variable that stands for it.
    ///
    /// Fails with `VariableAlreadyAdded` if the set holds `name` already; the set is then unchanged.
    pub fn add(&mut self, name: &str, value: u32) -> (r: Result<Tree>)
        requires
            old(self).wf(),
        ensures
            final(self).wf(),
            old(self).index_of(name@) is Some ==> r == Err::<Tree, Error>(Error::VariableAlreadyAdded)
                && final(self).names() == old(self).names() && final(self).values() == old(self).values(),
            old(self).index_of(name@) is None ==> r is Ok
                && r->Ok_0@ == Term::Var(old(self).names().len() as u64)
                && final(self).names() == old(self).names().push(name@)
                && final(self).values() == old(self).values().push(value),
    {
        proof {
            self.lemma_lookup(name@);
        }
        if table_get(&self.map, name).is_some() {
            return Err(Error::VariableAlreadyAdded);
        }
        let index = self.names.len();
        let owned = name.to_string();
        let ghost old_names = self.names();
        table_insert(&mut self.map, name.to_string(), index);
        self.names.push(owned);
        self.values.push(value);
        proof {
            assert(self.names() =~= old_names.push(name@));
            assert forall|i: int, j: int| 0 <= i < j < self.names@.len() implies self.names@[i]@
                != self.names@[j]@ by {
                if j == index {
                    assert(old_names[i] == self.names@[i]@);
                    assert(old_names.contains(old_names[i]));
                }
            }
            assert(self.names().to_set() =~= old_names.to_set().insert(name@)) by {
                assert forall|s: Seq<char>| self.names().to_set().contains(s) implies
                    old_names.to_set().insert(name@).contains(s) by {
                    let i = choose|i: int| 0 <= i < self.names().len() && self.names()[i] == s;
                    if i < index {
                        assert(old_names[i] == s);
                    }
                }
                assert forall|s: Seq<char>| old_names.to_set().insert(name@).contains(s) implies
                    self.names().to_set().contains(s) by {
                    if s == name@ {
                        assert(self.names()[index as int] == s);
                    } else {
                        let i = choose|i: int| 0 <= i < old_names.len() && old_names[i] == s;
                        assert(self.names()[i] == s);
                    }
                }
            }
            assert forall|i: int| 0 <= i < self.names@.len() implies name_table(self.map)[self.names@[i]@]
                == i by {
                if i < index {
                    assert(old_names[i] == self.names@[i]@);
                    assert(old_names.contains(old_names[i]));
                }
            }
        }
        Ok(Tree::free_variable(index as u64))
    }

    /// Sets the variable `name` to `value` (an `f32` bit pattern).
    ///
    /// Fails with `VariableNotFound` if the set does not hold `name`; the set is then unchanged.
    pub fn set(&mut self, name: &str, value: u32) -> (r: Result<()>)
        requires
            old(self).wf(),
        ensures
            final(self).wf(),
            final(self).names() == old(self).names(),
            r is Ok <==> old(self).index_of(name@) is Some,
            r is Err ==> r == Err::<(), Error>(Error::VariableNotFound) && final(self).values() == old(
                self,
            ).values(),
            old(self).index_of(name@) matches Some(i) ==> final(self).values() == old(
                self,
            ).values().update(i, value),
    {
        proof {
            self.lemma_lookup(name@);
        }
        match table_get(&self.map, name) {
            Some(index) => {
                self.values.set(index, value);
                Ok(())
            },
            None => Err(Error::VariableNotFound),
        }
    }
}

impl Default for Variables {
    fn default() -> (r: Variables)
        ensures
            r.wf(),
            r.names().len() == 0,
            r.values().len() == 0,
    {
        Variables::new()
    }
}

/// Copies a list of values.
fn copy_values(src: &Vec<u32>) -> (r: Vec<u32>)
    ensures
        r@ == src@,
{
    let mut r: Vec<u32> = Vec::new();
    let mut i: usize = 0;
    while i < src.len()
        invariant
            0 <= i <= src@.len(),
            r@ == src@.subrange(0, i as int),
        decreases src@.len() - i,
    {
        r.push(src[i]);
        i = i + 1;
    }
    assert(r@ =~= src@);
    r
}

/// A tree bound to a snapshot of the values of a set of variables.
///
/// The snapshot changes only through `update`: setting a variable in the set does
/// not reach an evaluator until it is updated.
pub struct Evaluator {
    tree: Tree,
    values: Vec<u32>,
}

impl Evaluator {
    /// The bound tree's expression.
    pub closed spec fn tree(&self) -> Term {
        self.tree@
    }

    /// The bound values, by variable position.
    pub closed spec fn values(&self) -> Seq<u32> {
        self.values@
    }

    /// Binds `tree` to the current values of `variables`.
    pub fn new(tree: &Tree, variables: &Variables) -> (r: Evaluator)
        ensures
            r.tree() == tree@,
            r.values() == variables.values(),
    {
        Evaluator { tree: tree.clone(), values: copy_values(&variables.values) }
    }

    /// Takes over the current values of `variables`.
    ///
    /// Fails with `VariablesCouldNotBeUpdated`, and keeps its values, when `variables`
    /// holds fewer variables than the evaluator is bound to.
    pub fn update(&mut self, variables: &Variables) -> (r: Result<()>)
        ensures
            final(self).tree() == old(self).tree(),
            r is Err <==> variables.values().len() < old(self).values().len(),
            r is Err ==> r == Err::<(), Error>(Error::VariablesCouldNotBeUpdated)
                && final(self).values() == old(self).values(),
            r is Ok ==> final(self).values() == variables.values(),
    {
        if variables.values.len() < self.values.len() {
            return Err(Error::VariablesCouldNotBeUpdated);
        }
        self.values = copy_values(&variables.values);
        Ok(())
    }

    /// The field to evaluate: the bound tree with each of its variables replaced by
    /// the value bound to it.
    pub fn bound_tree(&self) -> (r: Tree)
        ensures
            r@ == bind_term(self.tree(), self.values()),
    {
        self.tree.bind(&self.values)
    }
}

} // verus!
