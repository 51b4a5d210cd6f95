//! The registry mapping variable names to filter definitions.
//!
//! Built once during configuration — a duplicate name is an error — and
//! consulted read-only at request time.

use vstd::prelude::*;

use crate::bytes::{bytes_eq, copy_bytes};
use crate::directives::{compile_block, parse_variable_name, spec_compile_block,
    spec_parse_variable_name};
use crate::errors::{ConfigError, ErrView};
use crate::query::spec_filter_args;
use crate::rules::{spec_is_identity, spec_should_keep, ArgsFilterDef, DefView};

verus! {

struct RegistryEntry {
    name: Vec<u8>,
    def: ArgsFilterDef,
}

/// A mapping from normalized variable names to filter definitions.
pub struct FilterRegistry {
    entries: Vec<RegistryEntry>,
}

spec fn reg_map(es: Seq<RegistryEntry>) -> Map<Seq<u8>, DefView>
    decreases es.len(),
{
    if es.len() == 0 {
        Map::empty()
    } else {
        reg_map(es.drop_last()).insert(es.last().name@, es.last().def@)
    }
}

impl View for FilterRegistry {
    type V = Map<Seq<u8>, DefView>;

    closed spec fn view(&self) -> Map<Seq<u8>, DefView> {
        reg_map(self.entries@)
    }
}

proof fn lemma_reg_map_contains(es: Seq<RegistryEntry>, n: Seq<u8>)
    ensures
        reg_map(es).contains_key(n) <==> exists|i: int|
            0 <= i < es.len() && (#[trigger] es[i]).name@ == n,
    decreases es.len(),
{
    if es.len() > 0 {
        lemma_reg_map_contains(es.drop_last(), n);
        if es.last().name@ == n {
            assert(es[es.len() - 1].name@ == n);
        } else if exists|i: int| 0 <= i < es.len() && (#[trigger] es[i]).name@ == n {
            let i = choose|i: int| 0 <= i < es.len() && (#[trigger] es[i]).name@ == n;
            assert(es.drop_last()[i] == es[i]);
        }
    }
}

proof fn lemma_reg_map_get(es: Seq<RegistryEntry>, i: int)
    requires
        forall|a: int, b: int|
            0 <= a < b < es.len() ==> (#[trigger] es[a]).name@ != (#[trigger] es[b]).name@,
        0 <= i < es.len(),
    ensures
        reg_map(es).contains_key(es[i].name@),
        reg_map(es)[es[i].name@] == es[i].def@,
    decreases es.len(),
{
    if i == es.len() - 1 {
    } else {
        assert(forall|a: int, b: int|
            0 <= a < b < es.drop_last().len() ==> (#[trigger] es.drop_last()[a]).name@ != (
            #[trigger] es.drop_last()[b]).name@);
        lemma_reg_map_get(es.drop_last(), i);
        assert(es[i].name@ != es.last().name@);
    }
}

impl FilterRegistry {
    /// Names are unique among the stored entries.
    pub closed spec fn wf(self) -> bool {
        forall|a: int, b: int|
            0 <= a < b < self.entries@.len() ==> (#[trigger] self.entries@[a]).name@ != (
            #[trigger] self.entries@[b]).name@
    }

    /// Create an empty registry.
    pub fn new() -> (r: FilterRegistry)
        ensures
            r.wf(),
            r@ == Map::<Seq<u8>, DefView>::empty(),
    {
        FilterRegistry { entries: Vec::new() }
    }

    /// Index of the entry with this name, if one exists.
    fn find(&self, name: &[u8]) -> (r: Option<usize>)
        ensures
            r is Some ==> r->0 < self.entries@.len() && self.entries@[r->0 as int].name@ == name@,
            r is None ==> forall|i: int|
                0 <= i < self.entries@.len() ==> (#[trigger] self.entries@[i]).name@ != name@,
    {
        let mut i: usize = 0;
        while i < self.entries.len()
            invariant
                0 <= i <= self.entries@.len(),
                forall|j: int| 0 <= j < i ==> (#[trigger] self.entries@[j]).name@ != name@,
            decreases self.entries@.len() - i,
        {
            if bytes_eq(self.entries[i].name.as_slice(), name) {
                return Some(i);
            }
            i += 1;
        }
        None
    }

    /// Whether a definition is registered under this name.
    pub fn contains(&self, name: &[u8]) -> (r: bool)
        ensures
            r == self@.contains_key(name@),
    {
        proof {
            lemma_reg_map_contains(self.entries@, name@);
        }
        self.find(name).is_some()
    }

    /// Store a definition under a name; a name already present is refused and
    /// the registry is unchanged.
    pub fn register(&mut self, name: Vec<u8>, def: ArgsFilterDef) -> (r: Result<(), ConfigError>)
        requires
            old(self).wf(),
        ensures
            final(self).wf(),
            (r is Ok) == !old(self)@.contains_key(name@),
            r is Ok ==> final(self)@ == old(self)@.insert(name@, def@),
            r is Err ==> final(self)@ == old(self)@ && r->Err_0 == ConfigError::DuplicateVariable,
    {
        proof {
            lemma_reg_map_contains(self.entries@, name@);
        }
        if self.find(name.as_slice()).is_some() {
            return Err(ConfigError::DuplicateVariable);
        }
        let ghost prev = self.entries@;
        self.entries.push(RegistryEntry { name, def });
        proof {
            assert(self.entries@.drop_last() =~= prev);
        }
        Ok(())
    }

    /// Look up the definition registered under a name.
    pub fn lookup(&self, name: &[u8]) -> (r: Option<&ArgsFilterDef>)
        requires
            self.wf(),
        ensures
            (r is Some) == self@.contains_key(name@),
            r is Some ==> r->0@ == self@[name@],
    {
        proof {
            lemma_reg_map_contains(self.entries@, name@);
        }
        match self.find(name) {
            Some(i) => {
                proof {
                    lemma_reg_map_get(self.entries@, i as int);
                }
                Some(&self.entries[i].def)
            },
            None => None,
        }
    }

    /// Validate a block name, refuse a duplicate, build the definition from
    /// the block's statements, and register it. On any error the registry is
    /// unchanged and no partial definition is kept.
    pub fn compile_and_register(
        &mut self,
        raw_name: &[u8],
        statements: &[Vec<Vec<u8>>],
    ) -> (r: Result<(), ConfigError>)
        requires
            old(self).wf(),
        ensures
            final(self).wf(),
            spec_parse_variable_name(raw_name@) is Err ==> r is Err && r->Err_0@
                == spec_parse_variable_name(raw_name@)->Err_0 && final(self)@ == old(self)@,
            spec_parse_variable_name(raw_name@) matches Ok(n) ==> (old(self)@.contains_key(n)
                ==> r is Err && r->Err_0 == ConfigError::DuplicateVariable && final(self)@ == old(
                self,
            )@),
            spec_parse_variable_name(raw_name@) matches Ok(n) ==> (!old(self)@.contains_key(n)
                && spec_compile_block(statements.deep_view()) is Err ==> r is Err && r->Err_0@
                == spec_compile_block(statements.deep_view())->Err_0 && final(self)@ == old(
                self,
            )@),
            spec_parse_variable_name(raw_name@) matches Ok(n) ==> (!old(self)@.contains_key(n)
                && spec_compile_block(statements.deep_view()) is Ok ==> r is Ok && final(self)@
                == old(self)@.insert(n, spec_compile_block(statements.deep_view())->Ok_0)),
    {
        let name = match parse_variable_name(raw_name) {
            Ok(n) => n,
            Err(e) => {
                return Err(e);
            },
        };
        if self.contains(name.as_slice()) {
            return Err(ConfigError::DuplicateVariable);
        }
        let def = match compile_block(statements) {
            Ok(d) => d,
            Err(e) => {
                return Err(e);
            },
        };
        match self.register(name, def) {
            Ok(()) => Ok(()),
            Err(e) => Err(e),
        }
    }

    /// Evaluate the variable registered under `name` against a raw query
    /// string: the query unchanged for an identity definition, else the
    /// filtered query; `None` when no definition is registered under `name`.
    pub fn evaluate(&self, name: &[u8], args: &[u8]) -> (r: Option<Vec<u8>>)
        requires
            self.wf(),
        ensures
            (r is Some) == self@.contains_key(name@),
            r is Some ==> r->0@ == spec_evaluate(self@[name@], args@),
    {
        match self.lookup(name) {
            Some(def) => {
                if def.is_identity_filter() {
                    Some(copy_bytes(args))
                } else {
                    Some(def.filter_args(args))
                }
            },
            None => None,
        }
    }
}

/// What evaluating a definition against a query yields: the query itself on
/// the identity fast path, else the filtered query.
pub open spec fn spec_evaluate(d: DefView, q: Seq<u8>) -> Seq<u8> {
    if spec_is_identity(d) {
        q
    } else {
        spec_filter_args(q, |k: Seq<u8>| spec_should_keep(d, k))
    }
}

/// The identity fast path changes nothing observable: on a query with no
/// empty segments, evaluation always yields exactly what filtering by the
/// definition's key decisions yields, whether or not the fast path is taken.
pub proof fn lemma_evaluate_agrees_with_filter(d: DefView, q: Seq<u8>)
    requires
        crate::query::no_empty_segments(q),
    ensures
        spec_evaluate(d, q) == spec_filter_args(q, |k: Seq<u8>| spec_should_keep(d, k)),
{
    if spec_is_identity(d) {
        crate::query::lemma_identity_definition_filters_to_input(d, q);
    }
}

} // verus!
