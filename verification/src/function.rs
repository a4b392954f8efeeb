//! The function registry: validated functions, at most one per name.

use crate::clock::{rfc3339_of, timestamp_in_range, Timestamp};
use crate::keyed::{
    keyed, lemma_keyed_at, lemma_keyed_len, lemma_keyed_push, lemma_keyed_remove,
    lemma_keyed_slot, lemma_keyed_update,
};
use crate::types::{CreateFunctionRequest, Function, FunctionView};
use crate::validate::{
    body_verdict, validate_function, verdict, ValidationError, MAX_CODE_BYTES,
};
use vstd::prelude::*;
use vstd::string::*;
use vstd::utf8::encode_utf8;

verus! {

/// How many registered functions name one runtime.
#[derive(Debug)]
pub struct RuntimeUsage {
    pub runtime: String,
    pub functions: usize,
}

/// A snapshot of the registry's size.
#[derive(Debug)]
pub struct FunctionStats {
    /// The number of registered functions.
    pub total_functions: usize,
    /// The bytes of source text held, capped at `usize::MAX`.
    pub total_code_size: usize,
    /// Each runtime that some function names, once, with its number of
    /// functions.
    pub runtimes: Vec<RuntimeUsage>,
}

/// The bytes of UTF-8 that the source texts of `entries` take together.
pub open spec fn code_bytes(entries: Seq<FunctionView>) -> nat
    decreases entries.len(),
{
    if entries.len() == 0 {
        0
    } else {
        code_bytes(entries.drop_last()) + encode_utf8(entries.last().code).len()
    }
}

/// The number of `entries` that name `runtime`.
pub open spec fn runtime_count(entries: Seq<FunctionView>, runtime: Seq<char>) -> nat
    decreases entries.len(),
{
    if entries.len() == 0 {
        0
    } else {
        runtime_count(entries.drop_last(), runtime) + if entries.last().runtime == runtime {
            1nat
        } else {
            0nat
        }
    }
}

/// The registry of functions, keyed by name.
///
/// Its model is a finite map from names to functions (`self@`), kept in
/// registration order (`self.entries()`).
pub struct FunctionStore {
    functions: Vec<Function>,
}

impl View for FunctionStore {
    type V = Map<Seq<char>, FunctionView>;

    closed spec fn view(&self) -> Map<Seq<char>, FunctionView> {
        keyed(self.names(), self.entries())
    }
}

impl FunctionStore {
    /// The names of the registered functions, in registration order.
    pub closed spec fn names(&self) -> Seq<Seq<char>> {
        Seq::new(self.functions@.len(), |i: int| self.functions@[i].name@)
    }

    /// The registered functions, in registration order.
    pub closed spec fn entries(&self) -> Seq<FunctionView> {
        Seq::new(self.functions@.len(), |i: int| self.functions@[i]@)
    }

    /// The number of registered functions.
    pub open spec fn len(&self) -> nat {
        self.entries().len()
    }

    /// The position in registration order of the function registered under
    /// `name`.
    pub open spec fn rank(&self, name: Seq<char>) -> int {
        self.names().index_of(name)
    }

    /// The registration order after `function` has been stored under its
    /// name: it takes the place of the function that had the name, or goes
    /// last.
    pub open spec fn entries_with(&self, function: FunctionView) -> Seq<FunctionView> {
        if self@.contains_key(function.name) {
            self.entries().update(self.rank(function.name), function)
        } else {
            self.entries().push(function)
        }
    }

    /// No name is registered twice, and every registered source text and
    /// runtime passed validation.
    pub closed spec fn wf(&self) -> bool {
        &&& self.names().no_duplicates()
        &&& forall|i: int|
            0 <= i < self.functions@.len() ==> body_verdict(
                (#[trigger] self.functions@[i]).code@,
                self.functions@[i].runtime@,
            ) is None
    }

    /// How the registration order and the map describe the same registry:
    /// each entry is the map's value at its own name, each key of the map is
    /// the name of an entry, and no two entries share a name.
    pub proof fn lemma_entries_match_view(&self)
        requires
            self.wf(),
        ensures
            self.names().len() == self.entries().len(),
            self@.dom().finite(),
            self@.dom().len() == self.len(),
            forall|i: int|
                0 <= i < self.entries().len() ==> self.names()[i] == (
                #[trigger] self.entries()[i]).name && self@.contains_key(self.entries()[i].name)
                    && self@[self.entries()[i].name] == self.entries()[i],
            forall|i: int, j: int|
                0 <= i < j < self.entries().len() ==> self.entries()[i].name
                    != self.entries()[j].name,
            forall|name: Seq<char>| #[trigger]
                self@.contains_key(name) ==> exists|i: int|
                    0 <= i < self.entries().len() && self.entries()[i].name == name,
            forall|name: Seq<char>| #[trigger]
                self@.contains_key(name) ==> body_verdict(self@[name].code, self@[name].runtime)
                    is None,
            forall|name: Seq<char>| #[trigger]
                self@.contains_key(name) ==> 0 <= self.rank(name) < self.entries().len()
                    && self.entries()[self.rank(name)] == self@[name],
    {
        let keys = self.names();
        let vals = self.entries();
        lemma_keyed_len(keys, vals);
        assert forall|name: Seq<char>| #[trigger] self@.contains_key(name) implies 0 <= self.rank(
            name,
        ) < self.entries().len() && self.entries()[self.rank(name)] == self@[name] by {
            lemma_keyed_slot(keys, vals, name);
        }
        assert forall|i: int| 0 <= i < vals.len() implies keys[i] == (#[trigger] vals[i]).name
            && self@.contains_key(vals[i].name) && self@[vals[i].name] == vals[i] by {
            lemma_keyed_at(keys, vals, i);
        }
        assert forall|i: int, j: int| 0 <= i < j < vals.len() implies vals[i].name
            != vals[j].name by {
            assert(keys[i] != keys[j]);
        }
        assert forall|name: Seq<char>| #[trigger] self@.contains_key(name) implies (exists|i: int|
            0 <= i < vals.len() && vals[i].name == name) && body_verdict(
            self@[name].code,
            self@[name].runtime,
        ) is None by {
            lemma_keyed_slot(keys, vals, name);
            let i = keys.index_of(name);
            assert(vals[i].name == name);
            assert(body_verdict(self.functions@[i].code@, self.functions@[i].runtime@) is None);
        }
    }

    /// An empty registry.
    pub fn new() -> (store: FunctionStore)
        ensures
            store.wf(),
            store@ == Map::<Seq<char>, FunctionView>::empty(),
            store.entries() == Seq::<FunctionView>::empty(),
    {
        let store = FunctionStore { functions: Vec::new() };
        assert(store.names() =~= Seq::<Seq<char>>::empty());
        assert(store.entries() =~= Seq::<FunctionView>::empty());
        assert(store@ =~= Map::<Seq<char>, FunctionView>::empty());
        store
    }

    /// The position at which `name` is registered.
    fn position(&self, name: &str) -> (at: Option<usize>)
        requires
            self.wf(),
        ensures
            match at {
                Some(i) => i < self.names().len() && self.names()[i as int] == name@
                    && self.names().index_of(name@) == i,
                None => !self.names().contains(name@),
            },
    {
        let key = name.to_owned();
        let mut i: usize = 0;
        while i < self.functions.len()
            invariant
                i <= self.functions@.len(),
                self.wf(),
                key@ == name@,
                forall|j: int| 0 <= j < i ==> self.names()[j] != name@,
            decreases self.functions@.len() - i,
        {
            if self.functions[i].name == key {
                proof {
                    lemma_keyed_at(self.names(), self.entries(), i as int);
                }
                return Some(i);
            }
            i += 1;
        }
        None
    }

    /// Stores `function` under its name, replacing what stood there.
    fn put(&mut self, function: Function)
        requires
            old(self).wf(),
            body_verdict(function.code@, function.runtime@) is None,
        ensures
            final(self).wf(),
            final(self)@ == old(self)@.insert(function.name@, function@),
            final(self).entries() == old(self).entries_with(function@),
    {
        let ghost keys = self.names();
        let ghost vals = self.entries();
        let ghost fv = function@;
        match self.position(function.name.as_str()) {
            Some(i) => {
                proof {
                    lemma_keyed_update(keys, vals, i as int, fv);
                }
                self.functions[i] = function;
                assert(self.names() =~= keys);
                assert(self.entries() =~= vals.update(i as int, fv));
            },
            None => {
                proof {
                    lemma_keyed_push(keys, vals, fv.name, fv);
                }
                self.functions.push(function);
                assert(self.names() =~= keys.push(fv.name));
                assert(self.entries() =~= vals.push(fv));
            },
        }
    }

    /// Registers the requested function as created at the given time,
    /// replacing any function of the same name. A request that breaks a
    /// validation rule changes nothing.
    pub fn create_at(&mut self, request: CreateFunctionRequest, created_at: String) -> (result:
        Result<Function, ValidationError>)
        requires
            old(self).wf(),
        ensures
            final(self).wf(),
            match result {
                Ok(function) => {
                    &&& verdict(request.name@, request.code@, request.runtime@) is None
                    &&& function@ == (FunctionView {
                        name: request.name@,
                        code: request.code@,
                        runtime: request.runtime@,
                        created_at: created_at@,
                    })
                    &&& final(self)@ == old(self)@.insert(request.name@, function@)
                    &&& final(self).entries() == old(self).entries_with(function@)
                    &&& final(self).len() == if old(self)@.contains_key(request.name@) {
                        old(self).len()
                    } else {
                        old(self).len() + 1
                    }
                },
                Err(e) => {
                    &&& verdict(request.name@, request.code@, request.runtime@) == Some(e)
                    &&& final(self)@ == old(self)@
                    &&& final(self).entries() == old(self).entries()
                },
            },
    {
        match validate_function(&request) {
            Err(e) => Err(e),
            Ok(_) => {
                let function = Function {
                    name: request.name,
                    code: request.code,
                    runtime: request.runtime,
                    created_at,
                };
                let copy = function.clone();
                self.put(function);
                Ok(copy)
            },
        }
    }

    /// Registers the requested function as created now. See `create_at`.
    pub fn create(&mut self, request: CreateFunctionRequest) -> (result: Result<
        Function,
        ValidationError,
    >)
        requires
            old(self).wf(),
        ensures
            final(self).wf(),
            match result {
                Ok(function) => {
                    &&& verdict(request.name@, request.code@, request.runtime@) is None
                    &&& function@.name == request.name@
                    &&& function@.code == request.code@
                    &&& function@.runtime == request.runtime@
                    &&& exists|secs: i64, nanos: u32|
                        timestamp_in_range(secs, nanos) && function@.created_at == #[trigger] rfc3339_of(
                            secs,
                            nanos,
                        )
                    &&& final(self)@ == old(self)@.insert(request.name@, function@)
                    &&& final(self).entries() == old(self).entries_with(function@)
                    &&& final(self).len() == if old(self)@.contains_key(request.name@) {
                        old(self).len()
                    } else {
                        old(self).len() + 1
                    }
                },
                Err(e) => {
                    &&& verdict(request.name@, request.code@, request.runtime@) == Some(e)
                    &&& final(self)@ == old(self)@
                    &&& final(self).entries() == old(self).entries()
                },
            },
    {
        let now = Timestamp::now();
        let created_at = now.to_rfc3339();
        assert(created_at@ == rfc3339_of(now.seconds(), now.subsec_nanos()));
        self.create_at(request, created_at)
    }

    /// The function registered under `name`.
    pub fn get(&self, name: &str) -> (found: Option<Function>)
        requires
            self.wf(),
        ensures
            match found {
                Some(function) => self@.contains_key(name@) && function@ == self@[name@],
                None => !self@.contains_key(name@),
            },
    {
        match self.position(name) {
            Some(i) => {
                proof {
                    lemma_keyed_at(self.names(), self.entries(), i as int);
                }
                Some(self.functions[i].clone())
            },
            None => None,
        }
    }

    /// Every registered function, in registration order.
    pub fn list(&self) -> (all: Vec<Function>)
        requires
            self.wf(),
        ensures
            all@.len() == self.len(),
            forall|i: int| 0 <= i < all@.len() ==> (#[trigger] all@[i])@ == self.entries()[i],
    {
        let mut all: Vec<Function> = Vec::new();
        let mut i: usize = 0;
        while i < self.functions.len()
            invariant
                i <= self.functions@.len(),
                all@.len() == i,
                forall|j: int| 0 <= j < i ==> (#[trigger] all@[j])@ == self.entries()[j],
            decreases self.functions@.len() - i,
        {
            all.push(self.functions[i].clone());
            i += 1;
        }
        all
    }

    /// Removes the function registered under `name`, and says whether there
    /// was one.
    pub fn delete(&mut self, name: &str) -> (removed: bool)
        requires
            old(self).wf(),
        ensures
            final(self).wf(),
            removed == old(self)@.contains_key(name@),
            final(self)@ == old(self)@.remove(name@),
            final(self).entries() == if removed {
                old(self).entries().remove(old(self).rank(name@))
            } else {
                old(self).entries()
            },
            final(self).len() == if removed {
                old(self).len() - 1
            } else {
                old(self).len() as int
            },
    {
        let ghost keys = self.names();
        let ghost vals = self.entries();
        match self.position(name) {
            Some(i) => {
                proof {
                    lemma_keyed_remove(keys, vals, i as int);
                }
                let _ = self.functions.remove(i);
                assert(self.names() =~= keys.remove(i as int));
                assert(self.entries() =~= vals.remove(i as int));
                true
            },
            None => {
                assert(self@ =~= self@.remove(name@));
                false
            },
        }
    }

    /// Replaces the function registered under `name` by the requested one,
    /// as created at the given time. The request is validated as it stands,
    /// its own name included; the function is stored under `name`.
    pub fn update_at(&mut self, name: &str, request: CreateFunctionRequest, created_at: String) -> (
        result: Result<Function, ValidationError>)
        requires
            old(self).wf(),
        ensures
            final(self).wf(),
            match result {
                Ok(function) => {
                    &&& verdict(request.name@, request.code@, request.runtime@) is None
                    &&& function@ == (FunctionView {
                        name: name@,
                        code: request.code@,
                        runtime: request.runtime@,
                        created_at: created_at@,
                    })
                    &&& final(self)@ == old(self)@.insert(name@, function@)
                    &&& final(self).entries() == old(self).entries_with(function@)
                    &&& final(self).len() == if old(self)@.contains_key(name@) {
                        old(self).len()
                    } else {
                        old(self).len() + 1
                    }
                },
                Err(e) => {
                    &&& verdict(request.name@, request.code@, request.runtime@) == Some(e)
                    &&& final(self)@ == old(self)@
                    &&& final(self).entries() == old(self).entries()
                },
            },
    {
        match validate_function(&request) {
            Err(e) => Err(e),
            Ok(_) => {
                let function = Function {
                    name: String::from_str(name),
                    code: request.code,
                    runtime: request.runtime,
                    created_at,
                };
                let copy = function.clone();
                self.put(function);
                Ok(copy)
            },
        }
    }

    /// Replaces the function registered under `name`, as created now. See
    /// `update_at`.
    pub fn update(&mut self, name: &str, request: CreateFunctionRequest) -> (result: Result<
        Function,
        ValidationError,
    >)
        requires
            old(self).wf(),
        ensures
            final(self).wf(),
            match result {
                Ok(function) => {
                    &&& verdict(request.name@, request.code@, request.runtime@) is None
                    &&& function@.name == name@
                    &&& function@.code == request.code@
                    &&& function@.runtime == request.runtime@
                    &&& exists|secs: i64, nanos: u32|
                        timestamp_in_range(secs, nanos) && function@.created_at == #[trigger] rfc3339_of(
                            secs,
                            nanos,
                        )
                    &&& final(self)@ == old(self)@.insert(name@, function@)
                    &&& final(self).entries() == old(self).entries_with(function@)
                    &&& final(self).len() == if old(self)@.contains_key(name@) {
                        old(self).len()
                    } else {
                        old(self).len() + 1
                    }
                },
                Err(e) => {
                    &&& verdict(request.name@, request.code@, request.runtime@) == Some(e)
                    &&& final(self)@ == old(self)@
                    &&& final(self).entries() == old(self).entries()
                },
            },
    {
        let now = Timestamp::now();
        let created_at = now.to_rfc3339();
        assert(created_at@ == rfc3339_of(now.seconds(), now.subsec_nanos()));
        self.update_at(name, request, created_at)
    }

    /// The position in `usage` of the line for `runtime`.
    fn usage_slot(usage: &Vec<RuntimeUsage>, runtime: &str) -> (at: Option<usize>)
        ensures
            match at {
                Some(k) => k < usage@.len() && usage@[k as int].runtime@ == runtime@,
                None => forall|k: int|
                    0 <= k < usage@.len() ==> (#[trigger] usage@[k]).runtime@ != runtime@,
            },
    {
        let key = runtime.to_owned();
        let mut k: usize = 0;
        while k < usage.len()
            invariant
                k <= usage@.len(),
                key@ == runtime@,
                forall|j: int| 0 <= j < k ==> (#[trigger] usage@[j]).runtime@ != runtime@,
            decreases usage@.len() - k,
        {
            if usage[k].runtime == key {
                return Some(k);
            }
            k += 1;
        }
        None
    }

    /// Counts the registry: its functions, their source bytes, and how many
    /// functions name each runtime.
    pub fn get_function_stats(&self) -> (stats: FunctionStats)
        requires
            self.wf(),
        ensures
            stats.total_functions == self.len(),
            stats.total_code_size == if code_bytes(self.entries()) > usize::MAX {
                usize::MAX as nat
            } else {
                code_bytes(self.entries())
            },
            forall|k: int|
                0 <= k < stats.runtimes@.len() ==> (#[trigger] stats.runtimes@[k]).functions > 0
                    && stats.runtimes@[k].functions == runtime_count(
                    self.entries(),
                    stats.runtimes@[k].runtime@,
                ),
            forall|k: int, l: int|
                0 <= k < l < stats.runtimes@.len() ==> (#[trigger] stats.runtimes@[k]).runtime@ != (
                #[trigger] stats.runtimes@[l]).runtime@,
            forall|runtime: Seq<char>|
                runtime_count(self.entries(), runtime) > 0 ==> exists|k: int|
                    0 <= k < stats.runtimes@.len() && (#[trigger] stats.runtimes@[k]).runtime@
                        == runtime,
    {
        let ghost entries = self.entries();
        let mut bytes: u128 = 0;
        let mut usage: Vec<RuntimeUsage> = Vec::new();
        let mut i: usize = 0;
        assert(entries.take(0) =~= Seq::<FunctionView>::empty());
        while i < self.functions.len()
            invariant
                self.wf(),
                entries == self.entries(),
                entries.len() == self.functions@.len(),
                i <= self.functions@.len(),
                bytes == code_bytes(entries.take(i as int)),
                bytes <= i * MAX_CODE_BYTES,
                forall|k: int|
                    0 <= k < usage@.len() ==> 0 < (#[trigger] usage@[k]).functions <= i
                        && usage@[k].functions == runtime_count(
                        entries.take(i as int),
                        usage@[k].runtime@,
                    ),
                forall|k: int, l: int|
                    0 <= k < l < usage@.len() ==> (#[trigger] usage@[k]).runtime@ != (
                    #[trigger] usage@[l]).runtime@,
                forall|runtime: Seq<char>|
                    runtime_count(entries.take(i as int), runtime) > 0 ==> exists|k: int|
                        0 <= k < usage@.len() && (#[trigger] usage@[k]).runtime@ == runtime,
            decreases self.functions@.len() - i,
        {
            let function = &self.functions[i];
            let ghost before = entries.take(i as int);
            let ghost after = entries.take(i + 1);
            proof {
                assert(after.drop_last() =~= before);
                assert(after.last() == function@);
                assert(body_verdict(function.code@, function.runtime@) is None);
                assert forall|runtime: Seq<char>| runtime_count(after, runtime) == runtime_count(
                    before,
                    runtime,
                ) + if function@.runtime == runtime {
                    1nat
                } else {
                    0nat
                } by {}
            }
            bytes = bytes + function.code.as_str().as_bytes().len() as u128;
            match Self::usage_slot(&usage, function.runtime.as_str()) {
                Some(k) => {
                    let ghost prior = usage@;
                    let line = RuntimeUsage {
                        runtime: function.runtime.clone(),
                        functions: usage[k].functions + 1,
                    };
                    usage.set(k, line);
                    assert forall|runtime: Seq<char>|
                        runtime_count(after, runtime) > 0 implies exists|m: int|
                        0 <= m < usage@.len() && (#[trigger] usage@[m]).runtime@ == runtime by {
                        if function@.runtime == runtime {
                            assert(usage@[k as int].runtime@ == runtime);
                        } else {
                            let m = choose|m: int|
                                0 <= m < prior.len() && (#[trigger] prior[m]).runtime@ == runtime;
                            assert(usage@[m].runtime@ == runtime);
                        }
                    }
                },
                None => {
                    let ghost prior = usage@;
                    assert(runtime_count(before, function@.runtime) == 0);
                    usage.push(RuntimeUsage { runtime: function.runtime.clone(), functions: 1 });
                    assert forall|runtime: Seq<char>|
                        runtime_count(after, runtime) > 0 implies exists|m: int|
                        0 <= m < usage@.len() && (#[trigger] usage@[m]).runtime@ == runtime by {
                        if function@.runtime == runtime {
                            assert(usage@[prior.len() as int].runtime@ == runtime);
                        } else {
                            let m = choose|m: int|
                                0 <= m < prior.len() && (#[trigger] prior[m]).runtime@ == runtime;
                            assert(usage@[m].runtime@ == runtime);
                        }
                    }
                },
            }
            i += 1;
        }
        assert(entries.take(i as int) =~= entries);
        let ghost lines = usage@;
        let stats = FunctionStats {
            total_functions: self.functions.len(),
            total_code_size: if bytes > usize::MAX as u128 {
                usize::MAX
            } else {
                bytes as usize
            },
            runtimes: usage,
        };
        assert forall|runtime: Seq<char>| runtime_count(entries, runtime) > 0 implies exists|k: int|
            0 <= k < stats.runtimes@.len() && (#[trigger] stats.runtimes@[k]).runtime@
                == runtime by {
            assert(runtime_count(entries.take(i as int), runtime) > 0);
            let k = choose|k: int| 0 <= k < lines.len() && (#[trigger] lines[k]).runtime@ == runtime;
            assert(stats.runtimes@[k].runtime@ == runtime);
        }
        stats
    }
}

} // verus!
