//! Scopes: named values, and the chain that links each scope to the one
//! around it.
//!
//! Scopes live side by side in one store and refer to each other by their
//! place in it, so that several closures can share a scope and see each
//! other's assignments.

use vstd::prelude::*;
use crate::interpreter::{fail, failure, ErrorKind, InterpretError, InterpretErrorView};
use crate::object::{Object, ObjectView};

verus! {

/// One name and its value.
#[derive(Debug, Clone)]
pub struct Binding<V> {
    pub name: String,
    pub value: V,
}

/// A table from names to values, kept in the order in which the names
/// arrived. A name is looked up at the first place where it stands.
#[derive(Debug, Clone)]
pub struct Bindings<V> {
    pub entries: Vec<Binding<V>>,
}

/// Whether `i` is the first place in `entries` that holds `key`.
pub open spec fn is_first<V>(entries: Seq<Binding<V>>, key: Seq<char>, i: int) -> bool {
    &&& 0 <= i < entries.len()
    &&& entries[i].name@ == key
    &&& forall|j: int| 0 <= j < i ==> (#[trigger] entries[j]).name@ != key
}

/// The table that a list of bindings stands for.
pub open spec fn bindings_view<V: DeepView>(entries: Seq<Binding<V>>) -> Map<Seq<char>, V::V> {
    Map::new(
        |k: Seq<char>| exists|i: int| is_first(entries, k, i),
        |k: Seq<char>| entries[choose|i: int| is_first(entries, k, i)].value.deep_view(),
    )
}

/// A name has at most one first place.
pub proof fn lemma_first_unique<V>(entries: Seq<Binding<V>>, key: Seq<char>, i: int, j: int)
    requires
        is_first(entries, key, i),
        is_first(entries, key, j),
    ensures
        i == j,
{
    if i < j {
        assert(entries[i].name@ != key);
    } else if j < i {
        assert(entries[j].name@ != key);
    }
}

/// What the table holds under a name whose first place is known.
pub proof fn lemma_view_at<V: DeepView>(entries: Seq<Binding<V>>, key: Seq<char>, i: int)
    requires
        is_first(entries, key, i),
    ensures
        bindings_view(entries).contains_key(key),
        bindings_view(entries)[key] == entries[i].value.deep_view(),
{
    let j = choose|j: int| is_first(entries, key, j);
    lemma_first_unique(entries, key, i, j);
}

/// A name that stands nowhere is not in the table.
pub proof fn lemma_view_absent<V: DeepView>(entries: Seq<Binding<V>>, key: Seq<char>)
    requires
        forall|j: int| 0 <= j < entries.len() ==> (#[trigger] entries[j]).name@ != key,
    ensures
        !bindings_view(entries).contains_key(key),
{
}

impl<V: DeepView> DeepView for Bindings<V> {
    type V = Map<Seq<char>, V::V>;

    open spec fn deep_view(&self) -> Map<Seq<char>, V::V> {
        bindings_view(self.entries@)
    }
}

impl<V: DeepView> Bindings<V> {
    /// The empty table.
    pub fn new() -> (r: Bindings<V>)
        ensures
            r.deep_view() == Map::<Seq<char>, V::V>::empty(),
    {
        let r = Bindings { entries: Vec::new() };
        assert(r.deep_view() =~= Map::<Seq<char>, V::V>::empty());
        r
    }

    /// The first place that holds `key`, if there is one.
    fn find(&self, key: &String) -> (r: Option<usize>)
        ensures
            match r {
                Some(i) => is_first(self.entries@, key@, i as int),
                None => forall|j: int|
                    0 <= j < self.entries@.len() ==> (#[trigger] self.entries@[j]).name@ != key@,
            },
    {
        let mut i: usize = 0;
        while i < self.entries.len()
            invariant
                i <= self.entries@.len(),
                forall|j: int| 0 <= j < i ==> (#[trigger] self.entries@[j]).name@ != key@,
            decreases self.entries@.len() - i,
        {
            if self.entries[i].name == *key {
                return Some(i);
            }
            i += 1;
        }
        None
    }

    /// Whether the table has a value under `key`.
    pub fn contains(&self, key: &String) -> (r: bool)
        ensures
            r == self.deep_view().contains_key(key@),
    {
        match self.find(key) {
            Some(i) => {
                proof {
                    lemma_view_at(self.entries@, key@, i as int);
                }
                true
            },
            None => {
                proof {
                    lemma_view_absent(self.entries@, key@);
                }
                false
            },
        }
    }

    /// The value under `key`, if the table has one.
    pub fn get(&self, key: &String) -> (r: Option<&V>)
        ensures
            match r {
                Some(v) => self.deep_view().contains_key(key@) && v.deep_view()
                    == self.deep_view()[key@],
                None => !self.deep_view().contains_key(key@),
            },
    {
        match self.find(key) {
            Some(i) => {
                proof {
                    lemma_view_at(self.entries@, key@, i as int);
                }
                Some(&self.entries[i].value)
            },
            None => {
                proof {
                    lemma_view_absent(self.entries@, key@);
                }
                None
            },
        }
    }

    /// Puts `value` under `key`, in place of what was there before if
    /// anything was.
    pub fn insert(&mut self, key: String, value: V)
        ensures
            final(self).deep_view() == old(self).deep_view().insert(key@, value.deep_view()),
    {
        let ghost before = self.entries@;
        let ghost k = key@;
        let ghost v = value.deep_view();
        match self.find(&key) {
            Some(i) => {
                self.entries.set(i, Binding { name: key, value });
                let ghost after = self.entries@;
                proof {
                    assert forall|q: Seq<char>, j: int|
                        is_first(before, q, j) == is_first(after, q, j) by {
                        if is_first(before, q, j) {
                            assert forall|h: int| 0 <= h < j implies (#[trigger] after[h]).name@
                                != q by {
                                assert(before[h].name@ != q);
                            }
                        }
                        if is_first(after, q, j) {
                            assert forall|h: int| 0 <= h < j implies (#[trigger] before[h]).name@
                                != q by {
                                assert(after[h].name@ != q);
                            }
                        }
                    }
                    lemma_view_at(after, k, i as int);
                    assert forall|q: Seq<char>| q != k && bindings_view(after).contains_key(
                        q,
                    ) implies bindings_view(after)[q] == bindings_view(before)[q] by {
                        let j = choose|j: int| is_first(after, q, j);
                        assert(is_first(before, q, j));
                        lemma_view_at(before, q, j);
                        lemma_view_at(after, q, j);
                    }
                    assert(bindings_view(after) =~= bindings_view(before).insert(k, v));
                }
            },
            None => {
                self.entries.push(Binding { name: key, value });
                let ghost after = self.entries@;
                proof {
                    assert(is_first(after, k, before.len() as int)) by {
                        assert forall|h: int| 0 <= h < before.len() implies (
                        #[trigger] after[h]).name@ != k by {
                            assert(before[h].name@ != k);
                        }
                    }
                    lemma_view_at(after, k, before.len() as int);
                    assert forall|q: Seq<char>, j: int| q != k implies is_first(before, q, j)
                        == is_first(after, q, j) by {
                        if is_first(before, q, j) {
                            assert forall|h: int| 0 <= h < j implies (#[trigger] after[h]).name@
                                != q by {
                                assert(before[h].name@ != q);
                            }
                        }
                        if is_first(after, q, j) {
                            assert forall|h: int| 0 <= h < j implies (#[trigger] before[h]).name@
                                != q by {
                                assert(after[h].name@ != q);
                            }
                        }
                    }
                    assert forall|q: Seq<char>| q != k && bindings_view(after).contains_key(
                        q,
                    ) implies bindings_view(before).contains_key(q) && bindings_view(after)[q]
                        == bindings_view(before)[q] by {
                        let j = choose|j: int| is_first(after, q, j);
                        assert(is_first(before, q, j));
                        lemma_view_at(before, q, j);
                        lemma_view_at(after, q, j);
                    }
                    assert forall|q: Seq<char>| q != k && bindings_view(before).contains_key(
                        q,
                    ) implies bindings_view(after).contains_key(q) by {
                        let j = choose|j: int| is_first(before, q, j);
                        assert(is_first(after, q, j));
                    }
                    assert(bindings_view(after) =~= bindings_view(before).insert(k, v));
                }
            },
        }
    }
}

/// One scope: its names, and the place of the scope around it. The global
/// scope has none around it.
#[derive(Debug, Clone)]
pub struct Environment {
    pub enclosing: Option<usize>,
    pub values: Bindings<Object>,
}

/// What an [`Environment`] stands for.
pub struct EnvironmentView {
    pub enclosing: Option<usize>,
    pub values: Map<Seq<char>, ObjectView>,
}

impl DeepView for Environment {
    type V = EnvironmentView;

    open spec fn deep_view(&self) -> EnvironmentView {
        EnvironmentView { enclosing: self.enclosing, values: self.values.deep_view() }
    }
}

/// The scope reached from `from` by going `distance` times to the scope
/// around, if the chain is that long.
pub open spec fn ancestor(scopes: Seq<EnvironmentView>, from: usize, distance: nat) -> Option<
    usize,
>
    decreases distance,
{
    if from >= scopes.len() {
        None
    } else if distance == 0 {
        Some(from)
    } else {
        match scopes[from as int].enclosing {
            Some(around) => ancestor(scopes, around, (distance - 1) as nat),
            None => None,
        }
    }
}

/// What reading `key` in the scope `distance` steps out from `from` gives.
pub open spec fn read_at(
    scopes: Seq<EnvironmentView>,
    from: usize,
    distance: nat,
    key: Seq<char>,
) -> Result<ObjectView, InterpretErrorView> {
    match ancestor(scopes, from, distance) {
        Some(scope) => if scopes[scope as int].values.contains_key(key) {
            Ok(scopes[scope as int].values[key])
        } else {
            Err(failure(ErrorKind::UndefinedVariable, 0, key))
        },
        None => Err(failure(ErrorKind::Unreachable, 0, key)),
    }
}

/// The store after `value` has been put under `key` in the scope `scope`.
pub open spec fn with_binding(
    scopes: Seq<EnvironmentView>,
    scope: usize,
    key: Seq<char>,
    value: ObjectView,
) -> Seq<EnvironmentView> {
    scopes.update(
        scope as int,
        EnvironmentView {
            enclosing: scopes[scope as int].enclosing,
            values: scopes[scope as int].values.insert(key, value),
        },
    )
}

/// What assigning to `key` in the scope `distance` steps out from `from`
/// gives: the new store, or an error when the name is not defined there.
pub open spec fn write_at(
    scopes: Seq<EnvironmentView>,
    from: usize,
    distance: nat,
    key: Seq<char>,
    value: ObjectView,
) -> Result<Seq<EnvironmentView>, InterpretErrorView> {
    match ancestor(scopes, from, distance) {
        Some(scope) => if scopes[scope as int].values.contains_key(key) {
            Ok(with_binding(scopes, scope, key, value))
        } else {
            Err(failure(ErrorKind::UndefinedVariable, 0, key))
        },
        None => Err(failure(ErrorKind::Unreachable, 0, key)),
    }
}

/// The nearest scope, from `from` outwards and at most `steps` scopes away,
/// that defines `key`.
pub open spec fn holder(scopes: Seq<EnvironmentView>, from: usize, key: Seq<char>, steps: nat)
    -> Option<usize>
    decreases steps,
{
    if from >= scopes.len() {
        None
    } else if scopes[from as int].values.contains_key(key) {
        Some(from)
    } else if steps == 0 {
        None
    } else {
        match scopes[from as int].enclosing {
            Some(around) => holder(scopes, around, key, (steps - 1) as nat),
            None => None,
        }
    }
}

/// What reading `key` from `from` outwards gives. No chain is longer than
/// the store, so that many steps reach every scope of it.
pub open spec fn lookup(scopes: Seq<EnvironmentView>, from: usize, key: Seq<char>) -> Result<
    ObjectView,
    InterpretErrorView,
> {
    match holder(scopes, from, key, scopes.len()) {
        Some(scope) => Ok(scopes[scope as int].values[key]),
        None => Err(failure(ErrorKind::UndefinedVariable, 0, key)),
    }
}

/// What assigning to `key` from `from` outwards gives.
pub open spec fn assign(
    scopes: Seq<EnvironmentView>,
    from: usize,
    key: Seq<char>,
    value: ObjectView,
) -> Result<Seq<EnvironmentView>, InterpretErrorView> {
    match holder(scopes, from, key, scopes.len()) {
        Some(scope) => Ok(with_binding(scopes, scope, key, value)),
        None => Err(failure(ErrorKind::UndefinedVariable, 0, key)),
    }
}

/// A scope that `ancestor` or `holder` finds is in the store.
pub proof fn lemma_found_in_store(
    scopes: Seq<EnvironmentView>,
    from: usize,
    distance: nat,
    key: Seq<char>,
)
    ensures
        ancestor(scopes, from, distance) matches Some(scope) ==> scope < scopes.len(),
        holder(scopes, from, key, distance) matches Some(scope) ==> scope < scopes.len()
            && scopes[scope as int].values.contains_key(key),
    decreases distance,
{
    if from < scopes.len() && distance > 0 {
        match scopes[from as int].enclosing {
            Some(around) => lemma_found_in_store(scopes, around, (distance - 1) as nat, key),
            None => {},
        }
    }
}

/// Writing a value does not change which scope lies around which.
pub proof fn lemma_binding_keeps_chain(
    scopes: Seq<EnvironmentView>,
    scope: usize,
    key: Seq<char>,
    value: ObjectView,
    from: usize,
    distance: nat,
)
    requires
        scope < scopes.len(),
    ensures
        ancestor(with_binding(scopes, scope, key, value), from, distance) == ancestor(
            scopes,
            from,
            distance,
        ),
    decreases distance,
{
    if from < scopes.len() && distance > 0 {
        match scopes[from as int].enclosing {
            Some(around) => lemma_binding_keeps_chain(
                scopes,
                scope,
                key,
                value,
                around,
                (distance - 1) as nat,
            ),
            None => {},
        }
    }
}

/// A value assigned at a distance is the value read at that distance, and
/// reading succeeds exactly where assigning does.
pub proof fn lemma_read_after_write(
    scopes: Seq<EnvironmentView>,
    from: usize,
    distance: nat,
    key: Seq<char>,
    value: ObjectView,
)
    ensures
        write_at(scopes, from, distance, key, value) matches Ok(after) ==> read_at(
            after,
            from,
            distance,
            key,
        ) == Ok::<ObjectView, InterpretErrorView>(value),
        write_at(scopes, from, distance, key, value) is Ok <==> read_at(
            scopes,
            from,
            distance,
            key,
        ) is Ok,
{
    lemma_found_in_store(scopes, from, distance, key);
    match ancestor(scopes, from, distance) {
        Some(scope) => {
            lemma_binding_keeps_chain(scopes, scope, key, value, from, distance);
        },
        None => {},
    }
}

/// An assignment leaves every other name, and every other scope, as it was.
pub proof fn lemma_write_elsewhere(
    scopes: Seq<EnvironmentView>,
    from: usize,
    distance: nat,
    key: Seq<char>,
    value: ObjectView,
    other_from: usize,
    other_distance: nat,
    other_key: Seq<char>,
)
    requires
        other_key != key || ancestor(scopes, other_from, other_distance) != ancestor(
            scopes,
            from,
            distance,
        ),
    ensures
        write_at(scopes, from, distance, key, value) matches Ok(after) ==> read_at(
            after,
            other_from,
            other_distance,
            other_key,
        ) == read_at(scopes, other_from, other_distance, other_key),
{
    lemma_found_in_store(scopes, from, distance, key);
    lemma_found_in_store(scopes, other_from, other_distance, other_key);
    match ancestor(scopes, from, distance) {
        Some(scope) => {
            lemma_binding_keeps_chain(scopes, scope, key, value, other_from, other_distance);
        },
        None => {},
    }
}

impl Environment {
    /// An empty scope inside `enclosing`.
    pub fn new(enclosing: Option<usize>) -> (r: Environment)
        ensures
            r.deep_view() == (EnvironmentView {
                enclosing,
                values: Map::<Seq<char>, ObjectView>::empty(),
            }),
    {
        Environment { enclosing, values: Bindings::new() }
    }

    /// Binds `key` to `value` in this scope, whether or not the name was
    /// bound before.
    pub fn define(&mut self, key: String, value: Object)
        ensures
            final(self).deep_view() == (EnvironmentView {
                enclosing: old(self).enclosing,
                values: old(self).deep_view().values.insert(key@, value.deep_view()),
            }),
    {
        self.values.insert(key, value);
    }

    /// The scope `distance` steps out from `from`.
    pub fn ancestor(environments: &Vec<Environment>, from: usize, distance: usize) -> (r: Option<
        usize,
    >)
        ensures
            r == ancestor(environments.deep_view(), from, distance as nat),
            r matches Some(scope) ==> scope < environments@.len(),
    {
        let mut current = from;
        let mut remaining = distance;
        loop
            invariant
                ancestor(environments.deep_view(), from, distance as nat) == ancestor(
                    environments.deep_view(),
                    current,
                    remaining as nat,
                ),
            decreases remaining,
        {
            if current >= environments.len() {
                return None;
            }
            if remaining == 0 {
                return Some(current);
            }
            match environments[current].enclosing {
                Some(around) => {
                    current = around;
                    remaining = remaining - 1;
                },
                None => {
                    return None;
                },
            }
        }
    }

    /// Reads `key` in the scope `distance` steps out from `from`.
    pub fn get_at(environments: &Vec<Environment>, from: usize, distance: usize, key: &String)
        -> (r: Result<Object, InterpretError>)
        ensures
            match r {
                Ok(v) => Ok(v.deep_view()),
                Err(e) => Err(e.deep_view()),
            } == read_at(environments.deep_view(), from, distance as nat, key@),
    {
        match Environment::ancestor(environments, from, distance) {
            Some(scope) => match environments[scope].values.get(key) {
                Some(v) => Ok(v.duplicate()),
                None => Err(fail(ErrorKind::UndefinedVariable, 0, key)),
            },
            None => Err(fail(ErrorKind::Unreachable, 0, key)),
        }
    }

    /// Assigns to `key` in the scope `distance` steps out from `from`. The
    /// name has to be defined there; nothing changes if it is not.
    pub fn set_at(
        environments: &mut Vec<Environment>,
        from: usize,
        distance: usize,
        key: &String,
        value: Object,
    ) -> (r: Result<(), InterpretError>)
        ensures
            match r {
                Ok(_) => Ok(final(environments).deep_view()),
                Err(e) => Err(e.deep_view()),
            } == write_at(
                old(environments).deep_view(),
                from,
                distance as nat,
                key@,
                value.deep_view(),
            ),
            r is Err ==> *final(environments) == *old(environments),
    {
        match Environment::ancestor(environments, from, distance) {
            Some(scope) => {
                if environments[scope].values.contains(key) {
                    Environment::bind(environments, scope, key.clone(), value);
                    Ok(())
                } else {
                    Err(fail(ErrorKind::UndefinedVariable, 0, key))
                }
            },
            None => Err(fail(ErrorKind::Unreachable, 0, key)),
        }
    }

    /// Binds `key` to `value` in the scope at `scope`.
    pub(crate) fn bind(
        environments: &mut Vec<Environment>,
        scope: usize,
        key: String,
        value: Object,
    )
        requires
            scope < old(environments)@.len(),
        ensures
            final(environments).deep_view() == with_binding(
                old(environments).deep_view(),
                scope,
                key@,
                value.deep_view(),
            ),
    {
        let ghost before = environments.deep_view();
        let ghost k = key@;
        let ghost v = value.deep_view();
        let environment = &mut environments[scope];
        environment.define(key, value);
        assert(environments.deep_view() =~= with_binding(before, scope, k, v));
    }

    /// The nearest scope from `from` outwards that defines `key`.
    pub fn holder(environments: &Vec<Environment>, from: usize, key: &String) -> (r: Option<usize>)
        ensures
            r == holder(environments.deep_view(), from, key@, environments@.len() as nat),
            r matches Some(scope) ==> scope < environments@.len(),
    {
        let mut current = from;
        let mut steps = environments.len();
        loop
            invariant
                holder(environments.deep_view(), from, key@, environments@.len() as nat) == holder(
                    environments.deep_view(),
                    current,
                    key@,
                    steps as nat,
                ),
            decreases steps,
        {
            if current >= environments.len() {
                return None;
            }
            if environments[current].values.contains(key) {
                return Some(current);
            }
            if steps == 0 {
                return None;
            }
            match environments[current].enclosing {
                Some(around) => {
                    current = around;
                    steps = steps - 1;
                },
                None => {
                    return None;
                },
            }
        }
    }

    /// Reads `key` in the nearest scope from `from` outwards that defines it.
    pub fn get(environments: &Vec<Environment>, from: usize, key: &String) -> (r: Result<
        Object,
        InterpretError,
    >)
        ensures
            match r {
                Ok(v) => Ok(v.deep_view()),
                Err(e) => Err(e.deep_view()),
            } == lookup(environments.deep_view(), from, key@),
    {
        proof {
            lemma_found_in_store(
                environments.deep_view(),
                from,
                environments@.len() as nat,
                key@,
            );
        }
        match Environment::holder(environments, from, key) {
            Some(scope) => match environments[scope].values.get(key) {
                Some(v) => Ok(v.duplicate()),
                None => Err(fail(ErrorKind::UndefinedVariable, 0, key)),
            },
            None => Err(fail(ErrorKind::UndefinedVariable, 0, key)),
        }
    }

    /// Assigns to `key` in the nearest scope from `from` outwards that
    /// defines it. Nothing changes if none does.
    pub fn set(environments: &mut Vec<Environment>, from: usize, key: &String, value: Object) -> (r:
        Result<(), InterpretError>)
        ensures
            match r {
                Ok(_) => Ok(final(environments).deep_view()),
                Err(e) => Err(e.deep_view()),
            } == assign(old(environments).deep_view(), from, key@, value.deep_view()),
            r is Err ==> *final(environments) == *old(environments),
    {
        match Environment::holder(environments, from, key) {
            Some(scope) => {
                Environment::bind(environments, scope, key.clone(), value);
                Ok(())
            },
            None => Err(fail(ErrorKind::UndefinedVariable, 0, key)),
        }
    }
}

} // verus!
