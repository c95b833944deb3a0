//! The environment: scopes that name the scope around them, and the lines that
//! a program printed.
use crate::value::{handles_below, lemma_handles_below_grows, Output, Value};
use vstd::prelude::*;

verus! {

/// One scope as a mathematical value: its bindings, and the scope around it.
pub struct ScopeView {
    pub parent: Option<nat>,
    pub bindings: Map<Seq<char>, Value>,
}

/// All the scopes of one evaluation, each known by its index, the index of the
/// scope in which evaluation currently stands, and the lines printed so far.
pub struct ContextView {
    pub scopes: Seq<ScopeView>,
    pub current: nat,
    pub printed: Seq<Seq<char>>,
}

impl ContextView {
    /// The environment at the start: one empty scope with none around it.
    pub open spec fn fresh() -> ContextView {
        ContextView {
            scopes: seq![ScopeView { parent: None, bindings: Map::empty() }],
            current: 0,
            printed: Seq::empty(),
        }
    }

    /// The value of `name` as seen from `scope`: the binding of the innermost
    /// scope that has one, going outwards from `scope`.
    pub open spec fn lookup(self, scope: nat, name: Seq<char>) -> Option<Value>
        decreases scope,
    {
        if scope >= self.scopes.len() {
            None
        } else if self.scopes[scope as int].bindings.dom().contains(name) {
            Some(self.scopes[scope as int].bindings[name])
        } else {
            match self.scopes[scope as int].parent {
                Some(p) => if p < scope {
                    self.lookup(p, name)
                } else {
                    None
                },
                None => None,
            }
        }
    }

    /// The value of `name` as seen from the current scope.
    pub open spec fn resolve(self, name: Seq<char>) -> Option<Value> {
        self.lookup(self.current, name)
    }

    /// The environment after `name` is bound to `value` in the scope `scope`, in
    /// place of an earlier binding of that name there.
    pub open spec fn bind_in(self, scope: nat, name: Seq<char>, value: Value) -> ContextView {
        let old_scope = self.scopes[scope as int];
        ContextView {
            scopes: self.scopes.update(
                scope as int,
                ScopeView {
                    parent: old_scope.parent,
                    bindings: old_scope.bindings.insert(name, value),
                },
            ),
            current: self.current,
            printed: self.printed,
        }
    }

    /// The environment after `name` is bound to `value` in the current scope.
    pub open spec fn bind(self, name: Seq<char>, value: Value) -> ContextView {
        self.bind_in(self.current, name, value)
    }

    /// The environment after one more line is printed.
    pub open spec fn print(self, line: Seq<char>) -> ContextView {
        ContextView { scopes: self.scopes, current: self.current, printed: self.printed.push(line) }
    }

    /// The environment with one more scope, empty, with `parent` around it. Its
    /// index is the number of scopes before.
    pub open spec fn child_of(self, parent: nat) -> ContextView {
        ContextView {
            scopes: self.scopes.push(ScopeView { parent: Some(parent), bindings: Map::empty() }),
            current: self.current,
            printed: self.printed,
        }
    }

    /// The same scopes, with evaluation standing in `scope`.
    pub open spec fn at(self, scope: nat) -> ContextView {
        ContextView { scopes: self.scopes, current: scope, printed: self.printed }
    }

    /// The current scope exists, every scope lies after the one around it, and
    /// every closure bound anywhere names a scope that exists.
    pub open spec fn wf(self) -> bool {
        &&& self.current < self.scopes.len()
        &&& forall|i: int|
            0 <= i < self.scopes.len() ==> match (#[trigger] self.scopes[i]).parent {
                Some(p) => p < i,
                None => true,
            }
        &&& forall|i: int, name: Seq<char>|
            0 <= i < self.scopes.len() && (#[trigger] self.scopes[i]).bindings.dom().contains(name)
                ==> handles_below(
                #[trigger] self.scopes[i].bindings[name],
                self.scopes.len(),
            )
    }
}

/// A scope made inside a scope sees what that scope sees, whatever the scope in
/// which evaluation stood when it was made: names resolve where a function was
/// defined, not where it is called.
pub proof fn lemma_child_sees_parent(context: ContextView, parent: nat, name: Seq<char>)
    requires
        parent < context.scopes.len(),
    ensures
        context.child_of(parent).at(context.scopes.len()).resolve(name) == context.lookup(
            parent,
            name,
        ),
{
    let made = context.child_of(parent).at(context.scopes.len());
    assert(made.scopes[context.scopes.len() as int].bindings.dom() =~= Set::empty());
    lemma_lookup_ignores_later_scopes(context, made, parent, name);
}

/// What a name is seen as from a scope depends only on the scopes up to it.
pub proof fn lemma_lookup_ignores_later_scopes(
    context: ContextView,
    longer: ContextView,
    scope: nat,
    name: Seq<char>,
)
    requires
        scope < context.scopes.len() <= longer.scopes.len(),
        forall|i: int| 0 <= i <= scope ==> context.scopes[i] == longer.scopes[i],
    ensures
        longer.lookup(scope, name) == context.lookup(scope, name),
    decreases scope,
{
    if !context.scopes[scope as int].bindings.dom().contains(name) {
        match context.scopes[scope as int].parent {
            Some(p) => {
                if p < scope {
                    lemma_lookup_ignores_later_scopes(context, longer, p, name);
                }
            },
            None => {},
        }
    }
}

/// A binding of a value whose closures name scopes that exist keeps the
/// environment well-formed.
pub proof fn lemma_bind_in_keeps_wf(context: ContextView, scope: nat, name: Seq<char>, value: Value)
    requires
        context.wf(),
        scope < context.scopes.len(),
        handles_below(value, context.scopes.len()),
    ensures
        context.bind_in(scope, name, value).wf(),
{
}

/// A new scope inside one that exists keeps the environment well-formed.
pub proof fn lemma_child_of_keeps_wf(context: ContextView, parent: nat)
    requires
        context.wf(),
        parent < context.scopes.len(),
    ensures
        context.child_of(parent).wf(),
{
    let made = context.child_of(parent);
    assert forall|i: int, name: Seq<char>|
        0 <= i < made.scopes.len() && (#[trigger] made.scopes[i]).bindings.dom().contains(
            name,
        ) implies handles_below(#[trigger] made.scopes[i].bindings[name], made.scopes.len()) by {
        if i < context.scopes.len() {
            lemma_handles_below_grows(
                context.scopes[i].bindings[name],
                context.scopes.len(),
                made.scopes.len(),
            );
        }
    }
}

/// What a name resolves to in a well-formed environment names scopes that exist.
pub proof fn lemma_lookup_handles(context: ContextView, scope: nat, name: Seq<char>)
    requires
        context.wf(),
    ensures
        context.lookup(scope, name) matches Some(value) ==> handles_below(
            value,
            context.scopes.len(),
        ),
    decreases scope,
{
    if scope < context.scopes.len() && !context.scopes[scope as int].bindings.dom().contains(
        name,
    ) {
        match context.scopes[scope as int].parent {
            Some(p) => {
                if p < scope {
                    lemma_lookup_handles(context, p, name);
                }
            },
            None => {},
        }
    }
}

/// A value bound in a scope is what its name resolves to from every scope made
/// inside that scope. So a closure that `bind` puts into the scope it captured
/// finds itself under its own name when it is called: the binding is made after
/// the closure, in the scope that the closure shares.
pub proof fn lemma_binding_seen_from_inside(context: ContextView, name: Seq<char>, value: Value)
    requires
        context.current < context.scopes.len(),
    ensures
        context.bind(name, value).child_of(context.current).at(context.scopes.len()).resolve(name)
            == Some(value),
{
    let bound = context.bind(name, value);
    lemma_child_sees_parent(bound, context.current, name);
}

/// Whether no name stands twice in a list of names.
spec fn unique(names: Seq<String>) -> bool {
    forall|i: int, j: int| 0 <= i < j < names.len() ==> names[i]@ != names[j]@
}

/// Whether `name` stands in a list of names.
spec fn listed(names: Seq<String>, name: Seq<char>) -> bool {
    exists|i: int| 0 <= i < names.len() && (#[trigger] names[i])@ == name
}

/// The place of `name` in a list of names in which it stands.
spec fn place_of(names: Seq<String>, name: Seq<char>) -> int {
    choose|i: int| 0 <= i < names.len() && (#[trigger] names[i])@ == name
}

/// The bindings that a list of names and a list of values stand for: each name
/// is bound to the value at its place.
spec fn bindings_of(names: Seq<String>, values: Seq<Output>) -> Map<Seq<char>, Value> {
    Map::new(
        |name: Seq<char>| listed(names, name),
        |name: Seq<char>| values[place_of(names, name)]@,
    )
}

/// In a list without repetition, a name has the place at which it stands.
proof fn lemma_place_of(names: Seq<String>, i: int)
    requires
        unique(names),
        0 <= i < names.len(),
    ensures
        listed(names, names[i]@),
        place_of(names, names[i]@) == i,
{
    let p = place_of(names, names[i]@);
    assert(0 <= p < names.len() && names[p]@ == names[i]@);
}

/// One scope: the names bound in it with their values, and the scope around it.
/// No name is bound twice.
struct Scope {
    parent: Option<usize>,
    names: Vec<String>,
    values: Vec<Output>,
}

impl Scope {
    /// A scope holds one value for each name, and each name once.
    spec fn inv(&self) -> bool {
        self.names.len() == self.values.len() && unique(self.names@)
    }

    /// The place at which `name` is bound, if it is.
    fn find(&self, name: &String) -> (r: Option<usize>)
        requires
            self.inv(),
        ensures
            match r {
                Some(i) => i < self.names.len() && self.names[i as int]@ == name@
                    && self@.bindings.dom().contains(name@) && self@.bindings[name@]
                    == self.values[i as int]@,
                None => !listed(self.names@, name@) && !self@.bindings.dom().contains(name@),
            },
    {
        let mut i: usize = 0;
        while i < self.names.len()
            invariant
                self.inv(),
                i <= self.names.len(),
                forall|j: int| 0 <= j < i ==> self.names[j]@ != name@,
            decreases self.names.len() - i,
        {
            if self.names[i] == *name {
                proof {
                    lemma_place_of(self.names@, i as int);
                }
                return Some(i);
            }
            i += 1;
        }
        None
    }

    /// Binds `name` to `value`, in place of what it was bound to before.
    fn set(&mut self, name: String, value: Output)
        requires
            old(self).inv(),
        ensures
            final(self).inv(),
            final(self)@.parent == old(self)@.parent,
            final(self)@.bindings == old(self)@.bindings.insert(name@, value@),
    {
        let ghost names = self.names@;
        let ghost values = self.values@;
        match self.find(&name) {
            Some(i) => {
                self.values.set(i, value);
                proof {
                    let after = bindings_of(names, self.values@);
                    let wanted = bindings_of(names, values).insert(name@, value@);
                    assert forall|key: Seq<char>| listed(names, key) implies #[trigger] after[key]
                        == wanted[key] by {
                        let p = place_of(names, key);
                        assert(0 <= p < names.len() && names[p]@ == key);
                        lemma_place_of(names, i as int);
                    }
                    assert(self@.bindings =~= old(self)@.bindings.insert(name@, value@));
                }
            },
            None => {
                self.names.push(name);
                self.values.push(value);
                proof {
                    let longer = self.names@;
                    let last = names.len() as int;
                    assert(longer[last]@ == name@);
                    assert forall|key: Seq<char>| listed(longer, key) == (listed(names, key) || key
                        == name@) by {
                        if listed(longer, key) {
                            let p = place_of(longer, key);
                            assert(0 <= p < longer.len() && longer[p]@ == key);
                            if p < last {
                                assert(names[p]@ == key);
                            }
                        }
                        if listed(names, key) {
                            let p = place_of(names, key);
                            assert(0 <= p < names.len() && names[p]@ == key);
                            assert(longer[p]@ == key);
                        }
                    }
                    let after = bindings_of(longer, self.values@);
                    let wanted = bindings_of(names, values).insert(name@, value@);
                    assert forall|key: Seq<char>| listed(longer, key) implies #[trigger] after[key]
                        == wanted[key] by {
                        let p = place_of(longer, key);
                        assert(0 <= p < longer.len() && longer[p]@ == key);
                        if key != name@ {
                            assert(names[p]@ == key);
                            lemma_place_of(names, p);
                        }
                    }
                    assert(self@.bindings =~= old(self)@.bindings.insert(name@, value@));
                }
            },
        }
    }
}

impl View for Scope {
    type V = ScopeView;

    closed spec fn view(&self) -> ScopeView {
        ScopeView {
            parent: match self.parent {
                Some(p) => Some(p as nat),
                None => None,
            },
            bindings: bindings_of(self.names@, self.values@),
        }
    }
}

/// The environment of one evaluation: every scope made so far, the scope in
/// which evaluation currently stands, and the lines printed so far. A scope is
/// known by its handle, the index at which it was made; closures hold such
/// handles, so a scope is shared by all that name it, and a binding added to it
/// later is seen by all of them.
pub struct Context {
    scopes: Vec<Scope>,
    current: usize,
    printed: Vec<String>,
}

impl View for Context {
    type V = ContextView;

    closed spec fn view(&self) -> ContextView {
        ContextView {
            scopes: Seq::new(self.scopes.len() as nat, |i: int| self.scopes[i]@),
            current: self.current as nat,
            printed: Seq::new(self.printed.len() as nat, |i: int| self.printed[i]@),
        }
    }
}

impl Context {
    /// What holds of every environment that this library hands out: `wf` of its
    /// view, and that its scopes are stored consistently.
    pub closed spec fn wf(&self) -> bool {
        &&& self@.wf()
        &&& forall|i: int| 0 <= i < self.scopes.len() ==> (#[trigger] self.scopes[i]).inv()
    }

    /// A well-formed environment has a well-formed view.
    pub proof fn lemma_wf_view(&self)
        requires
            self.wf(),
        ensures
            self@.wf(),
    {
    }

    /// The top-level environment: one empty scope, in which evaluation stands.
    pub fn new() -> (context: Context)
        ensures
            context.wf(),
            context@ == ContextView::fresh(),
    {
        let mut scopes: Vec<Scope> = Vec::new();
        scopes.push(Scope { parent: None, names: Vec::new(), values: Vec::new() });
        let context = Context { scopes, current: 0, printed: Vec::new() };
        proof {
            assert(context@.printed =~= Seq::<Seq<char>>::empty());
            assert(context@.scopes[0].bindings =~= Map::empty());
            assert(context@.scopes =~= ContextView::fresh().scopes);
        }
        context
    }

    /// The handle of the scope in which evaluation stands.
    pub fn current(&self) -> (scope: usize)
        requires
            self.wf(),
        ensures
            scope == self@.current,
            scope < self@.scopes.len(),
    {
        self.current
    }

    /// The number of scopes made so far.
    pub fn len(&self) -> (n: usize)
        ensures
            n == self@.scopes.len(),
    {
        self.scopes.len()
    }

    /// Moves evaluation to the scope `scope`.
    pub fn enter(&mut self, scope: usize)
        requires
            old(self).wf(),
            scope < old(self)@.scopes.len(),
        ensures
            final(self).wf(),
            final(self)@ == old(self)@.at(scope as nat),
    {
        self.current = scope;
        proof {
            assert(self@.scopes =~= old(self)@.scopes);
            assert(self@.printed =~= old(self)@.printed);
        }
    }

    /// Looks `name` up from the current scope outwards and gives a copy of the
    /// first binding found, or `None` where no scope on the way binds it.
    pub fn resolve(&self, name: &String) -> (r: Option<Output>)
        requires
            self.wf(),
        ensures
            match r {
                Some(value) => self@.resolve(name@) == Some(value@) && handles_below(
                    value@,
                    self@.scopes.len(),
                ),
                None => self@.resolve(name@).is_none(),
            },
    {
        let mut scope: usize = self.current;
        loop
            invariant
                self.wf(),
                scope < self.scopes.len(),
                self@.lookup(scope as nat, name@) == self@.resolve(name@),
            decreases scope,
        {
            assert(self.scopes[scope as int].inv());
            assert(self@.scopes[scope as int] == self.scopes[scope as int]@);
            match self.scopes[scope].find(name) {
                Some(i) => {
                    return Some(self.scopes[scope].values[i].clone());
                },
                None => {
                    match self.scopes[scope].parent {
                        Some(p) => {
                            scope = p;
                        },
                        None => {
                            return None;
                        },
                    }
                },
            }
        }
    }

    /// Binds `name` to `value` in the scope `scope`. An earlier binding of the
    /// name in that scope is replaced; no other scope is touched.
    pub fn bind_in(&mut self, scope: usize, name: String, value: Output)
        requires
            old(self).wf(),
            scope < old(self)@.scopes.len(),
            handles_below(value@, old(self)@.scopes.len()),
        ensures
            final(self).wf(),
            final(self)@ == old(self)@.bind_in(scope as nat, name@, value@),
    {
        let ghost before = self@;
        let mut taken = Scope { parent: None, names: Vec::new(), values: Vec::new() };
        std::mem::swap(&mut self.scopes[scope], &mut taken);
        taken.set(name, value);
        self.scopes.set(scope, taken);
        proof {
            assert(self@.scopes =~= before.bind_in(scope as nat, name@, value@).scopes);
            assert(self@.printed =~= before.printed);
        }
    }

    /// Binds `name` to `value` in the current scope. An earlier binding of the
    /// name in that scope is replaced; the scopes around it are not touched.
    pub fn bind(&mut self, name: String, value: Output)
        requires
            old(self).wf(),
            handles_below(value@, old(self)@.scopes.len()),
        ensures
            final(self).wf(),
            final(self)@ == old(self)@.bind(name@, value@),
    {
        let current = self.current;
        self.bind_in(current, name, value);
    }

    /// Adds one line to what has been printed.
    pub fn print(&mut self, line: String)
        requires
            old(self).wf(),
        ensures
            final(self).wf(),
            final(self)@ == old(self)@.print(line@),
    {
        let ghost before = self@;
        self.printed.push(line);
        proof {
            assert(self@.scopes =~= before.scopes);
            assert(self@.printed =~= before.printed.push(line@));
        }
    }

    /// The lines printed so far, in the order in which they were printed.
    pub fn printed(&self) -> (lines: &Vec<String>)
        ensures
            lines@.len() == self@.printed.len(),
            forall|i: int| 0 <= i < lines@.len() ==> lines@[i]@ == self@.printed[i],
    {
        &self.printed
    }

    /// Makes a new empty scope with the scope `parent` around it and gives its
    /// handle. Evaluation stays where it stands.
    pub fn child_of(&mut self, parent: usize) -> (scope: usize)
        requires
            old(self).wf(),
            parent < old(self)@.scopes.len(),
        ensures
            final(self).wf(),
            final(self)@ == old(self)@.child_of(parent as nat),
            scope == old(self)@.scopes.len(),
    {
        let ghost before = self@;
        let scope = self.scopes.len();
        self.scopes.push(Scope { parent: Some(parent), names: Vec::new(), values: Vec::new() });
        proof {
            assert(self.scopes[scope as int]@.bindings =~= Map::empty());
            assert(self@.scopes =~= before.child_of(parent as nat).scopes);
            assert(self@.printed =~= before.printed);
            assert forall|i: int, name: Seq<char>|
                0 <= i < self@.scopes.len() && (#[trigger] self@.scopes[i]).bindings.dom().contains(
                    name,
                ) implies handles_below(
                #[trigger] self@.scopes[i].bindings[name],
                self@.scopes.len(),
            ) by {
                if i < before.scopes.len() {
                    lemma_handles_below_grows(
                        before.scopes[i].bindings[name],
                        before.scopes.len(),
                        self@.scopes.len(),
                    );
                }
            }
        }
        scope
    }
}

} // verus!
