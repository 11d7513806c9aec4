//! The environment: a stack of scopes, each a mapping from names to values.

use crate::text::names_view;
use crate::value::{Native, Value, ValueView};
use vstd::hash_map::StringHashMap;
use vstd::prelude::*;

verus! {

/// The mathematical content of a scope: its bindings, and whether it is
/// the scope of a function call.
pub struct ScopeView {
    pub map: Map<Seq<char>, ValueView>,
    pub function: bool,
}

/// Why an assignment was refused.
#[derive(Debug)]
pub enum EnvError<'a> {
    /// The name is bound to this value, whose type the new value does not have.
    InvalidType(Value<'a>),
    /// The untyped `empty` was assigned to a name that is not bound.
    EmptyDeclarationNoType,
}

/// The mathematical content of an [`EnvError`].
pub enum EnvErrorView {
    InvalidType(ValueView),
    EmptyDeclarationNoType,
}

impl<'a> View for EnvError<'a> {
    type V = EnvErrorView;

    open spec fn view(&self) -> EnvErrorView {
        match self {
            EnvError::InvalidType(value) => EnvErrorView::InvalidType(value@),
            EnvError::EmptyDeclarationNoType => EnvErrorView::EmptyDeclarationNoType,
        }
    }
}

/// The contents of a list of values.
pub open spec fn values_view<'a>(values: Seq<Value<'a>>) -> Seq<ValueView> {
    values.map_values(|value: Value<'a>| value@)
}

/// One more value than `values` holds.
pub proof fn values_view_push<'a>(values: Seq<Value<'a>>, value: Value<'a>)
    ensures
        values_view(values.push(value)) == values_view(values).push(value@),
{
    assert(values_view(values.push(value)) =~= values_view(values).push(value@));
}

/// One level of the environment: the names a block or a function call
/// has introduced, in a hash map from each name to its value.
pub struct Scope<'a> {
    map: StringHashMap<Value<'a>>,
    function: bool,
}

impl<'a> View for Scope<'a> {
    type V = ScopeView;

    closed spec fn view(&self) -> ScopeView {
        ScopeView {
            map: self.map@.map_values(|value: Value<'a>| value@),
            function: self.function,
        }
    }
}

impl<'a> Scope<'a> {
    /// An empty scope.
    pub fn new(function: bool) -> (r: Self)
        ensures
            r@ == (ScopeView { map: Map::empty(), function }),
    {
        let r = Scope { map: StringHashMap::with_capacity(2), function };
        assert(r@.map =~= Map::empty());
        r
    }

    /// Whether this is the scope of a function call.
    pub fn is_function(&self) -> (r: bool)
        ensures
            r == self@.function,
    {
        self.function
    }

    /// The value that `name` is bound to in this scope, if it is bound.
    pub fn get(&self, name: &str) -> (r: Option<Value<'a>>)
        ensures
            match r {
                Some(value) => self@.map.dom().contains(name@) && self@.map[name@] == value@,
                None => !self@.map.dom().contains(name@),
            },
    {
        match self.map.get(name) {
            Some(value) => Some(value.copy()),
            None => None,
        }
    }

    /// Binds `name` to `value` in this scope, in place of what it was bound to before.
    pub fn insert(&mut self, name: String, value: Value<'a>)
        ensures
            final(self)@ == (ScopeView {
                map: old(self)@.map.insert(name@, value@),
                function: old(self)@.function,
            }),
    {
        let ghost before = self@.map;
        let ghost key = name@;
        let ghost bound = value@;
        self.map.insert(name, value);
        assert(self@.map =~= before.insert(key, bound));
    }
}

/// The contents of a list of scopes.
pub open spec fn scopes_view<'a>(scopes: Seq<Scope<'a>>) -> Seq<ScopeView> {
    scopes.map_values(|scope: Scope<'a>| scope@)
}

/// The innermost scope that binds `name`, if one does.
pub open spec fn holder(scopes: Seq<ScopeView>, name: Seq<char>) -> Option<int>
    decreases scopes.len(),
{
    if scopes.len() == 0 {
        None
    } else if scopes.last().map.dom().contains(name) {
        Some(scopes.len() - 1)
    } else {
        holder(scopes.drop_last(), name)
    }
}

/// What `name` means: its value in the innermost scope that binds it.
pub open spec fn lookup(scopes: Seq<ScopeView>, name: Seq<char>) -> Option<ValueView> {
    match holder(scopes, name) {
        Some(i) => Some(scopes[i].map[name]),
        None => None,
    }
}

/// Whether some scope is that of a function call, so that `return` is allowed.
pub open spec fn in_function(scopes: Seq<ScopeView>) -> bool {
    exists|i: int| 0 <= i < scopes.len() && #[trigger] scopes[i].function
}

/// The scopes with a new, empty one on top.
pub open spec fn entered(scopes: Seq<ScopeView>, function: bool) -> Seq<ScopeView> {
    scopes.push(ScopeView { map: Map::empty(), function })
}

/// The scopes without the top one; the global scope stays.
pub open spec fn left(scopes: Seq<ScopeView>) -> Seq<ScopeView> {
    if scopes.len() > 1 {
        scopes.drop_last()
    } else {
        scopes
    }
}

/// The scopes with `name` bound to `value` in scope `i`.
pub open spec fn bound(scopes: Seq<ScopeView>, i: int, name: Seq<char>, value: ValueView) -> Seq<
    ScopeView,
> {
    scopes.update(
        i,
        ScopeView { map: scopes[i].map.insert(name, value), function: scopes[i].function },
    )
}

/// What an assignment of `value` to `name` does.
///
/// If the name is bound (and this is not the binding of a function's
/// argument), the innermost scope that binds it takes the new value,
/// provided the type stays the same; the untyped `empty` stands for the hole
/// of the type that the name has. If the name is not bound, it is bound in
/// the top scope, unless the value is the untyped `empty`.
pub open spec fn assigned(
    scopes: Seq<ScopeView>,
    name: Seq<char>,
    value: ValueView,
    function_arg: bool,
) -> Result<Seq<ScopeView>, EnvErrorView> {
    if !function_arg && holder(scopes, name) is Some {
        let i = holder(scopes, name)->0;
        let current = scopes[i].map[name];
        let typed = if value is Empty {
            current.as_empty()
        } else {
            Some(value)
        };
        if typed is Some && current.get_type() == typed->0.get_type() {
            Ok(bound(scopes, i, name, typed->0))
        } else {
            Err(EnvErrorView::InvalidType(current))
        }
    } else if value is Empty {
        Err(EnvErrorView::EmptyDeclarationNoType)
    } else {
        Ok(bound(scopes, scopes.len() - 1, name, value))
    }
}

/// Whether two lists of scopes bind the same names, scope by scope.
pub open spec fn same_names(first: Seq<ScopeView>, second: Seq<ScopeView>) -> bool {
    &&& first.len() == second.len()
    &&& forall|i: int|
        0 <= i < first.len() ==> (#[trigger] first[i]).map.dom() == (#[trigger] second[i]).map.dom()
}

/// Which scope binds a name depends on the names alone.
pub proof fn holder_by_names(first: Seq<ScopeView>, second: Seq<ScopeView>, name: Seq<char>)
    requires
        same_names(first, second),
    ensures
        holder(first, name) == holder(second, name),
    decreases first.len(),
{
    if first.len() > 0 {
        assert(first.last().map.dom() == second.last().map.dom());
        holder_by_names(first.drop_last(), second.drop_last(), name);
    }
}

/// The scope that binds a name is one of the scopes, binds the name, and
/// no scope above it does.
pub proof fn holder_is_innermost(scopes: Seq<ScopeView>, name: Seq<char>)
    ensures
        match holder(scopes, name) {
            Some(i) => 0 <= i < scopes.len() && scopes[i].map.dom().contains(name) && forall|j: int|
                i < j < scopes.len() ==> !(#[trigger] scopes[j]).map.dom().contains(name),
            None => forall|j: int|
                0 <= j < scopes.len() ==> !(#[trigger] scopes[j]).map.dom().contains(name),
        },
    decreases scopes.len(),
{
    if scopes.len() > 0 {
        let below = scopes.drop_last();
        holder_is_innermost(below, name);
        assert forall|j: int| 0 <= j < below.len() implies (#[trigger] scopes[j]) == below[j] by {}
        if !scopes.last().map.dom().contains(name) {
            match holder(below, name) {
                Some(i) => {
                    assert forall|j: int| i < j < scopes.len() implies !(#[trigger] scopes[j]).map.dom().contains(
                        name,
                    ) by {
                        if j < below.len() {
                            assert(!below[j].map.dom().contains(name));
                        }
                    }
                },
                None => {
                    assert forall|j: int| 0 <= j < scopes.len() implies !(#[trigger] scopes[j]).map.dom().contains(
                        name,
                    ) by {
                        if j < below.len() {
                            assert(!below[j].map.dom().contains(name));
                        }
                    }
                },
            }
        }
    }
}

/// A name that no scope binds is bound by none, and the other way round.
pub proof fn holder_exists(scopes: Seq<ScopeView>, name: Seq<char>, i: int)
    requires
        0 <= i < scopes.len(),
        scopes[i].map.dom().contains(name),
    ensures
        holder(scopes, name) is Some,
        holder(scopes, name)->0 >= i,
    decreases scopes.len(),
{
    if !scopes.last().map.dom().contains(name) {
        holder_exists(scopes.drop_last(), name, i);
    }
}

/// The scopes after the assignments in `assignments`, one after the
/// other; nothing if one of them is refused.
pub open spec fn assigned_all(
    scopes: Seq<ScopeView>,
    assignments: Seq<(Seq<char>, ValueView)>,
) -> Option<Seq<ScopeView>>
    decreases assignments.len(),
{
    if assignments.len() == 0 {
        Some(scopes)
    } else {
        match assigned_all(scopes, assignments.drop_last()) {
            Some(before) => match assigned(
                before,
                assignments.last().0,
                assignments.last().1,
                false,
            ) {
                Ok(after) => Some(after),
                Err(_) => None,
            },
            None => None,
        }
    }
}

/// An assignment introduces names in the top scope only: below it, every
/// scope binds the names it bound before.
pub proof fn assignment_keeps_outer_names(
    scopes: Seq<ScopeView>,
    name: Seq<char>,
    value: ValueView,
    function_arg: bool,
)
    requires
        scopes.len() >= 1,
        assigned(scopes, name, value, function_arg) is Ok,
    ensures
        assigned(scopes, name, value, function_arg)->Ok_0.len() == scopes.len(),
        same_names(
            scopes.drop_last(),
            assigned(scopes, name, value, function_arg)->Ok_0.drop_last(),
        ),
{
    let after = assigned(scopes, name, value, function_arg)->Ok_0;
    holder_is_innermost(scopes, name);
    assert forall|i: int| 0 <= i < scopes.len() - 1 implies (#[trigger] scopes.drop_last()[i]).map.dom()
        == (#[trigger] after.drop_last()[i]).map.dom() by {
        assert(scopes.drop_last()[i] == scopes[i]);
        assert(after.drop_last()[i] == after[i]);
        if !function_arg && holder(scopes, name) == Some(i) {
            assert(after[i].map.dom() =~= scopes[i].map.dom());
        }
    }
}

/// A name that is introduced inside a block is not visible once the block
/// has ended: whatever is assigned between the entry of the block's scope
/// and its end, a name that was not bound before is not bound after.
pub proof fn names_of_a_block_end_with_it(
    scopes: Seq<ScopeView>,
    function: bool,
    assignments: Seq<(Seq<char>, ValueView)>,
    name: Seq<char>,
)
    requires
        scopes.len() >= 1,
        lookup(scopes, name) is None,
        assigned_all(entered(scopes, function), assignments) is Some,
    ensures
        lookup(left(assigned_all(entered(scopes, function), assignments)->0), name) is None,
{
    let inside = assigned_all(entered(scopes, function), assignments)->0;
    block_keeps_outer_names(scopes, function, assignments);
    holder_by_names(scopes, left(inside), name);
}

/// Between the entry of a block's scope and its end, the scopes below
/// bind the names they bound before.
pub proof fn block_keeps_outer_names(
    scopes: Seq<ScopeView>,
    function: bool,
    assignments: Seq<(Seq<char>, ValueView)>,
)
    requires
        scopes.len() >= 1,
        assigned_all(entered(scopes, function), assignments) is Some,
    ensures
        assigned_all(entered(scopes, function), assignments)->0.len() == scopes.len() + 1,
        same_names(scopes, left(assigned_all(entered(scopes, function), assignments)->0)),
    decreases assignments.len(),
{
    let start = entered(scopes, function);
    if assignments.len() == 0 {
        assert(start.drop_last() =~= scopes);
    } else {
        let before = assigned_all(start, assignments.drop_last())->0;
        block_keeps_outer_names(scopes, function, assignments.drop_last());
        assignment_keeps_outer_names(before, assignments.last().0, assignments.last().1, false);
        let after = assigned_all(start, assignments)->0;
        assert(after.len() == before.len());
        assert forall|i: int| 0 <= i < scopes.len() implies (#[trigger] scopes[i]).map.dom() == (
        #[trigger] left(after)[i]).map.dom() by {
            assert(left(before)[i] == before.drop_last()[i]);
            assert(left(after)[i] == after.drop_last()[i]);
        }
    }
}

/// An assignment to a name of an outer scope, made inside a block, is
/// still there once the block has ended: it leaves the scopes as the same
/// assignment outside the block would.
pub proof fn outer_assignment_outlives_the_block(
    scopes: Seq<ScopeView>,
    function: bool,
    name: Seq<char>,
    value: ValueView,
)
    requires
        scopes.len() >= 1,
        lookup(scopes, name) is Some,
        assigned(entered(scopes, function), name, value, false) is Ok,
    ensures
        assigned(scopes, name, value, false) == Ok::<Seq<ScopeView>, EnvErrorView>(
            left(assigned(entered(scopes, function), name, value, false)->Ok_0),
        ),
        !(value is Empty) ==> lookup(
            left(assigned(entered(scopes, function), name, value, false)->Ok_0),
            name,
        ) == Some(value),
{
    let start = entered(scopes, function);
    assert(start.drop_last() =~= scopes);
    holder_is_innermost(scopes, name);
    let i = holder(scopes, name)->0;
    assert(holder(start, name) == Some(i));
    let inside = assigned(start, name, value, false)->Ok_0;
    assert(left(inside) =~= assigned(scopes, name, value, false)->Ok_0);
    let after = left(inside);
    holder_exists(after, name, i);
    holder_is_innermost(after, name);
    assert(holder(after, name) == Some(i)) by {
        let j = holder(after, name)->0;
        if j > i {
            assert(after[j] == scopes[j]);
        }
    }
}

/// After an assignment the name means the value that was assigned.
pub proof fn an_assignment_is_visible(scopes: Seq<ScopeView>, name: Seq<char>, value: ValueView)
    requires
        scopes.len() >= 1,
        !(value is Empty),
        assigned(scopes, name, value, false) is Ok,
    ensures
        lookup(assigned(scopes, name, value, false)->Ok_0, name) == Some(value),
{
    let after = assigned(scopes, name, value, false)->Ok_0;
    holder_is_innermost(scopes, name);
    let i = if holder(scopes, name) is Some {
        holder(scopes, name)->0
    } else {
        scopes.len() - 1
    };
    assert(after[i].map.dom().contains(name));
    holder_exists(after, name, i);
    holder_is_innermost(after, name);
    let j = holder(after, name)->0;
    if j > i {
        assert(after[j] == scopes[j]);
    }
}

/// Whether every name is bound to a value that has a type: no name is
/// bound to the untyped `empty`.
pub open spec fn typed(scopes: Seq<ScopeView>) -> bool {
    forall|i: int, name: Seq<char>|
        0 <= i < scopes.len() && (#[trigger] scopes[i].map.dom().contains(name)) ==> !(
        scopes[i].map[name] is Empty)
}

/// An assignment binds no name to the untyped `empty`, and leaves every
/// name that was bound before with the type it had.
pub proof fn assignment_keeps_types(
    scopes: Seq<ScopeView>,
    name: Seq<char>,
    value: ValueView,
    function_arg: bool,
)
    requires
        scopes.len() >= 1,
        typed(scopes),
        assigned(scopes, name, value, function_arg) is Ok,
    ensures
        typed(assigned(scopes, name, value, function_arg)->Ok_0),
        !function_arg && lookup(scopes, name) is Some ==> lookup(
            assigned(scopes, name, value, function_arg)->Ok_0,
            name,
        ) is Some && lookup(assigned(scopes, name, value, function_arg)->Ok_0, name)->0.get_type()
            == lookup(scopes, name)->0.get_type(),
{
    let after = assigned(scopes, name, value, function_arg)->Ok_0;
    holder_is_innermost(scopes, name);
    if !function_arg && holder(scopes, name) is Some {
        let i = holder(scopes, name)->0;
        assert(scopes[i].map.dom().contains(name));
        assert(same_names(scopes, after)) by {
            assert forall|j: int| 0 <= j < scopes.len() implies (#[trigger] scopes[j]).map.dom() == (
            #[trigger] after[j]).map.dom() by {
                if j == i {
                    assert(after[j].map.dom() =~= scopes[j].map.dom());
                }
            }
        }
        holder_by_names(scopes, after, name);
    }
    assert forall|j: int, other: Seq<char>|
        0 <= j < after.len() && (#[trigger] after[j].map.dom().contains(other)) implies !(
    after[j].map[other] is Empty) by {
        if scopes[j].map.dom().contains(other) {
            assert(!(scopes[j].map[other] is Empty));
        }
    }
}

/// The environment: the global scope, and above it the scopes of the
/// blocks and function calls that are being executed.
pub struct Environment<'a> {
    scopes: Vec<Scope<'a>>,
}

impl<'a> View for Environment<'a> {
    type V = Seq<ScopeView>;

    closed spec fn view(&self) -> Seq<ScopeView> {
        scopes_view(self.scopes@)
    }
}

impl<'a> Environment<'a> {
    /// The environment's invariant: there is a global scope.
    pub closed spec fn well_formed(&self) -> bool {
        self.scopes.len() >= 1
    }

    /// A well-formed environment has its global scope.
    pub proof fn has_global(&self)
        requires
            self.well_formed(),
        ensures
            self@.len() >= 1,
    {
    }

    /// An environment with an empty global scope.
    pub fn new() -> (r: Self)
        ensures
            r.well_formed(),
            r@ == seq![ScopeView { map: Map::empty(), function: false }],
    {
        let mut scopes: Vec<Scope<'a>> = Vec::new();
        scopes.push(Scope::new(false));
        let r = Environment { scopes };
        assert(r@ =~= seq![ScopeView { map: Map::empty(), function: false }]);
        r
    }

    /// How many scopes there are.
    pub fn depth(&self) -> (r: usize)
        ensures
            r == self@.len(),
    {
        self.scopes.len()
    }

    /// Puts a new, empty scope on top.
    pub fn enter_scope(&mut self, function_scope: bool)
        requires
            old(self).well_formed(),
        ensures
            final(self).well_formed(),
            final(self)@ == entered(old(self)@, function_scope),
    {
        let scope = Scope::new(function_scope);
        assert(scopes_view(self.scopes@.push(scope)) =~= entered(self@, function_scope));
        self.scopes.push(scope);
    }

    /// Takes the top scope off; the global scope stays.
    pub fn leave_scope(&mut self)
        requires
            old(self).well_formed(),
        ensures
            final(self).well_formed(),
            final(self)@ == left(old(self)@),
    {
        if self.scopes.len() > 1 {
            assert(scopes_view(self.scopes@.drop_last()) =~= self@.drop_last());
            self.scopes.pop();
        }
    }

    /// Whether the top scope belongs to a function call.
    pub fn top_is_function(&self) -> (r: bool)
        requires
            self.well_formed(),
        ensures
            r == self@.last().function,
    {
        self.scopes[self.scopes.len() - 1].is_function()
    }

    /// Whether some scope belongs to a function call.
    pub fn is_in_function(&self) -> (r: bool)
        requires
            self.well_formed(),
        ensures
            r == in_function(self@),
    {
        let mut i: usize = self.scopes.len();
        while i > 0
            invariant
                i <= self.scopes.len(),
                forall|j: int| i <= j < self.scopes.len() ==> !(#[trigger] self@[j]).function,
            decreases i,
        {
            i -= 1;
            if self.scopes[i].is_function() {
                assert(self@[i as int].function);
                return true;
            }
        }
        false
    }

    /// The innermost scope that binds `name`, with the value it binds it to, if one does.
    fn find(&self, name: &str) -> (r: Option<(usize, Value<'a>)>)
        requires
            self.well_formed(),
        ensures
            match r {
                Some((i, value)) => holder(self@, name@) == Some(i as int) && i < self.scopes.len()
                    && self@[i as int].map.dom().contains(name@) && self@[i as int].map[name@]
                    == value@,
                None => holder(self@, name@) is None,
            },
    {
        let mut i: usize = self.scopes.len();
        assert(self@.take(i as int) =~= self@);
        while i > 0
            invariant
                i <= self.scopes.len(),
                self.well_formed(),
                holder(self@, name@) == holder(self@.take(i as int), name@),
            decreases i,
        {
            i -= 1;
            assert(self@.take(i + 1).drop_last() =~= self@.take(i as int));
            if let Some(value) = self.scopes[i].get(name) {
                return Some((i, value));
            }
        }
        None
    }

    /// What `name` means: its value in the innermost scope that binds it.
    pub fn get(&self, name: &str) -> (r: Option<Value<'a>>)
        requires
            self.well_formed(),
        ensures
            match r {
                Some(value) => lookup(self@, name@) == Some(value@),
                None => lookup(self@, name@) is None,
            },
    {
        match self.find(name) {
            Some((_, value)) => Some(value),
            None => None,
        }
    }

    /// Binds `name` to `value` in scope `i`.
    fn bind(&mut self, i: usize, name: String, value: Value<'a>)
        requires
            old(self).well_formed(),
            i < old(self).scopes.len(),
        ensures
            final(self).well_formed(),
            final(self)@ == bound(old(self)@, i as int, name@, value@),
    {
        let ghost before = self@;
        let ghost name_view = name@;
        let ghost value_view = value@;
        let mut scope = self.scopes.remove(i);
        scope.insert(name, value);
        self.scopes.insert(i, scope);
        assert(self@ =~= bound(before, i as int, name_view, value_view));
    }

    /// Assigns `value` to `name`; see [`assigned`].
    pub fn define_or_assign(&mut self, name: String, value: Value<'a>, function_arg: bool) -> (r:
        Result<(), EnvError<'a>>)
        requires
            old(self).well_formed(),
        ensures
            final(self).well_formed(),
            match r {
                Ok(_) => assigned(old(self)@, name@, value@, function_arg) == Ok::<
                    Seq<ScopeView>,
                    EnvErrorView,
                >(final(self)@),
                Err(error) => assigned(old(self)@, name@, value@, function_arg) == Err::<
                    Seq<ScopeView>,
                    EnvErrorView,
                >(error@) && final(self)@ == old(self)@,
            },
    {
        // We don't want to check existing variables when assigning a function argument,
        // because a function argument is always a new variable in its scope.
        if !function_arg {
            if let Some((i, current)) = self.find(name.as_str()) {
                let typed = match value {
                    Value::Empty => current.as_empty(),
                    other => Some(other),
                };
                return match typed {
                    Some(typed) => {
                        if current.get_type() == typed.get_type() {
                            self.bind(i, name, typed);
                            Ok(())
                        } else {
                            Err(EnvError::InvalidType(current))
                        }
                    },
                    None => Err(EnvError::InvalidType(current)),
                };
            }
        }
        // Variable is not defined in any scope
        if let Value::Empty = value {
            return Err(EnvError::EmptyDeclarationNoType);
        }
        let top = self.scopes.len() - 1;
        self.bind(top, name, value);
        Ok(())
    }

    /// Binds `name` in the top scope to the function `native` of the host.
    pub fn define_native_function(&mut self, name: &str, args: Vec<String>, native: Native)
        requires
            old(self).well_formed(),
        ensures
            final(self).well_formed(),
            final(self)@ == bound(
                old(self)@,
                old(self)@.len() - 1,
                name@,
                ValueView::NativeFunction { name: name@, args: names_view(args@), body: native },
            ),
    {
        let value = Value::NativeFunction { name: name.to_string(), args, body: native };
        let top = self.scopes.len() - 1;
        self.bind(top, name.to_string(), value);
    }
}

} // verus!
