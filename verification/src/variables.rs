//! Variable names, and the insertion-ordered bindings from names to text
//! that a task substitutes into its command.

use vstd::prelude::*;
use vstd::std_specs::cmp::PartialEqSpecImpl;

verus! {

/// The name of a task variable: one of the well-known names that the editor
/// fills in, or a name that a language's context provider chose.
#[derive(Debug)]
pub enum VariableName {
    /// One-based row of the cursor.
    Row,
    /// One-based column of the cursor.
    Column,
    /// The text under the selection; empty when nothing is selected.
    SelectedText,
    /// Absolute path of the file behind the buffer.
    File,
    /// Absolute path of the project root that owns that file.
    WorktreeRoot,
    /// The symbol that encloses the cursor.
    Symbol,
    /// A name supplied from outside the well-known set.
    Custom(String),
}

/// What a [`VariableName`] stands for in contracts.
pub enum VariableKey {
    Row,
    Column,
    SelectedText,
    File,
    WorktreeRoot,
    Symbol,
    Custom(Seq<char>),
}

impl View for VariableName {
    type V = VariableKey;

    open spec fn view(&self) -> VariableKey {
        match self {
            VariableName::Row => VariableKey::Row,
            VariableName::Column => VariableKey::Column,
            VariableName::SelectedText => VariableKey::SelectedText,
            VariableName::File => VariableKey::File,
            VariableName::WorktreeRoot => VariableKey::WorktreeRoot,
            VariableName::Symbol => VariableKey::Symbol,
            VariableName::Custom(name) => VariableKey::Custom(name@),
        }
    }
}

impl Clone for VariableName {
    fn clone(&self) -> (copy: Self)
        ensures
            copy@ == self@,
    {
        match self {
            VariableName::Row => VariableName::Row,
            VariableName::Column => VariableName::Column,
            VariableName::SelectedText => VariableName::SelectedText,
            VariableName::File => VariableName::File,
            VariableName::WorktreeRoot => VariableName::WorktreeRoot,
            VariableName::Symbol => VariableName::Symbol,
            VariableName::Custom(name) => VariableName::Custom(name.clone()),
        }
    }
}

impl PartialEq for VariableName {
    fn eq(&self, other: &Self) -> (same: bool) {
        match (self, other) {
            (VariableName::Row, VariableName::Row) => true,
            (VariableName::Column, VariableName::Column) => true,
            (VariableName::SelectedText, VariableName::SelectedText) => true,
            (VariableName::File, VariableName::File) => true,
            (VariableName::WorktreeRoot, VariableName::WorktreeRoot) => true,
            (VariableName::Symbol, VariableName::Symbol) => true,
            (VariableName::Custom(a), VariableName::Custom(b)) => *a == *b,
            _ => false,
        }
    }
}

impl PartialEqSpecImpl for VariableName {
    open spec fn obeys_eq_spec() -> bool {
        true
    }

    open spec fn eq_spec(&self, other: &Self) -> bool {
        self@ == other@
    }
}

impl Eq for VariableName {

}

/// Bindings in the order in which their names were first bound.
pub type Bindings = Seq<(VariableKey, Seq<char>)>;

/// Whether `key` is bound in `s`.
pub open spec fn has_key(s: Bindings, key: VariableKey) -> bool {
    exists|i: int| 0 <= i < s.len() && (#[trigger] s[i]).0 == key
}

/// A place at which `key` is bound in `s`; the only one when the keys of `s`
/// are distinct.
pub open spec fn key_index(s: Bindings, key: VariableKey) -> int {
    choose|i: int| 0 <= i < s.len() && (#[trigger] s[i]).0 == key
}

/// No name is bound twice.
pub open spec fn distinct_keys(s: Bindings) -> bool {
    forall|i: int, j: int| 0 <= i < j < s.len() ==> (#[trigger] s[i]).0 != (#[trigger] s[j]).0
}

/// The text bound to `key`, if any.
pub open spec fn lookup(s: Bindings, key: VariableKey) -> Option<Seq<char>> {
    if has_key(s, key) {
        Some(s[key_index(s, key)].1)
    } else {
        None
    }
}

/// `s` with `key` bound to `value`: a name that is already bound keeps its
/// place and takes the new text, a new name goes to the end.
pub open spec fn put(s: Bindings, key: VariableKey, value: Seq<char>) -> Bindings {
    if has_key(s, key) {
        s.update(key_index(s, key), (key, value))
    } else {
        s.push((key, value))
    }
}

/// `s` after every binding of `t` was put into it, first to last.
pub open spec fn put_all(s: Bindings, t: Bindings) -> Bindings
    decreases t.len(),
{
    if t.len() == 0 {
        s
    } else {
        put(put_all(s, t.drop_last()), t.last().0, t.last().1)
    }
}

/// The bindings that a list of pairs writes down, place by place.
pub open spec fn bindings_of(pairs: Seq<(VariableName, String)>) -> Bindings {
    pairs.map_values(|pair: (VariableName, String)| (pair.0@, pair.1@))
}

/// Two sets of bindings bind the same names to the same text, in whatever
/// order.
pub open spec fn same_bindings(a: Bindings, b: Bindings) -> bool {
    &&& a.len() == b.len()
    &&& forall|i: int| 0 <= i < a.len() ==> lookup(b, (#[trigger] a[i]).0) == Some(a[i].1)
}

/// With distinct keys a name is bound at one place only.
pub proof fn lemma_key_index(s: Bindings, i: int)
    requires
        distinct_keys(s),
        0 <= i < s.len(),
    ensures
        has_key(s, s[i].0),
        key_index(s, s[i].0) == i,
        lookup(s, s[i].0) == Some(s[i].1),
{
}

/// Putting a binding keeps the keys distinct, binds the name to the new text
/// and leaves every other name as it was; a name that was bound stays at its
/// place, and the place of no other name changes.
pub proof fn lemma_put(s: Bindings, key: VariableKey, value: Seq<char>)
    requires
        distinct_keys(s),
    ensures
        distinct_keys(put(s, key, value)),
        lookup(put(s, key, value), key) == Some(value),
        forall|other: VariableKey|
            other != key ==> lookup(#[trigger] put(s, key, value), other) == lookup(s, other),
        forall|other: VariableKey|
            other != key ==> (has_key(#[trigger] put(s, key, value), other) <==> has_key(s, other)),
        has_key(s, key) ==> put(s, key, value).len() == s.len(),
        !has_key(s, key) ==> put(s, key, value).len() == s.len() + 1,
        forall|i: int| 0 <= i < s.len() ==> (#[trigger] put(s, key, value)[i]).0 == s[i].0,
{
    let p = put(s, key, value);
    let at = if has_key(s, key) {
        key_index(s, key)
    } else {
        s.len() as int
    };
    assert(distinct_keys(p)) by {
        if has_key(s, key) {
            lemma_key_index(s, at);
        }
    }
    lemma_key_index(p, at);
    assert forall|other: VariableKey| other != key implies lookup(p, other) == lookup(s, other)
        && (has_key(p, other) <==> has_key(s, other)) by {
        if has_key(s, other) {
            let i = key_index(s, other);
            lemma_key_index(s, i);
            lemma_key_index(p, i);
        }
        if has_key(p, other) {
            let i = key_index(p, other);
            lemma_key_index(s, i);
            lemma_key_index(p, i);
        }
    }
}

/// One more binding of `t` taken in is one more `put`.
proof fn lemma_put_all_step(s: Bindings, t: Bindings, n: int)
    requires
        0 <= n < t.len(),
    ensures
        put_all(s, t.take(n + 1)) == put(put_all(s, t.take(n)), t[n].0, t[n].1),
{
    assert(t.take(n + 1).drop_last() =~= t.take(n));
}

/// Putting all of `t` into `s` keeps the keys distinct. A name that `t`
/// binds ends up with the text that `t` gives it, and every other name keeps
/// what it had in `s`: nothing of `t` is dropped, and nothing of `s` is lost
/// but what `t` overrides.
pub proof fn lemma_put_all(s: Bindings, t: Bindings)
    requires
        distinct_keys(s),
        distinct_keys(t),
    ensures
        distinct_keys(put_all(s, t)),
        forall|key: VariableKey|
            has_key(t, key) ==> lookup(#[trigger] put_all(s, t), key) == lookup(t, key),
        forall|key: VariableKey|
            !has_key(t, key) ==> lookup(#[trigger] put_all(s, t), key) == lookup(s, key),
        forall|i: int| 0 <= i < s.len() ==> (#[trigger] put_all(s, t)[i]).0 == s[i].0,
        put_all(s, t).len() >= s.len(),
    decreases t.len(),
{
    if t.len() > 0 {
        let front = t.drop_last();
        let last = t.last();
        assert(distinct_keys(front));
        lemma_put_all(s, front);
        lemma_put(put_all(s, front), last.0, last.1);
        lemma_key_index(t, t.len() - 1);
        assert forall|key: VariableKey| has_key(t, key) implies lookup(
            #[trigger] put_all(s, t),
            key,
        ) == lookup(t, key) by {
            if key != last.0 {
                let i = key_index(t, key);
                lemma_key_index(t, i);
                lemma_key_index(front, i);
            }
        }
    }
}

/// The names of bindings, in their order.
spec fn keys_of(s: Bindings) -> Seq<VariableKey> {
    s.map_values(|binding: (VariableKey, Seq<char>)| binding.0)
}

/// Bindings with distinct keys have as many names as places, and each name
/// is the name of a place.
proof fn lemma_keys_of(s: Bindings)
    requires
        distinct_keys(s),
    ensures
        keys_of(s).to_set().len() == s.len(),
        keys_of(s).to_set().finite(),
        forall|key: VariableKey| #[trigger] keys_of(s).to_set().contains(key) <==> has_key(s, key),
{
    assert(keys_of(s).no_duplicates());
    keys_of(s).unique_seq_to_set();
    assert forall|key: VariableKey| #[trigger]
        keys_of(s).to_set().contains(key) <==> has_key(s, key) by {
        if keys_of(s).to_set().contains(key) {
            let i = choose|i: int| 0 <= i < keys_of(s).len() && keys_of(s)[i] == key;
            assert(s[i].0 == key);
        }
        if has_key(s, key) {
            assert(keys_of(s)[key_index(s, key)] == key);
        }
    }
}

/// Between bindings with distinct keys, `same_bindings` is equality of what
/// every name is bound to.
pub proof fn lemma_same_bindings(a: Bindings, b: Bindings)
    requires
        distinct_keys(a),
        distinct_keys(b),
    ensures
        same_bindings(a, b) <==> (forall|key: VariableKey| lookup(a, key) == lookup(b, key)),
{
    lemma_keys_of(a);
    lemma_keys_of(b);
    let names_a = keys_of(a).to_set();
    let names_b = keys_of(b).to_set();
    if same_bindings(a, b) {
        // As many names on both sides, and each name of `a` is one of `b`:
        // the names are the same.
        assert(names_a.subset_of(names_b)) by {
            assert forall|key: VariableKey| names_a.contains(key) implies names_b.contains(key) by {
                let i = key_index(a, key);
                assert(lookup(b, a[i].0) is Some);
            }
        }
        vstd::set_lib::lemma_subset_equality(names_a, names_b);
        assert forall|key: VariableKey| lookup(a, key) == lookup(b, key) by {
            assert(names_a.contains(key) == names_b.contains(key));
            if has_key(a, key) {
                lemma_key_index(a, key_index(a, key));
            }
        }
    }
    if forall|key: VariableKey| lookup(a, key) == lookup(b, key) {
        assert(names_a =~= names_b) by {
            assert forall|key: VariableKey| names_a.contains(key) == names_b.contains(key) by {
                assert(lookup(a, key) == lookup(b, key));
            }
        }
        assert forall|i: int| 0 <= i < a.len() implies lookup(b, (#[trigger] a[i]).0) == Some(
            a[i].1,
        ) by {
            lemma_key_index(a, i);
        }
    }
}

/// Task variables: which text stands for which name, in the order in which
/// the names were first bound. No name is bound twice.
#[derive(Debug)]
pub struct TaskVariables {
    entries: Vec<(VariableName, String)>,
}

impl View for TaskVariables {
    type V = Bindings;

    closed spec fn view(&self) -> Bindings {
        bindings_of(self.entries@)
    }
}

impl TaskVariables {
    /// What holds of every value of the type: no name is bound twice.
    #[verifier::type_invariant]
    pub open spec fn well_formed(&self) -> bool {
        distinct_keys(self@)
    }

    /// No variables at all.
    pub fn new() -> (vars: Self)
        ensures
            vars@ == Seq::<(VariableKey, Seq<char>)>::empty(),
    {
        TaskVariables { entries: Vec::new() }
    }

    /// The number of names that are bound.
    pub fn len(&self) -> (n: usize)
        ensures
            n == self@.len(),
    {
        self.entries.len()
    }

    /// Whether no name is bound.
    pub fn is_empty(&self) -> (empty: bool)
        ensures
            empty == (self@.len() == 0),
    {
        self.entries.len() == 0
    }

    fn position(&self, name: &VariableName) -> (at: Option<usize>)
        ensures
            distinct_keys(self@),
            match at {
                Some(i) => i < self@.len() && has_key(self@, name@) && key_index(self@, name@) == i,
                None => !has_key(self@, name@),
            },
    {
        proof {
            use_type_invariant(self);
        }
        let mut i: usize = 0;
        while i < self.entries.len()
            invariant
                i <= self.entries.len(),
                distinct_keys(self@),
                forall|j: int| 0 <= j < i ==> (#[trigger] self@[j]).0 != name@,
            decreases self.entries.len() - i,
        {
            if self.entries[i].0 == *name {
                proof {
                    lemma_key_index(self@, i as int);
                }
                return Some(i);
            }
            i = i + 1;
        }
        None
    }

    /// The text bound to `name`, if it is bound.
    pub fn get(&self, name: &VariableName) -> (value: Option<&String>)
        ensures
            match value {
                Some(text) => lookup(self@, name@) == Some(text@),
                None => lookup(self@, name@) is None,
            },
    {
        match self.position(name) {
            Some(i) => Some(&self.entries[i].1),
            None => None,
        }
    }

    /// Binds `name` to `value` and hands back the text that `name` was bound
    /// to before. A name that was bound keeps its place.
    pub fn insert(&mut self, name: VariableName, value: String) -> (previous: Option<String>)
        ensures
            final(self)@ == put(old(self)@, name@, value@),
            match previous {
                Some(text) => lookup(old(self)@, name@) == Some(text@),
                None => lookup(old(self)@, name@) is None,
            },
    {
        proof {
            use_type_invariant(&*self);
            lemma_put(self@, name@, value@);
        }
        let at = self.position(&name);
        let mut entries: Vec<(VariableName, String)> = Vec::new();
        std::mem::swap(&mut entries, &mut self.entries);
        let previous = match at {
            Some(i) => {
                let previous = entries[i].1.clone();
                entries.set(i, (name, value));
                Some(previous)
            },
            None => {
                entries.push((name, value));
                None
            },
        };
        assert(bindings_of(entries@) =~= put(old(self)@, name@, value@));
        self.entries = entries;
        previous
    }

    /// Puts every binding of `other` into `self`, first to last: `other`
    /// overrides what `self` bound to the same name, and brings its new names
    /// in behind those of `self`.
    pub fn extend(&mut self, other: TaskVariables)
        ensures
            final(self)@ == put_all(old(self)@, other@),
    {
        let mut i: usize = 0;
        while i < other.entries.len()
            invariant
                i <= other.entries.len(),
                self@ == put_all(old(self)@, other@.take(i as int)),
            decreases other.entries.len() - i,
        {
            proof {
                lemma_put_all_step(old(self)@, other@, i as int);
            }
            let name = other.entries[i].0.clone();
            let value = other.entries[i].1.clone();
            self.insert(name, value);
            i = i + 1;
        }
        assert(other@.take(i as int) =~= other@);
    }

    /// The variables that binding the pairs one after the other gives: of
    /// two pairs with one name the later one counts.
    #[allow(clippy::should_implement_trait)]
    pub fn from_iter(pairs: Vec<(VariableName, String)>) -> (vars: Self)
        ensures
            vars@ == put_all(Seq::empty(), bindings_of(pairs@)),
    {
        let mut vars = TaskVariables::new();
        let mut i: usize = 0;
        while i < pairs.len()
            invariant
                i <= pairs.len(),
                vars@ == put_all(Seq::empty(), bindings_of(pairs@).take(i as int)),
            decreases pairs.len() - i,
        {
            proof {
                lemma_put_all_step(Seq::empty(), bindings_of(pairs@), i as int);
            }
            let name = pairs[i].0.clone();
            let value = pairs[i].1.clone();
            vars.insert(name, value);
            i = i + 1;
        }
        assert(bindings_of(pairs@).take(i as int) =~= bindings_of(pairs@));
        vars
    }

    /// The bindings as pairs, in the order in which the names were first
    /// bound.
    pub fn pairs(&self) -> (pairs: Vec<(VariableName, String)>)
        ensures
            bindings_of(pairs@) == self@,
    {
        let mut pairs: Vec<(VariableName, String)> = Vec::new();
        let mut i: usize = 0;
        while i < self.entries.len()
            invariant
                i <= self.entries.len(),
                pairs@.len() == i,
                bindings_of(pairs@) == self@.take(i as int),
            decreases self.entries.len() - i,
        {
            let name = self.entries[i].0.clone();
            let value = self.entries[i].1.clone();
            pairs.push((name, value));
            assert(bindings_of(pairs@) =~= self@.take(i + 1));
            i = i + 1;
        }
        pairs
    }
}

impl Clone for TaskVariables {
    fn clone(&self) -> (copy: Self)
        ensures
            copy@ == self@,
    {
        proof {
            use_type_invariant(self);
        }
        TaskVariables { entries: self.pairs() }
    }
}

impl Default for TaskVariables {
    fn default() -> (vars: Self)
        ensures
            vars@ == Seq::<(VariableKey, Seq<char>)>::empty(),
    {
        TaskVariables::new()
    }
}

impl PartialEq for TaskVariables {
    fn eq(&self, other: &Self) -> (same: bool) {
        if self.entries.len() != other.entries.len() {
            return false;
        }
        let mut i: usize = 0;
        while i < self.entries.len()
            invariant
                i <= self.entries.len(),
                self@.len() == other@.len(),
                forall|j: int|
                    0 <= j < i ==> lookup(other@, (#[trigger] self@[j]).0) == Some(self@[j].1),
            decreases self.entries.len() - i,
        {
            match other.get(&self.entries[i].0) {
                Some(text) => {
                    if !(*text == self.entries[i].1) {
                        return false;
                    }
                },
                None => {
                    assert(lookup(other@, self@[i as int].0) != Some(self@[i as int].1));
                    return false;
                },
            }
            i = i + 1;
        }
        true
    }
}

impl PartialEqSpecImpl for TaskVariables {
    open spec fn obeys_eq_spec() -> bool {
        true
    }

    open spec fn eq_spec(&self, other: &Self) -> bool {
        same_bindings(self@, other@)
    }
}

} // verus!
