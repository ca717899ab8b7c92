use vstd::hash_map::StringHashMap;
use vstd::prelude::*;

verus! {

/// A value that a layout file can bind to a name.
#[derive(Debug, Copy, Clone, PartialEq, Eq, Structural)]
pub enum Value {
    Number(u16),
    RGB(u8, u8, u8),
}

/// The variables of a layout file, keyed by name.
pub struct Env {
    values: StringHashMap<Value>,
}

impl View for Env {
    type V = Map<Seq<char>, Value>;

    closed spec fn view(&self) -> Map<Seq<char>, Value> {
        self.values@
    }
}

/// The bindings every environment starts with.
pub open spec fn initial_bindings() -> Map<Seq<char>, Value> {
    Map::<Seq<char>, Value>::empty().insert("border_color"@, Value::RGB(176, 176, 176))
}

impl Env {
    /// An environment holding the built-in variables: `border_color` is
    /// bound to `RGB(176, 176, 176)`.
    pub fn new() -> (env: Self)
        ensures
            env@ == initial_bindings(),
    {
        let mut vs = Env { values: StringHashMap::new() };
        vs.insert("border_color", Value::RGB(176, 176, 176));
        vs
    }

    /// Binds `name` to `value`, replacing any earlier binding of `name`.
    pub fn insert(&mut self, name: &str, value: Value)
        ensures
            final(self)@ == old(self)@.insert(name@, value),
    {
        self.values.insert(name.to_owned(), value);
    }

    /// The value bound to `k`, if any.
    pub fn get(&self, k: &str) -> (r: Option<&Value>)
        ensures
            match r {
                Some(v) => self@.contains_key(k@) && *v == self@[k@],
                None => !self@.contains_key(k@),
            },
    {
        self.values.get(k)
    }
}

/// Reading a name back gives the value last bound to it, and binding a name
/// leaves every other name as it was.
pub proof fn lemma_insert_then_get(env: Map<Seq<char>, Value>, name: Seq<char>, value: Value, other: Seq<char>)
    ensures
        env.insert(name, value).contains_key(name),
        env.insert(name, value)[name] == value,
        other != name ==> env.insert(name, value).contains_key(other) == env.contains_key(other),
        other != name && env.contains_key(other) ==> env.insert(name, value)[other] == env[other],
{
}

} // verus!
