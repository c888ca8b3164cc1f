use vstd::prelude::*;

verus! {

/// How many times a greeting is repeated.
pub const MAX_RETRIES: u32 = 3;

pub struct Person {
    pub name: String,
    pub age: u32,
}

pub enum Status {
    Active,
    Inactive,
}

pub trait Greeter {
    fn greet(&self, name: &str) -> String;
}

/// The greeting `Hello, <name>! I'm <own>.`
pub open spec fn greeting(name: Seq<char>, own: Seq<char>) -> Seq<char> {
    "Hello, "@ + name + "! I'm "@ + own + "."@
}

impl Greeter for Person {
    fn greet(&self, name: &str) -> (r: String)
        ensures
            r@ == greeting(name@, self.name@),
    {
        let mut s = String::from_str("Hello, ");
        s.append(name);
        s.append("! I'm ");
        s.append(self.name.as_str());
        s.append(".");
        s
    }
}

impl Person {
    pub fn new(name: String, age: u32) -> (r: Person)
        ensures
            r.name == name,
            r.age == age,
    {
        Person { name, age }
    }
}

pub type PersonAlias = Person;

} // verus!
