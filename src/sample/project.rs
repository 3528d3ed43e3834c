//! A small library: a configuration, its check, and a few plain functions.
use vstd::prelude::*;

verus! {

/// The settings of a run.
#[derive(Debug, Clone)]
pub struct Config {
    pub name: String,
    pub version: u32,
    pub enabled: bool,
}

impl Config {
    /// A configuration named `name`: version 1, enabled.
    pub fn new(name: String) -> (r: Self)
        ensures
            r.name@ == name@,
            r.version == 1,
            r.enabled,
    {
        Config { name, version: 1, enabled: true }
    }

    /// The same configuration at another version.
    pub fn with_version(self, version: u32) -> (r: Self)
        ensures
            r.name@ == self.name@,
            r.version == version,
            r.enabled == self.enabled,
    {
        let mut c = self;
        c.version = version;
        c
    }
}

impl Default for Config {
    fn default() -> (r: Self)
        ensures
            r.name@ == "default"@,
            r.version == 1,
            r.enabled,
    {
        Config::new("default".to_string())
    }
}

/// Checks a configuration: its name must not be empty.
pub fn validate(config: &Config) -> (r: Result<(), String>)
    ensures
        r is Err <==> config.name@.len() == 0,
        r matches Err(m) ==> m@ == "Name cannot be empty"@,
{
    if config.name.as_str().unicode_len() == 0 {
        return Err("Name cannot be empty".to_string());
    }
    Ok(())
}

/// Runs the library on a configuration; fails where the configuration is invalid.
pub fn run(config: Config) -> (r: Result<(), String>)
    ensures
        r is Err <==> config.name@.len() == 0,
        r matches Err(m) ==> m@ == "Name cannot be empty"@,
{
    validate(&config)
}

/// A person with a name and an age.
pub struct Person {
    name: String,
    age: u32,
}

impl Person {
    pub closed spec fn name_spec(&self) -> Seq<char> {
        self.name@
    }

    pub closed spec fn age_spec(&self) -> u32 {
        self.age
    }

    pub fn new(name: String, age: u32) -> (r: Self)
        ensures
            r.name_spec() == name@,
            r.age_spec() == age,
    {
        Person { name, age }
    }

    pub fn get_name(&mut self) -> (r: &str)
        ensures
            r@ == old(self).name_spec(),
            final(self).name_spec() == old(self).name_spec(),
            final(self).age_spec() == old(self).age_spec(),
    {
        self.name.as_str()
    }

    /// One year older.
    pub fn birthday(&mut self)
        requires
            old(self).age_spec() < u32::MAX,
        ensures
            final(self).age_spec() == old(self).age_spec() + 1,
            final(self).name_spec() == old(self).name_spec(),
    {
        self.age = self.age + 1;
    }
}

pub fn add(a: i32, b: i32) -> (r: i32)
    requires
        i32::MIN <= a + b <= i32::MAX,
    ensures
        r == a + b,
{
    a + b
}

/// Twice the value.
pub fn process_value(value: i32) -> (r: i32)
    requires
        i32::MIN <= value * 2 <= i32::MAX,
    ensures
        r == value * 2,
{
    value * 2
}

} // verus!
