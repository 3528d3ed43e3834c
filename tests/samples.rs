use rust_analyzer_mcp::sample::cli::{greet, Calculator as CliCalculator};
use rust_analyzer_mcp::sample::clean::{add, Calculator};
use rust_analyzer_mcp::sample::project::{process_value, run, validate, Config, Person};

#[test]
fn test_add() {
    assert_eq!(add(2, 3), 5);
}

#[test]
fn clean_test_calculator() {
    let mut calc = Calculator::new(10);
    calc.add(5);
    assert_eq!(calc.value(), 15);
    calc.multiply(2);
    assert_eq!(calc.value(), 30);
}

#[test]
fn test_greet() {
    assert_eq!(greet("Test"), "Hello, Test!");
}

#[test]
fn main_test_calculator() {
    let calc = CliCalculator::new();
    assert_eq!(calc.add(2, 3), 5);
    assert_eq!(calc.multiply(3, 4), 12);
}

#[test]
fn config_defaults_and_version() {
    let c = Config::new("demo".to_string());
    assert_eq!(c.version, 1);
    assert!(c.enabled);
    let c = c.with_version(7);
    assert_eq!(c.version, 7);
    assert_eq!(c.name, "demo");
    let d = Config::default();
    assert_eq!(d.name, "default");
}

#[test]
fn config_with_empty_name_is_rejected() {
    let c = Config::new(String::new());
    assert_eq!(validate(&c), Err("Name cannot be empty".to_string()));
    assert!(run(c).is_err());
    assert!(run(Config::new("x".to_string())).is_ok());
}

#[test]
fn person_birthday_and_values() {
    let mut p = Person::new("Ada".to_string(), 36);
    p.birthday();
    assert_eq!(p.get_name(), "Ada");
    assert_eq!(process_value(21), 42);
    assert_eq!(rust_analyzer_mcp::sample::project::add(-2, 5), 3);
}
