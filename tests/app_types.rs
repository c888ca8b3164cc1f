use defindex::config::{AppConfig, AppStatus, DEFAULT_PORT};
use defindex::helpers::format_name;
use defindex::person::{Greeter, Person, MAX_RETRIES};
use defindex::processor::AppProcessor;
use defindex::repository::{apply, double, Borrowed, Repository};

#[test]
fn config_defaults() {
    let c = AppConfig::new("localhost".to_string());
    assert_eq!(c.host, "localhost");
    assert_eq!(c.port, 8080);
    assert_eq!(DEFAULT_PORT, 8080);
    assert_eq!(c.log_level, "info");
    assert_eq!(c.validate(), Ok(()));
}

#[test]
fn config_validation_errors() {
    let c = AppConfig::new(String::new());
    assert_eq!(c.validate(), Err("host is required".to_string()));
    let mut d = AppConfig::new("h".to_string());
    d.port = 0;
    assert_eq!(d.validate(), Err("port must be positive".to_string()));
    let _ = AppStatus::Maintenance.clone();
}

#[test]
fn processor_and_person() {
    let p = AppProcessor::new("proc".to_string(), 4);
    assert_eq!(p.name, "proc");
    assert_eq!(p.workers, 4);
    let alice = Person::new("Alice".to_string(), 30);
    assert_eq!(alice.age, 30);
    assert_eq!(alice.greet("friend"), "Hello, friend! I'm Alice.");
    assert_eq!(MAX_RETRIES, 3);
}

#[test]
fn names_are_upper_cased() {
    assert_eq!(format_name("Alice"), "ALICE");
    assert_eq!(format_name(""), "");
}

#[test]
fn repository_saves_and_finds() {
    let mut repo: Repository<String> = Repository::new();
    assert_eq!(repo.find(1), None);
    repo.save(1, "Hello".to_string());
    repo.save(1, "World".to_string());
    assert_eq!(repo.find(1), Some(&"World".to_string()));
    assert_eq!(repo.find(2), None);
}

#[test]
fn borrowed_and_functions() {
    let b = Borrowed::new("text");
    assert_eq!(b.get(), "text");
    assert_eq!(apply(double, 21), 42);
    assert_eq!(double(-4), -8);
}
