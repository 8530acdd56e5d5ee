use pylite::common::ast::{Name, Stmt};
use pylite::common::py_error::PyError;
use pylite::environment::Environment;
use pylite::value::Value;

fn name(text: &str) -> Name {
    Name { name: text.to_string(), line: 2, column: 5 }
}

#[test]
fn inner_definition_shadows_the_outer_one() {
    let mut env = Environment::new();
    env.assign_var("x".to_string(), Value::Int(1));
    env.enter();
    assert_eq!(env.get_var(&name("x")), Ok(Value::Int(1)));
    env.assign_var("x".to_string(), Value::Int(2));
    assert_eq!(env.get_var(&name("x")), Ok(Value::Int(2)));
    env.leave();
    assert_eq!(env.get_var(&name("x")), Ok(Value::Int(1)));
}

#[test]
fn undefined_name_is_an_error_at_the_reference() {
    let env = Environment::new();
    assert_eq!(
        env.get_var(&name("y")),
        Err(PyError { msg: "NameError: name y is not defined".to_string(), line: 2, column: 5 })
    );
    assert_eq!(env.get_fun(&name("f")).unwrap_err().msg, "NameError: name f is not defined");
}

#[test]
fn the_outermost_scope_stays() {
    let mut env = Environment::new();
    env.assign_var("x".to_string(), Value::Int(1));
    env.leave();
    assert_eq!(env.enclosing(), 0);
    assert_eq!(env.get_var(&name("x")), Ok(Value::Int(1)));
    env.enter();
    env.enter();
    assert_eq!(env.enclosing(), 2);
}

#[test]
fn functions_and_variables_are_apart() {
    let f = name("f");
    let params = vec![name("a")];
    let body: Vec<Stmt> = Vec::new();
    let mut env = Environment::new();
    env.assign_fun(&f, &params, &body);
    assert!(env.get_var(&name("f")).is_err());
    let found = env.get_fun(&name("f")).unwrap();
    assert_eq!(found.arity(), 1);
    assert_eq!(found.name.name, "f");
    env.enter();
    assert_eq!(env.get_fun(&name("f")).unwrap().arity(), 1);
}
