use launchkit::errors::LaunchError;
use launchkit::schema::Output;
use launchkit::state::State;
use launchkit::strmap::StrMap;
use launchkit::subst::{parse, SubstBlock, Substitution};

fn plain_state() -> State {
    let mut st = State::new(StrMap::new(), StrMap::new(), "run1".to_string());
    st.push_wd("/work".to_string());
    st.push_scope();
    st
}

fn state_with_env(pairs: &[(&str, &str)]) -> State {
    let mut env = StrMap::new();
    for (k, v) in pairs {
        env.insert(k.to_string(), v.to_string());
    }
    let mut st = State::new(env, StrMap::new(), "run1".to_string());
    st.push_wd("/work".to_string());
    st.push_scope();
    st
}

#[test]
fn parse_literal_text() {
    let blocks = parse("hello world").unwrap();
    assert_eq!(blocks, vec![SubstBlock::Text("hello world".to_string())]);
}

#[test]
fn parse_escaped_marker() {
    let blocks = parse("a$$b").unwrap();
    assert_eq!(blocks, vec![SubstBlock::Text("a$b".to_string())]);
}

#[test]
fn parse_lone_dollar_is_text() {
    let blocks = parse("cost: 5$").unwrap();
    assert_eq!(blocks, vec![SubstBlock::Text("cost: 5$".to_string())]);
}

#[test]
fn parse_env_call() {
    let blocks = parse("$(env FOO)").unwrap();
    assert_eq!(
        blocks,
        vec![SubstBlock::Substitution(Substitution::Env { variable: "FOO".to_string() })]
    );
}

#[test]
fn parse_mixed_text_and_calls() {
    let blocks = parse("pre $(arg x) post").unwrap();
    assert_eq!(
        blocks,
        vec![
            SubstBlock::Text("pre ".to_string()),
            SubstBlock::Substitution(Substitution::Arg { name: "x".to_string() }),
            SubstBlock::Text(" post".to_string()),
        ]
    );
}

#[test]
fn parse_quoted_argument() {
    let blocks = parse("$(greet \"a b\" c)").unwrap();
    assert_eq!(
        blocks,
        vec![SubstBlock::Substitution(Substitution::Other {
            command: "greet".to_string(),
            args: vec!["a b".to_string(), "c".to_string()],
        })]
    );
}

#[test]
fn parse_optenv_arities() {
    let one = parse("$(optenv FOO)").unwrap();
    assert_eq!(
        one,
        vec![SubstBlock::Substitution(Substitution::OptEnv {
            variable: "FOO".to_string(),
            default_value: None,
        })]
    );
    let two = parse("$(optenv FOO fallback)").unwrap();
    assert_eq!(
        two,
        vec![SubstBlock::Substitution(Substitution::OptEnv {
            variable: "FOO".to_string(),
            default_value: Some("fallback".to_string()),
        })]
    );
    assert!(matches!(parse("$(optenv A B C)"), Err(LaunchError::Syntax { .. })));
}

#[test]
fn parse_eval_takes_remainder() {
    let blocks = parse("$(eval 1 + 2)").unwrap();
    assert_eq!(
        blocks,
        vec![SubstBlock::Substitution(Substitution::Eval { expr: "1 + 2".to_string() })]
    );
}

#[test]
fn parse_arity_error_positions() {
    assert!(matches!(parse("$(env)"), Err(LaunchError::Syntax { .. })));
    assert!(matches!(parse("$(dirname extra)"), Err(LaunchError::Syntax { .. })));
    assert!(matches!(parse("$(find a b)"), Err(LaunchError::Syntax { .. })));
}

#[test]
fn parse_unterminated_call() {
    assert!(matches!(parse("$(env FOO"), Err(LaunchError::Syntax { .. })));
    assert!(matches!(parse("$(greet \"unclosed)"), Err(LaunchError::Syntax { .. })));
}

#[test]
fn parse_is_deterministic() {
    let input = "x $(env A) $$ $(eval 1 + 1) y";
    assert_eq!(parse(input), parse(input));
    let bad = "$(env)";
    assert_eq!(parse(bad), parse(bad));
}

#[test]
fn eval_concatenates_blocks() {
    let st = state_with_env(&[("FOO", "bar")]);
    assert_eq!(st.eval("a $(env FOO) c").unwrap(), "a bar c".to_string());
}

#[test]
fn env_lookup_and_failure() {
    let st = state_with_env(&[("FOO", "bar")]);
    assert_eq!(st.eval("$(env FOO)").unwrap(), "bar".to_string());
    let empty = plain_state();
    assert_eq!(
        empty.eval("$(env FOO)"),
        Err(LaunchError::UnsetEnvironmentVariable { name: "FOO".to_string() })
    );
    assert_eq!(empty.eval("$(optenv FOO baz)").unwrap(), "baz".to_string());
    assert_eq!(
        empty.eval("$(optenv FOO)"),
        Err(LaunchError::UnsetEnvironmentVariable { name: "FOO".to_string() })
    );
}

#[test]
fn arg_lookup_and_failure() {
    let mut st = plain_state();
    st.insert_var("x".to_string(), "1".to_string());
    assert_eq!(st.eval("$(arg x)").unwrap(), "1".to_string());
    assert_eq!(
        st.eval("$(arg y)"),
        Err(LaunchError::UndeclaredVariable { name: "y".to_string() })
    );
}

#[test]
fn find_package_lookup() {
    let mut packages = StrMap::new();
    packages.insert("demo".to_string(), "/opt/pkgs/demo".to_string());
    let mut st = State::new(StrMap::new(), packages, "r".to_string());
    st.push_wd("/work".to_string());
    st.push_scope();
    assert_eq!(st.eval("$(find demo)").unwrap(), "/opt/pkgs/demo".to_string());
    assert_eq!(
        st.eval("$(find nope)"),
        Err(LaunchError::PackageNotFound { name: "nope".to_string() })
    );
}

#[test]
fn anon_is_stable_within_a_run() {
    let st = plain_state();
    let a1 = st.eval("$(anon camera)").unwrap();
    let a2 = st.eval("$(anon camera)").unwrap();
    assert_eq!(a1, a2);
    assert_eq!(a1, "camera_run1".to_string());
    assert_ne!(st.eval("$(anon lidar)").unwrap(), a1);
    let other = State::new(StrMap::new(), StrMap::new(), "run2".to_string());
    let mut other = other;
    other.push_wd("/work".to_string());
    other.push_scope();
    assert_ne!(other.eval("$(anon camera)").unwrap(), a1);
}

#[test]
fn dirname_is_current_document_directory() {
    let st = plain_state();
    assert_eq!(st.eval("$(dirname)/file").unwrap(), "/work/file".to_string());
}

#[test]
fn unknown_command_fails_evaluation() {
    let st = plain_state();
    assert_eq!(
        st.eval("$(frobnicate a b)"),
        Err(LaunchError::UnknownSubstitutionCommand {
            command: "frobnicate".to_string(),
            args: vec!["a".to_string(), "b".to_string()],
        })
    );
}

#[test]
fn eval_expression_arithmetic() {
    let st = plain_state();
    assert_eq!(st.eval("$(eval 1 + 2)").unwrap(), "3".to_string());
    assert_eq!(st.eval("$(eval 2 * 3 - 1)").unwrap(), "5".to_string());
    assert_eq!(st.eval("$(eval 0 - 7)").unwrap(), "-7".to_string());
    assert_eq!(st.eval("$(eval 42)").unwrap(), "42".to_string());
}

#[test]
fn eval_expression_comparisons_and_booleans() {
    let st = plain_state();
    assert_eq!(st.eval("$(eval 1 < 2)").unwrap(), "true".to_string());
    assert_eq!(st.eval("$(eval 2 <= 1)").unwrap(), "false".to_string());
    assert_eq!(st.eval("$(eval 3 == 3)").unwrap(), "true".to_string());
    assert_eq!(st.eval("$(eval true && false)").unwrap(), "false".to_string());
    assert_eq!(st.eval("$(eval false || true)").unwrap(), "true".to_string());
}

#[test]
fn eval_expression_strings() {
    let st = plain_state();
    assert_eq!(st.eval("$(eval abc == abc)").unwrap(), "true".to_string());
    assert_eq!(st.eval("$(eval abc == abd)").unwrap(), "false".to_string());
    assert_eq!(st.eval("$(eval abc != abd)").unwrap(), "true".to_string());
    assert_eq!(st.eval("$(eval abc)").unwrap(), "abc".to_string());
}

#[test]
fn eval_expression_failures() {
    let st = plain_state();
    assert_eq!(
        st.eval("$(eval )"),
        Err(LaunchError::InvalidExpression { expr: "".to_string() })
    );
    assert_eq!(
        st.eval("$(eval 1 +)"),
        Err(LaunchError::InvalidExpression { expr: "1 +".to_string() })
    );
    assert_eq!(
        st.eval("$(eval true + 1)"),
        Err(LaunchError::InvalidExpression { expr: "true + 1".to_string() })
    );
}

#[test]
fn eval_bool_literals() {
    let st = plain_state();
    assert_eq!(st.eval_bool("true"), Ok(true));
    assert_eq!(st.eval_bool("false"), Ok(false));
    assert_eq!(
        st.eval_bool("yes"),
        Err(LaunchError::InvalidBooleanLiteral { text: "yes".to_string() })
    );
}

#[test]
fn eval_if_unless_combinations() {
    let st = plain_state();
    let t = "true".to_string();
    let f = "false".to_string();
    assert_eq!(st.eval_if_unless(None, None), Ok(true));
    assert_eq!(st.eval_if_unless(Some(&t), None), Ok(true));
    assert_eq!(st.eval_if_unless(Some(&f), None), Ok(false));
    assert_eq!(st.eval_if_unless(None, Some(&t)), Ok(false));
    assert_eq!(st.eval_if_unless(Some(&t), Some(&t)), Ok(false));
}

#[test]
fn output_from_text() {
    assert_eq!(Output::from_str("log"), Ok(Output::Log));
    assert_eq!(Output::from_str("screen"), Ok(Output::Screen));
    assert_eq!(
        Output::from_str("both"),
        Err(LaunchError::SchemaError { text: "both".to_string() })
    );
    assert_eq!(Output::Log.to_text(), "log");
    assert_eq!(Output::Screen.to_text(), "screen");
}
