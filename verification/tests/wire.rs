use minikv::core_logic;
use minikv::decode_line;
use minikv::parse_command;
use minikv::parse_i64;
use minikv::tokenize;
use minikv::Command;
use minikv::CoreState;
use minikv::RespData;

fn tokens(line: &str) -> Vec<String> {
    tokenize(line)
}

fn run(state: &mut CoreState, line: &str) -> RespData {
    core_logic(state, decode_line(line))
}

#[test]
fn tokenize_splits_on_whitespace_runs() {
    assert_eq!(tokenize("SET a hello"), vec!["SET", "a", "hello"]);
    assert_eq!(tokenize("  SET\t\ta  hello  "), vec!["SET", "a", "hello"]);
    assert_eq!(tokenize(""), Vec::<String>::new());
    assert_eq!(tokenize(" \t "), Vec::<String>::new());
    assert_eq!(tokenize("FLUSHALL"), vec!["FLUSHALL"]);
}

#[test]
fn parse_i64_accepts_plain_and_signed_decimals() {
    assert_eq!(parse_i64("0"), Some(0));
    assert_eq!(parse_i64("12"), Some(12));
    assert_eq!(parse_i64("007"), Some(7));
    assert_eq!(parse_i64("-5"), Some(-5));
    assert_eq!(parse_i64("9223372036854775807"), Some(i64::MAX));
    assert_eq!(parse_i64("-9223372036854775808"), Some(i64::MIN));
}

#[test]
fn parse_i64_rejects_anything_else() {
    assert_eq!(parse_i64(""), None);
    assert_eq!(parse_i64("-"), None);
    assert_eq!(parse_i64("+5"), None);
    assert_eq!(parse_i64("12a"), None);
    assert_eq!(parse_i64("1 2"), None);
    assert_eq!(parse_i64("9223372036854775808"), None);
    assert_eq!(parse_i64("-9223372036854775809"), None);
    assert_eq!(parse_i64("99999999999999999999999999"), None);
}

#[test]
fn parse_command_maps_the_wire_forms() {
    assert!(matches!(
        parse_command(&tokens("SET a hello")),
        Command::Put(k, RespData::SimpleStr(v)) if k == "a" && v == "hello"
    ));
    assert!(matches!(
        parse_command(&tokens("GET a")),
        Command::Get(k) if k == "a"
    ));
    assert!(matches!(parse_command(&tokens("FLUSHALL")), Command::FlushAll));
    assert!(matches!(
        parse_command(&tokens("INCR counter")),
        Command::Incr(k, None) if k == "counter"
    ));
    assert!(matches!(
        parse_command(&tokens("INCR counter 10")),
        Command::Incr(k, Some(10)) if k == "counter"
    ));
    assert!(matches!(
        parse_command(&tokens("DECR counter -3")),
        Command::Decr(k, Some(-3)) if k == "counter"
    ));
}

#[test]
fn parse_command_rejects_malformed_requests() {
    assert!(matches!(parse_command(&tokens("")), Command::Unknown));
    assert!(matches!(parse_command(&tokens("PING")), Command::Unknown));
    assert!(matches!(parse_command(&tokens("SET a")), Command::Unknown));
    assert!(matches!(parse_command(&tokens("SET a b c")), Command::Unknown));
    assert!(matches!(parse_command(&tokens("GET")), Command::Unknown));
    assert!(matches!(parse_command(&tokens("GET a b")), Command::Unknown));
    assert!(matches!(parse_command(&tokens("FLUSHALL now")), Command::Unknown));
    assert!(matches!(parse_command(&tokens("INCR")), Command::Unknown));
    assert!(matches!(parse_command(&tokens("INCR c ten")), Command::Unknown));
    assert!(matches!(
        parse_command(&tokens("INCR c 9223372036854775808")),
        Command::Unknown
    ));
    assert!(matches!(parse_command(&tokens("set a hello")), Command::Unknown));
}

#[test]
fn wire_set_then_get() {
    let mut state = CoreState::new();
    assert_eq!(run(&mut state, "SET a hello"), RespData::ok());
    assert_eq!(
        run(&mut state, "GET a"),
        RespData::SimpleStr("hello".into())
    );
}

#[test]
fn wire_get_missing() {
    let mut state = CoreState::new();
    assert_eq!(run(&mut state, "GET missing"), RespData::Error("(nil)".into()));
}

#[test]
fn wire_incr_counter() {
    let mut state = CoreState::new();
    assert_eq!(run(&mut state, "INCR counter"), RespData::Number(1));
    assert_eq!(run(&mut state, "INCR counter"), RespData::Number(2));
    assert_eq!(run(&mut state, "INCR counter 10"), RespData::Number(12));
}

#[test]
fn wire_decr_counter() {
    let mut state = CoreState::new();
    assert_eq!(run(&mut state, "DECR counter2"), RespData::Number(-1));
    assert_eq!(run(&mut state, "DECR counter2"), RespData::Number(-2));
    assert_eq!(run(&mut state, "DECR counter2 10"), RespData::Number(-12));
}

#[test]
fn wire_incr_of_text_is_nan() {
    let mut state = CoreState::new();
    assert_eq!(run(&mut state, "SET x v"), RespData::ok());
    assert_eq!(run(&mut state, "INCR x"), RespData::Error("NaN".into()));
    assert_eq!(run(&mut state, "GET x"), RespData::SimpleStr("v".into()));
}

#[test]
fn wire_flushall_empties_the_store() {
    let mut state = CoreState::new();
    run(&mut state, "SET a 1");
    run(&mut state, "SET b 2");
    assert_eq!(run(&mut state, "FLUSHALL"), RespData::ok());
    assert_eq!(state.len(), 0);
}

#[test]
fn wire_unknown_verb_is_reported() {
    let mut state = CoreState::new();
    assert_eq!(
        run(&mut state, "PING"),
        RespData::Error("Unknown core cmd".into())
    );
}
