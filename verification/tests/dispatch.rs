use minikv::core_logic;
use minikv::Command;
use minikv::CoreState;
use minikv::RespData;

#[test]
fn set_adds_a_new_key() {
    let mut state = CoreState::new();

    let response = core_logic(
        &mut state,
        Command::Put("a".into(), RespData::SimpleStr("hello".into())),
    );

    assert_eq!(response, RespData::ok());
    assert_eq!(state.len(), 1);
    assert_eq!(state.get("a"), Some(&RespData::SimpleStr("hello".into())));
}

#[test]
fn get_gets_a_key() {
    let mut state = CoreState::new();
    state.insert("a".into(), RespData::SimpleStr("hello".into()));

    let response = core_logic(&mut state, Command::Get("a".into()));

    assert_eq!(response, RespData::SimpleStr("hello".into()));
    assert_eq!(state.len(), 1);
    assert_eq!(state.get("a"), Some(&RespData::SimpleStr("hello".into())));
}

#[test]
fn get_returns_nil_when_key_is_not_found() {
    let mut state = CoreState::new();

    let response = core_logic(&mut state, Command::Get("a".into()));

    assert_eq!(response, RespData::Error("(nil)".into()));
    assert_eq!(state.len(), 0);
    assert_eq!(state.get("a"), None);
}

#[test]
fn set_overwrites_existing_value() {
    let mut state = CoreState::new();

    let key: String = "key-a".into();

    let response_a = core_logic(
        &mut state,
        Command::Put(key.clone(), RespData::SimpleStr("hello".into())),
    );

    let response_b = core_logic(
        &mut state,
        Command::Put(key.clone(), RespData::SimpleStr("goodbye".into())),
    );

    assert_eq!(response_a, RespData::ok());
    assert_eq!(response_b, RespData::ok());
    assert_eq!(state.len(), 1);
    assert_eq!(state.get(&key), Some(&RespData::SimpleStr("goodbye".into())));
}

#[test]
fn flushall_deletes_everything() {
    let mut state = CoreState::new();

    core_logic(
        &mut state,
        Command::Put("a".into(), RespData::SimpleStr("hello".into())),
    );
    core_logic(
        &mut state,
        Command::Put("b".into(), RespData::SimpleStr("goodbye".into())),
    );

    assert_eq!(state.len(), 2);
    assert_eq!(state.get("a"), Some(&RespData::SimpleStr("hello".into())));
    assert_eq!(state.get("b"), Some(&RespData::SimpleStr("goodbye".into())));

    core_logic(&mut state, Command::FlushAll);

    assert_eq!(state.len(), 0);
    assert_eq!(state.get("a"), None);
    assert_eq!(state.get("b"), None);
}

#[test]
fn incr() {
    let mut state = CoreState::new();

    // It creates a key when there isn't one
    let response = core_logic(&mut state, Command::Incr("a".into(), None));
    assert_eq!(state.get("a"), Some(&RespData::Number(1)));
    assert_eq!(response, RespData::Number(1));

    // It increments existing keys
    let response = core_logic(&mut state, Command::Incr("a".into(), None));
    assert_eq!(state.get("a"), Some(&RespData::Number(2)));
    assert_eq!(response, RespData::Number(2));

    // It increments by the given amount
    let response = core_logic(&mut state, Command::Incr("a".into(), Some(10)));
    assert_eq!(state.get("a"), Some(&RespData::Number(12)));
    assert_eq!(response, RespData::Number(12));
}

#[test]
fn decr() {
    let mut state = CoreState::new();

    // It creates a key when there isn't one
    let response = core_logic(&mut state, Command::Decr("a".into(), None));
    assert_eq!(state.get("a"), Some(&RespData::Number(-1)));
    assert_eq!(response, RespData::Number(-1));

    // It decrements existing keys
    let response = core_logic(&mut state, Command::Decr("a".into(), None));
    assert_eq!(state.get("a"), Some(&RespData::Number(-2)));
    assert_eq!(response, RespData::Number(-2));

    // It decrements by the given amount
    let response = core_logic(&mut state, Command::Decr("a".into(), Some(10)));
    assert_eq!(state.get("a"), Some(&RespData::Number(-12)));
    assert_eq!(response, RespData::Number(-12));
}
