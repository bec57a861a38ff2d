use concordium_std::ParseError;
use my_contract::{
    init, receive, view, view_free, view_owner, view_payer, AccountAddress, Accuracy, Address, Amount,
    ContractAddress, Error, InitSchema, RecvSchema, State, ViewFree,
};

const OWNER: AccountAddress = AccountAddress([1u8; 32]);
const STRANGER: AccountAddress = AccountAddress([2u8; 32]);

fn owner() -> Address {
    Address::Account(OWNER)
}

fn stranger() -> Address {
    Address::Account(STRANGER)
}

fn names(model: &str, dataset: &str) -> Result<InitSchema, ParseError> {
    Ok(InitSchema { model: model.to_string(), dataset: dataset.to_string() })
}

fn update(amount: u64, avg_acc: &str, json_value: &str) -> Result<RecvSchema, ParseError> {
    Ok(RecvSchema {
        amount: Amount { micro_ccd: amount },
        avg_acc: avg_acc.to_string(),
        json_value: json_value.to_string(),
    })
}

fn fresh() -> State {
    init(names("resnet50", "imagenet")).expect("a parameter that decoded")
}

fn record(avg_acc: &str, ver_cnt: u8) -> State {
    State::from_parts(
        "resnet50".to_string(),
        "imagenet".to_string(),
        Amount { micro_ccd: 3 },
        Accuracy::parse(avg_acc).unwrap(),
        ver_cnt,
        "[1,2]".to_string(),
    )
}

#[test]
fn test_init() {
    let state_result = init(names("m", "d"));
    assert!(state_result.is_ok(), "Contract initialization results in error");
}

#[test]
fn test_throw_no_error() {
    let mut state = fresh();
    let result = receive(&mut state, OWNER, owner(), update(0, "0", "null"), Ok(false));
    assert!(result.is_ok(), "Results in rejection");
}

#[test]
fn test_throw_error() {
    let mut state = fresh();
    let error = receive(&mut state, OWNER, owner(), update(0, "0", "null"), Ok(true));
    assert_eq!(error, Err(Error::ParseParamsError), "Function should throw an error.");
}

#[test]
fn init_gives_the_initial_record() {
    let state = fresh();
    assert_eq!(state.model(), "resnet50");
    assert_eq!(state.dataset(), "imagenet");
    assert_eq!(state.amount(), Amount { micro_ccd: 0 });
    assert_eq!(state.avg_acc().text(), "0");
    assert_eq!(state.ver_cnt(), 0);
    assert_eq!(state.json_value(), "null");
}

#[test]
fn init_keeps_the_names_verbatim() {
    for (model, dataset) in [("", ""), (" ResNet-50 ", "ImageNet\n1k"), ("模型", "données"), ("a\0b", "null")] {
        let state = init(names(model, dataset)).unwrap();
        assert_eq!(state.model(), model);
        assert_eq!(state.dataset(), dataset);
        assert_eq!(state.ver_cnt(), 0);
        assert_eq!(state.avg_acc().text(), "0");
        assert_eq!(state.json_value(), "null");
    }
}

#[test]
fn init_twice_gives_the_same_record() {
    assert_eq!(init(names("m", "d")).unwrap(), init(names("m", "d")).unwrap());
}

#[test]
fn init_needs_no_owner_and_fails_only_on_a_parameter_that_did_not_decode() {
    assert_eq!(init(Err(ParseError {})), Err(Error::ParseParamsError));
}

#[test]
fn initial_json_value_is_the_json_null() {
    let state = fresh();
    assert_eq!(state.json_value(), serde_json::Value::Null.to_string());
    let parsed: serde_json::Value = serde_json::from_str(state.json_value()).unwrap();
    assert!(parsed.is_null());
}

#[test]
fn initial_accuracy_is_zero_as_a_float_prints_it() {
    assert_eq!(fresh().avg_acc().text(), (0.0f64).to_string());
}

#[test]
fn scenario_of_a_deployment() {
    let mut state = init(names("resnet50", "imagenet")).unwrap();
    assert_eq!(
        state,
        State::from_parts(
            "resnet50".to_string(),
            "imagenet".to_string(),
            Amount { micro_ccd: 0 },
            Accuracy::parse("0").unwrap(),
            0,
            "null".to_string(),
        )
    );

    let first = receive(&mut state, OWNER, owner(), update(0, "0.92", "{\"f1\":0.9}"), Ok(false));
    assert_eq!(first, Ok(()));
    assert_eq!(state.avg_acc().text(), "0.92");
    assert_eq!(state.ver_cnt(), 1);
    assert_eq!(state.json_value(), "{\"f1\":0.9}");
    assert_eq!(state.model(), "resnet50");
    assert_eq!(state.dataset(), "imagenet");

    let before = state.clone();
    let second = receive(&mut state, OWNER, owner(), update(0, "0.80", "{}"), Ok(false));
    assert_eq!(second, Err(Error::AccuracyRegression));
    assert_eq!(state, before);

    let third = receive(&mut state, OWNER, stranger(), update(9, "0.99", "{\"f1\":1}"), Ok(false));
    assert_eq!(third, Err(Error::AccessDenied));
    assert_eq!(state, before);
}

#[test]
fn accepted_update_replaces_three_fields_and_counts_one_version() {
    let mut state = record("0.5", 41);
    let result = receive(&mut state, OWNER, owner(), update(1_000_000, "0.75", "{\"k\":[1,2]}"), Ok(false));
    assert_eq!(result, Ok(()));
    assert_eq!(state.model(), "resnet50");
    assert_eq!(state.dataset(), "imagenet");
    assert_eq!(state.amount(), Amount { micro_ccd: 1_000_000 });
    assert_eq!(state.avg_acc().text(), "0.75");
    assert_eq!(state.ver_cnt(), 42);
    assert_eq!(state.json_value(), "{\"k\":[1,2]}");
}

#[test]
fn accuracy_is_stored_as_it_was_written() {
    let mut state = record("0.5", 0);
    assert_eq!(receive(&mut state, OWNER, owner(), update(0, "00.500", ""), Ok(false)), Ok(()));
    assert_eq!(state.avg_acc().text(), "00.500");
    assert_eq!(state.json_value(), "");
}

#[test]
fn json_value_is_taken_as_it_is() {
    let mut state = fresh();
    assert_eq!(receive(&mut state, OWNER, owner(), update(0, "1", "not json at all"), Ok(false)), Ok(()));
    assert_eq!(state.json_value(), "not json at all");
}

#[test]
fn n_accepted_updates_count_n_versions() {
    let mut state = fresh();
    for n in 1..=20u8 {
        let avg = format!("0.{n:02}");
        assert_eq!(receive(&mut state, OWNER, owner(), update(n as u64, &avg, "{}"), Ok(false)), Ok(()));
        assert_eq!(state.ver_cnt(), n);
        assert_eq!(state.avg_acc().text(), avg);
    }
}

#[test]
fn rejected_updates_do_not_count() {
    let mut state = fresh();
    let mut accepted = 0u8;
    let scores = ["0.5", "0.4", "0.5", "x", "0.6", "0.59", "0.60", "0.7"];
    for (i, avg) in scores.iter().enumerate() {
        let sender = if i == 7 { stranger() } else { owner() };
        let before = state.ver_cnt();
        let result = receive(&mut state, OWNER, sender, update(0, avg, "{}"), Ok(false));
        if result.is_ok() {
            accepted += 1;
            assert_eq!(state.ver_cnt(), before + 1);
        } else {
            assert_eq!(state.ver_cnt(), before);
        }
    }
    assert_eq!(accepted, 4);
    assert_eq!(state.ver_cnt(), 4);
    assert_eq!(state.avg_acc().text(), "0.60");
}

#[test]
fn equal_accuracy_is_accepted() {
    let mut state = record("0.92", 1);
    assert_eq!(receive(&mut state, OWNER, owner(), update(0, "0.92", "{}"), Ok(false)), Ok(()));
    assert_eq!(receive(&mut state, OWNER, owner(), update(0, "0.920", "{}"), Ok(false)), Ok(()));
    assert_eq!(state.ver_cnt(), 3);
}

#[test]
fn lower_accuracy_is_rejected_and_changes_nothing() {
    for (current, proposed) in [("0.92", "0.80"), ("0.92", "0.919999"), ("1", "0.99999999999999999999"), ("0.1", "0")] {
        let mut state = record(current, 5);
        let before = state.clone();
        let result = receive(&mut state, OWNER, owner(), update(77, proposed, "{\"new\":true}"), Ok(false));
        assert_eq!(result, Err(Error::AccuracyRegression), "{proposed} after {current}");
        assert_eq!(state, before);
    }
}

#[test]
fn accuracy_that_is_no_decimal_is_a_parameter_error() {
    for proposed in ["", "high", "-0.5", "1e-1", "0.9.2", "NaN", "92%"] {
        let mut state = record("0.5", 5);
        let before = state.clone();
        let result = receive(&mut state, OWNER, owner(), update(0, proposed, "{}"), Ok(false));
        assert_eq!(result, Err(Error::ParseParamsError), "{proposed:?}");
        assert_eq!(state, before);
    }
}

#[test]
fn parameter_that_did_not_decode_is_a_parameter_error() {
    let mut state = record("0.5", 5);
    let before = state.clone();
    assert_eq!(
        receive(&mut state, OWNER, owner(), Err(ParseError {}), Ok(false)),
        Err(Error::ParseParamsError)
    );
    assert_eq!(
        receive(&mut state, OWNER, owner(), update(0, "0.6", "{}"), Err(ParseError {})),
        Err(Error::ParseParamsError)
    );
    assert_eq!(state, before);
}

#[test]
fn stranger_is_denied_whatever_comes_with_the_call() {
    let mut state = record("0.5", 5);
    let before = state.clone();
    let contract = Address::Contract(ContractAddress { index: 1, subindex: 0 });
    for sender in [stranger(), contract] {
        assert_eq!(
            receive(&mut state, OWNER, sender, update(1, "0.9", "{}"), Ok(false)),
            Err(Error::AccessDenied)
        );
        assert_eq!(
            receive(&mut state, OWNER, sender, update(1, "0.1", "{}"), Ok(true)),
            Err(Error::AccessDenied)
        );
        assert_eq!(
            receive(&mut state, OWNER, sender, Err(ParseError {}), Err(ParseError {})),
            Err(Error::AccessDenied)
        );
        assert_eq!(view_owner(&state, OWNER, sender), Err(Error::AccessDenied));
    }
    assert_eq!(state, before);
}

#[test]
fn decoding_is_checked_before_the_accuracy() {
    let mut state = record("0.5", 5);
    assert_eq!(
        receive(&mut state, OWNER, owner(), update(0, "0.1", "{}"), Err(ParseError {})),
        Err(Error::ParseParamsError)
    );
}

#[test]
fn accuracy_is_checked_before_the_failure_flag() {
    let mut state = record("0.5", 5);
    assert_eq!(
        receive(&mut state, OWNER, owner(), update(0, "0.1", "{}"), Ok(true)),
        Err(Error::AccuracyRegression)
    );
}

#[test]
fn failure_asked_for_is_a_parameter_error_and_changes_nothing() {
    let mut state = record("0.5", 5);
    let before = state.clone();
    let result = receive(&mut state, OWNER, owner(), update(8, "0.9", "{\"a\":1}"), Ok(true));
    assert_eq!(result, Err(Error::ParseParamsError));
    assert_eq!(state, before);
    // the failure flag wins over a counter that is full
    let mut full = record("0.5", 255);
    assert_eq!(
        receive(&mut full, OWNER, owner(), update(8, "0.9", "{}"), Ok(true)),
        Err(Error::ParseParamsError)
    );
}

#[test]
fn full_counter_rejects_the_update() {
    let mut state = record("0.5", 254);
    assert_eq!(receive(&mut state, OWNER, owner(), update(0, "0.6", "{}"), Ok(false)), Ok(()));
    assert_eq!(state.ver_cnt(), 255);
    let before = state.clone();
    assert_eq!(
        receive(&mut state, OWNER, owner(), update(0, "0.7", "{}"), Ok(false)),
        Err(Error::VersionOverflow)
    );
    assert_eq!(state, before);
}

#[test]
fn every_rejection_leaves_every_field() {
    let rejected: [(Address, Result<RecvSchema, ParseError>, Result<bool, ParseError>, Error); 6] = [
        (stranger(), update(1, "0.9", "x"), Ok(false), Error::AccessDenied),
        (owner(), Err(ParseError {}), Ok(false), Error::ParseParamsError),
        (owner(), update(1, "0.9", "x"), Err(ParseError {}), Error::ParseParamsError),
        (owner(), update(1, "0,9", "x"), Ok(false), Error::ParseParamsError),
        (owner(), update(1, "0.4", "x"), Ok(false), Error::AccuracyRegression),
        (owner(), update(1, "0.9", "x"), Ok(true), Error::ParseParamsError),
    ];
    for (sender, param, flag, error) in rejected {
        let mut state = record("0.5", 5);
        assert_eq!(receive(&mut state, OWNER, sender, param, flag), Err(error));
        assert_eq!(state.model(), "resnet50");
        assert_eq!(state.dataset(), "imagenet");
        assert_eq!(state.amount(), Amount { micro_ccd: 3 });
        assert_eq!(state.avg_acc().text(), "0.5");
        assert_eq!(state.ver_cnt(), 5);
        assert_eq!(state.json_value(), "[1,2]");
    }
}

#[test]
fn view_gives_the_whole_record_to_anyone() {
    let state = record("0.5", 5);
    assert_eq!(view(&state), &state);
    assert_eq!(view(&state).json_value(), "[1,2]");
}

#[test]
fn view_owner_gives_the_whole_record_to_the_owner() {
    let state = record("0.5", 5);
    assert_eq!(view_owner(&state, OWNER, owner()), Ok(&state));
}

#[test]
fn view_free_leaves_out_the_json_value() {
    let state = record("0.5", 5);
    assert_eq!(
        view_free(&state),
        ViewFree {
            model: "resnet50".to_string(),
            dataset: "imagenet".to_string(),
            amount: Amount { micro_ccd: 3 },
            avg_acc: "0.5".to_string(),
            ver_cnt: 5,
        }
    );
}

#[test]
fn view_payer_ignores_the_payment() {
    let state = record("0.5", 5);
    assert_eq!(view_payer(&state, Amount { micro_ccd: 0 }), &state);
    assert_eq!(view_payer(&state, Amount { micro_ccd: u64::MAX }), &state);
    assert_eq!(state.amount(), Amount { micro_ccd: 3 });
}

#[test]
fn reads_change_nothing() {
    let state = record("0.5", 5);
    let before = state.clone();
    let _ = view(&state);
    let _ = view_owner(&state, OWNER, owner());
    let _ = view_free(&state);
    let _ = view_payer(&state, Amount { micro_ccd: 1 });
    assert_eq!(state, before);
}

#[test]
fn parse_error_becomes_the_parameter_error() {
    assert_eq!(Error::from(ParseError {}), Error::ParseParamsError);
}

#[test]
fn unspecified_error_is_the_default() {
    assert_eq!(Error::default(), Error::Default);
}

#[test]
fn from_parts_and_getters_agree() {
    let state = State::from_parts(
        "m".to_string(),
        "d".to_string(),
        Amount { micro_ccd: 12 },
        Accuracy::parse("3.25").unwrap(),
        9,
        "{\"a\":null}".to_string(),
    );
    assert_eq!(state.model(), "m");
    assert_eq!(state.dataset(), "d");
    assert_eq!(state.amount().micro_ccd, 12);
    assert_eq!(state.avg_acc().text(), "3.25");
    assert_eq!(state.ver_cnt(), 9);
    assert_eq!(state.json_value(), "{\"a\":null}");
    assert_eq!(state.clone(), state);
}
