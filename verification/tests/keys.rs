use billing_aggregator::{
    get_team_request_key, get_team_request_library_key, record_labels_for, AggregationKey,
    FlagRequestType, Library,
};

#[test]
fn team_keys_follow_the_redis_layout() {
    assert_eq!(
        get_team_request_key(42, FlagRequestType::FlagDefinitions),
        "posthog:local_evaluation_requests:42"
    );
    assert_eq!(
        get_team_request_key(42, FlagRequestType::Decide),
        "posthog:decide_requests:42"
    );
    assert_eq!(
        get_team_request_key(-7, FlagRequestType::Decide),
        "posthog:decide_requests:-7"
    );
}

#[test]
fn library_keys_follow_the_redis_layout() {
    assert_eq!(
        get_team_request_library_key(42, FlagRequestType::FlagDefinitions, Library::PosthogJs),
        "posthog:local_evaluation_requests:sdk:42:posthog-js"
    );
    assert_eq!(
        get_team_request_library_key(1, FlagRequestType::Decide, Library::PosthogNode),
        "posthog:decide_requests:sdk:1:posthog-node"
    );
}

#[test]
fn record_labels_name_the_request_type() {
    let labels = record_labels_for(FlagRequestType::Decide);
    assert_eq!(
        labels,
        vec![("request_type".to_string(), "decide".to_string())]
    );
    let labels = record_labels_for(FlagRequestType::FlagDefinitions);
    assert_eq!(
        labels,
        vec![("request_type".to_string(), "flag_definitions".to_string())]
    );
}

#[test]
fn packed_keys_round_trip() {
    let libraries = [
        None,
        Some(Library::PosthogJs),
        Some(Library::PosthogFlutter),
        Some(Library::Other),
    ];
    let mut codes = Vec::new();
    for team_id in [i32::MIN, -1, 0, 1, 42, i32::MAX] {
        for request_type in [FlagRequestType::Decide, FlagRequestType::FlagDefinitions] {
            for library in libraries {
                for bucket in [0u64, 1, 14_166_666, u64::MAX] {
                    let key = AggregationKey {
                        team_id,
                        request_type,
                        library,
                        bucket,
                    };
                    let code = key.code();
                    assert_eq!(AggregationKey::from_code(code), key);
                    codes.push(code);
                }
            }
        }
    }
    let n = codes.len();
    codes.sort();
    codes.dedup();
    assert_eq!(codes.len(), n, "distinct keys must pack to distinct codes");
}
