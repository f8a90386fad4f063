use check_pjsip_state::snapshot::{get_pjsip_endpoints, parse_line, unparsed_lines, Endpoint, EndpointsData};

fn ep(endpoint: &str, state: &str, channels: &str) -> Endpoint {
    Endpoint {
        endpoint: endpoint.to_string(),
        state: state.to_string(),
        channels: channels.to_string(),
    }
}

#[test]
fn test_parse_pjsip_output() {
    let output = r#"
            Endpoint:  500/500                                              Unavailable   0 of inf
            Endpoint:  502/502                                              Not in use    0 of inf
            Endpoint:  Voipfone                                             Not in use    0 of inf
        "#;

    let expected_data = EndpointsData {
        endpoints: vec![
            Endpoint {
                endpoint: "500/500".to_string(),
                state: "Unavailable".to_string(),
                channels: "0 of inf".to_string(),
            },
            Endpoint {
                endpoint: "502/502".to_string(),
                state: "Not in use".to_string(),
                channels: "0 of inf".to_string(),
            },
            Endpoint {
                endpoint: "Voipfone".to_string(),
                state: "Not in use".to_string(),
                channels: "0 of inf".to_string(),
            },
        ],
    };

    let parsed_data = get_pjsip_endpoints(output);
    assert_eq!(parsed_data, expected_data);
}

#[test]
fn two_example_lines_parse_into_two_records() {
    let output = "Endpoint:  500/500   Unavailable   0 of inf\nEndpoint:  502/502   Not in use    0 of inf";
    let data = get_pjsip_endpoints(output);
    assert_eq!(
        data.endpoints,
        vec![ep("500/500", "Unavailable", "0 of inf"), ep("502/502", "Not in use", "0 of inf")]
    );
}

#[test]
fn unrelated_header_is_skipped() {
    let output = "Some unrelated header\nEndpoint:  500/500   Unavailable   0 of inf\n";
    let data = get_pjsip_endpoints(output);
    assert_eq!(data.endpoints, vec![ep("500/500", "Unavailable", "0 of inf")]);
    assert_eq!(parse_line("Some unrelated header"), None);
    assert_eq!(unparsed_lines(output), vec!["Some unrelated header".to_string()]);
}

#[test]
fn only_header_gives_empty_snapshot() {
    let data = get_pjsip_endpoints("Some unrelated header");
    assert!(data.endpoints.is_empty());
}

#[test]
fn empty_text_gives_empty_snapshot() {
    assert!(get_pjsip_endpoints("").endpoints.is_empty());
    assert!(unparsed_lines("").is_empty());
    assert!(unparsed_lines("  \n\t\n").is_empty());
}

#[test]
fn parsing_twice_gives_equal_snapshots() {
    let output = "Endpoint: a Busy 2 of inf\nfooter\nEndpoint: b Idle 0 of inf";
    assert_eq!(get_pjsip_endpoints(output), get_pjsip_endpoints(output));
}

#[test]
fn duplicates_and_order_are_kept() {
    let output = "Endpoint: b Idle 0 of inf\nEndpoint: a Busy 1 of inf\nEndpoint: b Idle 0 of inf";
    let data = get_pjsip_endpoints(output);
    assert_eq!(
        data.endpoints,
        vec![ep("b", "Idle", "0 of inf"), ep("a", "Busy", "1 of inf"), ep("b", "Idle", "0 of inf")]
    );
}

#[test]
fn columns_keep_their_inner_spacing() {
    let r = parse_line("\t Endpoint:\tx1   Not  in use \t 12  of   inf  \r");
    assert_eq!(r, Some(ep("x1", "Not  in use", "12  of   inf")));
}

#[test]
fn malformed_lines_are_rejected() {
    // no state column
    assert_eq!(parse_line("Endpoint:  500/500   0 of inf"), None);
    // label not followed by whitespace
    assert_eq!(parse_line("Endpoint:500/500 Unavailable 0 of inf"), None);
    // a state with digits
    assert_eq!(parse_line("Endpoint: a In use 2 3 of inf"), None);
    // channel column not ending in inf
    assert_eq!(parse_line("Endpoint: a Unavailable 0 of 5"), None);
    // no count
    assert_eq!(parse_line("Endpoint: a Unavailable of inf"), None);
    // wrong label
    assert_eq!(parse_line("Endpoints: a Unavailable 0 of inf"), None);
    // trailing text
    assert_eq!(parse_line("Endpoint: a Unavailable 0 of inf x"), None);
    assert_eq!(parse_line(""), None);
}

#[test]
fn unparsed_lines_are_trimmed_and_in_order() {
    let output = "  head one  \nEndpoint: a Idle 0 of inf\n\n  Endpoint: broken\n";
    assert_eq!(
        unparsed_lines(output),
        vec!["head one".to_string(), "Endpoint: broken".to_string()]
    );
}
