use ddns4cf::api::{
    bearer_token, interpret_fetch_response, interpret_update_response, joined_messages,
    record_url, update_body, ApiMessage, ApiResponse, RecordDetails, UpdateRequest,
};
use ddns4cf::ip::IpAddress;

fn sample_record() -> RecordDetails {
    RecordDetails {
        record_type: String::from("A"),
        name: String::from("host.example.org"),
        content: IpAddress::V4 { a: 203, b: 0, c: 113, d: 9 },
        ttl: 300,
        proxied: false,
    }
}

#[test]
fn request_path() {
    assert_eq!(
        record_url("zone9", "rec7"),
        "https://api.cloudflare.com/client/v4/zones/zone9/dns_records/rec7"
    );
}

#[test]
fn authorization_header() {
    assert_eq!(bearer_token("abc123"), "Bearer abc123");
}

#[test]
fn update_payload_text() {
    let body = update_body(&UpdateRequest {
        record_type: String::from("A"),
        ttl: 120,
        name: String::from("host.example.org"),
        content: IpAddress::V4 { a: 198, b: 51, c: 100, d: 7 },
        proxied: true,
    });
    assert_eq!(
        body,
        "{\"type\":\"A\",\"ttl\":120,\"name\":\"host.example.org\",\
         \"content\":\"198.51.100.7\",\"proxied\":true}"
    );
}

#[test]
fn update_payload_escapes_strings() {
    let body = update_body(&UpdateRequest {
        record_type: String::from("A\"B\\C\u{1}"),
        ttl: 1,
        name: String::from("n"),
        content: IpAddress::V6 { g0: 0x2001, g1: 0xdb8, g2: 0, g3: 0, g4: 0, g5: 0, g6: 0, g7: 1 },
        proxied: false,
    });
    assert_eq!(
        body,
        "{\"type\":\"A\\\"B\\\\C\\u0001\",\"ttl\":1,\"name\":\"n\",\
         \"content\":\"2001:db8:0:0:0:0:0:1\",\"proxied\":false}"
    );
}

#[test]
fn successful_envelope_yields_the_record() {
    let out = interpret_fetch_response(ApiResponse {
        success: true,
        errors: None,
        result: Some(sample_record()),
    });
    let record = out.expect("a successful envelope carries the record");
    assert_eq!(record.name, "host.example.org");
    assert_eq!(record.ttl, 300);
}

#[test]
fn success_without_result_is_a_failure() {
    let out = interpret_fetch_response(ApiResponse {
        success: true,
        errors: None,
        result: None,
    });
    let err = out.err().expect("an empty result is an API failure");
    assert_eq!(
        err.message(),
        "\u{83b7}\u{53d6} Cloudflare DNS \u{8bb0}\u{5f55}\u{8be6}\u{60c5}\u{5931}\u{8d25}\u{ff0c}\u{9519}\u{8bef}\u{539f}\u{56e0}\u{ff1a}\u{672a}\u{77e5}\u{539f}\u{56e0}"
    );
}

#[test]
fn api_failure_shape() {
    let out = interpret_update_response(ApiResponse {
        success: false,
        errors: Some(vec![ApiMessage {
            code: 9109,
            message: String::from("Invalid access"),
        }]),
        result: None,
    });
    let err = out.err().expect("success=false is an API failure");
    assert!(err.message().contains("9109"));
    assert!(err.message().contains("Invalid access"));
    assert_eq!(
        err.message(),
        "\u{66f4}\u{65b0} Cloudflare DNS \u{8bb0}\u{5f55}\u{5931}\u{8d25}\u{3002}\u{9519}\u{8bef}\u{539f}\u{56e0}\u{ff1a}Cloudflare \u{54cd}\u{5e94}\u{4ee3}\u{7801} 9109\u{ff1a}Invalid access"
    );
}

#[test]
fn error_entries_are_joined() {
    let joined = joined_messages(Some(vec![
        ApiMessage { code: 1, message: String::from("first") },
        ApiMessage { code: 22, message: String::from("second") },
    ]))
    .expect("a present list joins");
    assert_eq!(
        joined,
        "Cloudflare \u{54cd}\u{5e94}\u{4ee3}\u{7801} 1\u{ff1a}first\u{ff1b}Cloudflare \u{54cd}\u{5e94}\u{4ee3}\u{7801} 22\u{ff1a}second"
    );
    assert_eq!(joined_messages(None), None);
    assert_eq!(joined_messages(Some(Vec::new())), Some(String::new()));
}
