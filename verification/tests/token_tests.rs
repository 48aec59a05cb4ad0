use todo_server::handler::users::Claims;
use todo_server::methods::{decode_outcome, my_decode};
use todo_server::token::{claims_payload, issue_token, LOGIN_EXPIRY};

fn claims(uuid: &str, username: &str, password: &str, exp: u64) -> Claims {
    Claims {
        uuid: uuid.to_string(),
        username: username.to_string(),
        password: password.to_string(),
        exp,
    }
}

#[test]
fn claims_payload_exact_text() {
    let c = claims("u-1", "bob", "p\"w", LOGIN_EXPIRY);
    assert_eq!(
        claims_payload(&c),
        "{\"uuid\":\"u-1\",\"username\":\"bob\",\"password\":\"p\\\"w\",\"exp\":1000000000000}"
    );
}

#[test]
fn claims_payload_is_json_of_the_claims() {
    let c = claims("a\\b", "名字", "line\nbreak", 7);
    let v: serde_json::Value = serde_json::from_str(&claims_payload(&c)).unwrap();
    assert_eq!(v["uuid"], "a\\b");
    assert_eq!(v["username"], "名字");
    assert_eq!(v["password"], "line\nbreak");
    assert_eq!(v["exp"], 7);
}

#[test]
fn issued_token_has_three_parts_and_verifies() {
    let c = claims("id-9", "alice", "secret-pw", LOGIN_EXPIRY);
    let token = issue_token(&c).unwrap();
    assert_eq!(token.split('.').count(), 3);
    let data = jsonwebtoken::decode::<serde_json::Value>(
        &token,
        &jsonwebtoken::DecodingKey::from_secret(b"secret"),
        &jsonwebtoken::Validation::default(),
    )
    .unwrap();
    assert_eq!(data.claims["uuid"], "id-9");
    assert_eq!(data.claims["username"], "alice");
    assert_eq!(data.claims["password"], "secret-pw");
    assert_eq!(data.claims["exp"], 1000000000000u64);
}

#[test]
fn issued_token_is_deterministic() {
    let c = claims("id-1", "u", "p", LOGIN_EXPIRY);
    assert_eq!(issue_token(&c).unwrap(), issue_token(&c).unwrap());
    let other = claims("id-2", "u", "p", LOGIN_EXPIRY);
    assert_ne!(issue_token(&c).unwrap(), issue_token(&other).unwrap());
}

#[test]
fn decoding_an_issued_token_gives_its_claims() {
    let c = claims("id-3", "carol", "pw \"quoted\"", LOGIN_EXPIRY);
    let token = issue_token(&c).unwrap();
    let payload = my_decode(&token).unwrap();
    assert_eq!(payload, claims_payload(&c));
}

#[test]
fn decoding_refuses_garbage() {
    let e = my_decode("not-a-token").unwrap_err();
    assert_eq!(e.code, 500);
    assert_eq!(e.msg, "InvalidToken");
}

#[test]
fn decoding_refuses_expired_tokens() {
    let c = claims("id-4", "dave", "pw", 0);
    let token = issue_token(&c).unwrap();
    let e = my_decode(&token).unwrap_err();
    assert_eq!(e.code, 500);
    assert_eq!(e.msg, "ExpiredSignature");
}

#[test]
fn decoding_refuses_other_keys() {
    let token = jsonwebtoken::encode(
        &jsonwebtoken::Header::default(),
        &serde_json::from_str::<serde_json::Value>(
            "{\"uuid\":\"x\",\"username\":\"y\",\"password\":\"z\",\"exp\":1000000000000}",
        )
        .unwrap(),
        &jsonwebtoken::EncodingKey::from_secret(b"another"),
    )
    .unwrap();
    let e = my_decode(&token).unwrap_err();
    assert_eq!(e.code, 500);
    assert_eq!(e.msg, "InvalidSignature");
}

#[test]
fn different_claims_have_different_payloads() {
    let a = claims("ab", "c", "d", 1);
    let b = claims("a", "bc", "d", 1);
    let c = claims("a\"", "b", "d", 1);
    let d = claims("ab", "c", "d", 10);
    let texts = [claims_payload(&a), claims_payload(&b), claims_payload(&c), claims_payload(&d)];
    for i in 0..texts.len() {
        for j in 0..texts.len() {
            if i != j {
                assert_ne!(texts[i], texts[j]);
            }
        }
    }
}

#[test]
fn decode_outcome_passes_the_message_on() {
    assert_eq!(decode_outcome(Ok("{}".to_string())).unwrap(), "{}");
    let e = decode_outcome(Err("InvalidToken".to_string())).unwrap_err();
    assert_eq!((e.code, e.msg.as_str()), (500, "InvalidToken"));
}
