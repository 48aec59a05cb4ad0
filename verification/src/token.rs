use vstd::prelude::*;
use crate::config::AppError;
use crate::json::{
    escape_text, json_number_member, JsonValue, json_string, json_string_member, lemma_json_string_after,
    lemma_read_last_member, lemma_read_member_then, lemma_read_number_value,
    lemma_read_string_value, member_lookup, push_json_string, read_members, read_object,
};
use crate::handler::users::{login_claims, Claims};
use crate::models::users::{Login, User};
use crate::text::{lemma_nat_text_reads_back, nat_text, push_nat_text};

verus! {

/// The lifetime stamp written into every login token.
pub const LOGIN_EXPIRY: u64 = 1000000000000;

/// The key with which tokens are signed and checked.
pub open spec fn token_secret() -> Seq<char> {
    "secret"@
}

/// The JSON object of a token's claims, as `serde_json` writes the struct:
/// `{"uuid":…,"username":…,"password":…,"exp":…}`.
pub open spec fn claims_json(c: Claims) -> Seq<char> {
    "{\"uuid\":"@ + json_string(c.uuid@) + ",\"username\":"@ + json_string(c.username@)
        + ",\"password\":"@ + json_string(c.password@) + ",\"exp\":"@ + nat_text(c.exp as nat)
        + "}"@
}

/// Writes the claims as a JSON object.
pub fn claims_payload(c: &Claims) -> (s: String)
    ensures
        s@ == claims_json(*c),
{
    let mut s = String::new();
    s.append("{\"uuid\":");
    push_json_string(&mut s, c.uuid.as_str());
    s.append(",\"username\":");
    push_json_string(&mut s, c.username.as_str());
    s.append(",\"password\":");
    push_json_string(&mut s, c.password.as_str());
    s.append(",\"exp\":");
    push_nat_text(&mut s, c.exp);
    s.append("}");
    assert(s@ =~= claims_json(*c));
    s
}

/// The JSON text of some claims.
pub open spec fn is_claims_text(p: Seq<char>) -> bool {
    exists|c: Claims| p == claims_json(c)
}

/// The token that `jsonwebtoken::encode` makes with the default header
/// (HS256) and the HMAC key `secret`, for the JSON payload `payload`.
pub uninterp spec fn jwt_encoded(payload: Seq<char>, secret: Seq<char>) -> Seq<char>;

/// The JSON payload that `jsonwebtoken::decode`, with the HMAC key `secret`
/// and the default validation, yields for `token` at a moment when its check
/// of the `exp` claim against the clock passes; `None` where it fails
/// whatever the clock reads.
pub uninterp spec fn jwt_payload(token: Seq<char>, secret: Seq<char>) -> Option<Seq<char>>;

/// Calls `jsonwebtoken::encode` with the default header (HS256) and
/// `EncodingKey::from_secret`, on the JSON text `payload` (embedded verbatim
/// through `serde_json::value::RawValue::from_string`, which fails on text
/// that is not JSON). Claimed: a token it returns is the one that the pair of
/// arguments determines, and for the JSON text of claims (which carries a
/// numeric `exp`), decoding that token with the same key gives the payload
/// back unless the clock rejects `exp`: the signature, the header and the
/// `exp` claim that `decode` checks are the ones `encode` wrote. On the JSON
/// text of claims it succeeds: that text is valid JSON, the key from
/// `from_secret` is of the HMAC family that HS256 asks for, and HMAC signing
/// does not fail. On other text, whether it fails is not stated.
#[verifier::external_body]
fn jwt_encode(payload: String, secret: &str) -> (r: Result<String, String>)
    ensures
        r matches Ok(t) ==> t@ == jwt_encoded(payload@, secret@),
        r matches Ok(t) ==> (is_claims_text(payload@) ==> jwt_payload(t@, secret@) == Some(
            payload@,
        )),
        is_claims_text(payload@) ==> r is Ok,
{
    match serde_json::value::RawValue::from_string(payload) {
        Ok(raw) => match jsonwebtoken::encode(
            &jsonwebtoken::Header::default(),
            &raw,
            &jsonwebtoken::EncodingKey::from_secret(secret.as_bytes()),
        ) {
            Ok(t) => Ok(t),
            Err(e) => Err(e.to_string()),
        },
        Err(e) => Err(e.to_string()),
    }
}

/// Calls `jsonwebtoken::decode` with `DecodingKey::from_secret(secret)` and
/// `Validation::default()` (HS256, `exp` required and checked against the
/// clock with 60 s of leeway), taking the claims as raw JSON text
/// (`Box<serde_json::value::RawValue>`); an error becomes its message.
/// Claimed: a payload it returns is the one `jwt_payload` names for the
/// token and key, and where that name is `None` it fails; where the name
/// gives a payload and it still fails, the clock rejected `exp` and the
/// message is that of `ErrorKind::ExpiredSignature`. Which clock reading
/// makes it fail is not stated.
#[verifier::external_body]
pub(crate) fn jwt_decode(token: &str, secret: &str) -> (r: Result<String, String>)
    ensures
        r matches Ok(p) ==> jwt_payload(token@, secret@) == Some(p@),
        jwt_payload(token@, secret@) is None ==> r is Err,
        jwt_payload(token@, secret@) is Some ==> (r matches Err(m) ==> m@ == "ExpiredSignature"@),
{
    match jsonwebtoken::decode::<Box<serde_json::value::RawValue>>(
        token,
        &jsonwebtoken::DecodingKey::from_secret(secret.as_bytes()),
        &jsonwebtoken::Validation::default(),
    ) {
        Ok(data) => Ok(data.claims.get().to_string()),
        Err(e) => Err(e.to_string()),
    }
}

/// Signs a login token for the claims; a signing failure would be answered
/// with code 500 and "加密失败", but signing the claims always succeeds.
pub fn issue_token(c: &Claims) -> (r: Result<String, AppError>)
    ensures
        r is Ok,
        r matches Ok(t) ==> t@ == jwt_encoded(claims_json(*c), token_secret()),
        r matches Ok(t) ==> jwt_payload(t@, token_secret()) == Some(claims_json(*c)),
        r matches Err(e) ==> e.code == 500 && e.msg@ == "加密失败"@,
{
    let payload = claims_payload(c);
    assert(is_claims_text(payload@));
    match jwt_encode(payload, "secret") {
        Ok(t) => Ok(t),
        Err(_) => Err(AppError::err(500, String::from_str("加密失败"))),
    }
}

proof fn lemma_digits_between(d: Seq<char>, e: Seq<char>, n1: nat, n2: nat)
    requires
        d + nat_text(n1) + e == d + nat_text(n2) + e,
    ensures
        n1 == n2,
{
    let w1 = d + nat_text(n1) + e;
    let w2 = d + nat_text(n2) + e;
    let lo: int = d.len() as int;
    assert(w1.subrange(lo, w1.len() - e.len()) =~= nat_text(n1));
    assert(w2.subrange(lo, w2.len() - e.len()) =~= nat_text(n2));
    lemma_nat_text_reads_back(n1);
    lemma_nat_text_reads_back(n2);
}

/// The tail of a claims text that follows the `uuid` string.
spec fn after_uuid(c: Claims) -> Seq<char> {
    ",\"username\":"@ + json_string(c.username@) + after_username(c)
}

/// The tail of a claims text that follows the `username` string.
spec fn after_username(c: Claims) -> Seq<char> {
    ",\"password\":"@ + json_string(c.password@) + after_password(c)
}

/// The tail of a claims text that follows the `password` string.
spec fn after_password(c: Claims) -> Seq<char> {
    ",\"exp\":"@ + nat_text(c.exp as nat) + "}"@
}

proof fn lemma_claims_json_split(c: Claims)
    ensures
        claims_json(c) == "{\"uuid\":"@ + json_string(c.uuid@) + after_uuid(c),
{
    assert(claims_json(c) =~= "{\"uuid\":"@ + json_string(c.uuid@) + after_uuid(c));
}

/// Different claims have different JSON texts: the text of a token's payload
/// names exactly one set of claims.
pub proof fn lemma_claims_json_injective(c1: Claims, c2: Claims)
    requires
        claims_json(c1) == claims_json(c2),
    ensures
        c1.uuid@ == c2.uuid@,
        c1.username@ == c2.username@,
        c1.password@ == c2.password@,
        c1.exp == c2.exp,
{
    lemma_claims_json_split(c1);
    lemma_claims_json_split(c2);
    lemma_json_string_after("{\"uuid\":"@, c1.uuid@, after_uuid(c1), c2.uuid@, after_uuid(c2));
    lemma_json_string_after(
        ",\"username\":"@,
        c1.username@,
        after_username(c1),
        c2.username@,
        after_username(c2),
    );
    lemma_json_string_after(
        ",\"password\":"@,
        c1.password@,
        after_password(c1),
        c2.password@,
        after_password(c2),
    );
    lemma_digits_between(",\"exp\":"@, "}"@, c1.exp as nat, c2.exp as nat);
}

/// A character that JSON writes as itself inside a string.
spec fn is_plain(c: char) -> bool {
    (c as u32) >= 32 && c != '"' && c != '\\'
}

proof fn lemma_escape_plain(k: Seq<char>)
    requires
        forall|i: int| 0 <= i < k.len() ==> is_plain(#[trigger] k[i]),
    ensures
        escape_text(k) == k,
    decreases k.len(),
{
    if k.len() > 0 {
        lemma_escape_plain(k.drop_last());
        assert(is_plain(k[k.len() - 1]));
        assert(escape_text(k) =~= k);
    }
}

/// The fixed pieces of a claims text are a key written as a JSON string
/// between a brace or comma and a colon.
proof fn lemma_claims_keys()
    ensures
        "{\"uuid\":"@ == seq!['{'] + json_string("uuid"@) + seq![':'],
        ",\"username\":"@ == seq![','] + json_string("username"@) + seq![':'],
        ",\"password\":"@ == seq![','] + json_string("password"@) + seq![':'],
        ",\"exp\":"@ == seq![','] + json_string("exp"@) + seq![':'],
        "}"@ == seq!['}'],
        "uuid"@ != "username"@,
        "uuid"@ != "password"@,
        "uuid"@ != "exp"@,
        "username"@ != "password"@,
        "username"@ != "exp"@,
        "password"@ != "exp"@,
{
    reveal_strlit("{\"uuid\":");
    reveal_strlit(",\"username\":");
    reveal_strlit(",\"password\":");
    reveal_strlit(",\"exp\":");
    reveal_strlit("}");
    reveal_strlit("uuid");
    reveal_strlit("username");
    reveal_strlit("password");
    reveal_strlit("exp");
    lemma_escape_plain("uuid"@);
    lemma_escape_plain("username"@);
    lemma_escape_plain("password"@);
    lemma_escape_plain("exp"@);
    assert("{\"uuid\":"@ =~= seq!['{'] + json_string("uuid"@) + seq![':']);
    assert(",\"username\":"@ =~= seq![','] + json_string("username"@) + seq![':']);
    assert(",\"password\":"@ =~= seq![','] + json_string("password"@) + seq![':']);
    assert(",\"exp\":"@ =~= seq![','] + json_string("exp"@) + seq![':']);
    assert("}"@ =~= seq!['}']);
    assert("username"@[0] != "password"@[0]);
}

/// The members of a claims text, after its opening brace.
spec fn claims_members_text(c: Claims) -> Seq<char> {
    json_string("uuid"@) + seq![':'] + json_string(c.uuid@) + seq![','] + (json_string(
        "username"@,
    ) + seq![':'] + json_string(c.username@) + seq![','] + (json_string("password"@) + seq![':']
        + json_string(c.password@) + seq![','] + (json_string("exp"@) + seq![':'] + nat_text(
        c.exp as nat,
    ) + seq!['}'])))
}

/// The members of a claims object as read.
spec fn claims_members(c: Claims) -> Seq<(Seq<char>, JsonValue)> {
    seq![("uuid"@, (true, c.uuid@, 0nat))] + (seq![("username"@, (true, c.username@, 0nat))] + (
    seq![("password"@, (true, c.password@, 0nat))] + seq![
        ("exp"@, (false, Seq::<char>::empty(), c.exp as nat)),
    ]))
}

proof fn lemma_claims_text_shape(c: Claims)
    ensures
        claims_json(c) == seq!['{'] + claims_members_text(c),
{
    lemma_claims_keys();
    assert(claims_json(c) =~= seq!['{'] + claims_members_text(c));
}

proof fn lemma_read_claims_members(c: Claims)
    ensures
        read_members(claims_members_text(c)) == Some(claims_members(c)),
{
    let end = seq!['}'];
    let comma = seq![','];
    let colon = seq![':'];
    let v1 = (true, c.uuid@, 0nat);
    let v2 = (true, c.username@, 0nat);
    let v3 = (true, c.password@, 0nat);
    let v4 = (false, Seq::<char>::empty(), c.exp as nat);
    let t4 = json_string("exp"@) + colon + nat_text(c.exp as nat) + end;
    let t3 = json_string("password"@) + colon + json_string(c.password@) + comma + t4;
    let t2 = json_string("username"@) + colon + json_string(c.username@) + comma + t3;
    let t1 = json_string("uuid"@) + colon + json_string(c.uuid@) + comma + t2;
    lemma_read_number_value(c.exp as nat, end);
    lemma_read_last_member("exp"@, nat_text(c.exp as nat), v4);
    lemma_read_string_value(c.password@, comma + t4);
    lemma_read_member_then("password"@, json_string(c.password@), v3, t4);
    lemma_read_string_value(c.username@, comma + t3);
    lemma_read_member_then("username"@, json_string(c.username@), v2, t3);
    lemma_read_string_value(c.uuid@, comma + t2);
    lemma_read_member_then("uuid"@, json_string(c.uuid@), v1, t2);
    assert(t1 == claims_members_text(c));
}

proof fn lemma_claims_members_lookup(c: Claims)
    ensures
        member_lookup(claims_members(c), "uuid"@) == Some((true, c.uuid@, 0nat)),
        member_lookup(claims_members(c), "username"@) == Some((true, c.username@, 0nat)),
        member_lookup(claims_members(c), "password"@) == Some((true, c.password@, 0nat)),
        member_lookup(claims_members(c), "exp"@) == Some(
            (false, Seq::<char>::empty(), c.exp as nat),
        ),
{
    lemma_claims_keys();
    let ms = claims_members(c);
    let m2 = ms.drop_first();
    let m3 = m2.drop_first();
    let m4 = m3.drop_first();
    assert(m2 =~= seq![("username"@, (true, c.username@, 0nat))] + (seq![
        ("password"@, (true, c.password@, 0nat)),
    ] + seq![("exp"@, (false, Seq::<char>::empty(), c.exp as nat))]));
    assert(m3 =~= seq![("password"@, (true, c.password@, 0nat))] + seq![
        ("exp"@, (false, Seq::<char>::empty(), c.exp as nat)),
    ]);
    assert(m4 =~= seq![("exp"@, (false, Seq::<char>::empty(), c.exp as nat))]);
    assert(ms[0].0 == "uuid"@);
    assert(m2[0].0 == "username"@);
    assert(m3[0].0 == "password"@);
    assert(m4[0].0 == "exp"@);
    assert(member_lookup(m4, "exp"@) == Some((false, Seq::<char>::empty(), c.exp as nat)));
    assert(member_lookup(m3, "exp"@) == member_lookup(m4, "exp"@));
    assert(member_lookup(m2, "exp"@) == member_lookup(m3, "exp"@));
    assert(member_lookup(m3, "password"@) == Some((true, c.password@, 0nat)));
    assert(member_lookup(m2, "password"@) == member_lookup(m3, "password"@));
    assert(member_lookup(m2, "username"@) == Some((true, c.username@, 0nat)));
}

/// Read as a JSON object, the text of some claims has the member `uuid`
/// holding the claims' id, `username` their name, `password` their password
/// and `exp` their expiry stamp.
pub proof fn lemma_claims_json_reads_back(c: Claims)
    ensures
        json_string_member(claims_json(c), "uuid"@) == Some(c.uuid@),
        json_string_member(claims_json(c), "username"@) == Some(c.username@),
        json_string_member(claims_json(c), "password"@) == Some(c.password@),
        json_number_member(claims_json(c), "exp"@) == Some(c.exp as nat),
{
    lemma_claims_text_shape(c);
    lemma_read_claims_members(c);
    lemma_claims_members_lookup(c);
    let text = claims_json(c);
    assert(text.drop_first() =~= claims_members_text(c));
    assert(read_object(text) == Some(claims_members(c)));
}

/// The token a login earns carries, read as JSON, the account's id and the
/// name and password that were sent, and the fixed expiry stamp.
pub proof fn lemma_login_token_claims(row: User, user: Login)
    ensures
        json_string_member(claims_json(login_claims(row, user)), "uuid"@) == Some(row.uuid@),
        json_string_member(claims_json(login_claims(row, user)), "username"@) == Some(
            user.username@,
        ),
        json_string_member(claims_json(login_claims(row, user)), "password"@) == Some(
            user.password@,
        ),
        json_number_member(claims_json(login_claims(row, user)), "exp"@) == Some(
            LOGIN_EXPIRY as nat,
        ),
{
    lemma_claims_json_reads_back(login_claims(row, user));
}

/// Decoding a token that `issue_token` signed for some claims gives the JSON
/// text of exactly those claims: any claims whose text it is agree with them
/// in every field.
pub proof fn lemma_issued_token_decodes_to_its_claims(
    c: Claims,
    token: Seq<char>,
    payload: Seq<char>,
    read: Claims,
)
    requires
        jwt_payload(token, token_secret()) == Some(claims_json(c)),
        jwt_payload(token, token_secret()) == Some(payload),
        claims_json(read) == payload,
    ensures
        payload == claims_json(c),
        read.uuid@ == c.uuid@,
        read.username@ == c.username@,
        read.password@ == c.password@,
        read.exp == c.exp,
{
    lemma_claims_json_injective(read, c);
}

} // verus!
