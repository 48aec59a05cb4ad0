use vstd::prelude::*;
use crate::config::{is_ok_reply, is_refusal, ok_reply, refusal, AppError, Reply, ReplyData};
use crate::models::users::{Login, NewUser, User};
use crate::text::is_digit;
use crate::json::{json_number_member, json_string_member};
use crate::token::{
    claims_json, issue_token, jwt_encoded, jwt_payload, lemma_login_token_claims, token_secret,
    LOGIN_EXPIRY,
};

verus! {

/// What a login token carries. The expiry stamp is a `u64` so that its
/// fixed value fits whatever the width of `usize`.
#[derive(Debug)]
pub struct Claims {
    pub uuid: String,
    pub username: String,
    pub password: String,
    pub exp: u64,
}


// ---------------------------------------------------------------------------
// create_user
// ---------------------------------------------------------------------------

/// Sign-up through `create_user`: an account is created only while no
/// account has its name (`existing` counts those that do).
pub fn create_user_check(existing: usize) -> (r: Result<(), AppError>)
    ensures
        r is Ok <==> existing == 0,
        r matches Err(e) ==> is_refusal(e, "此用户已经存在"@),
{
    if existing == 0 {
        Ok(())
    } else {
        Err(refusal("此用户已经存在"))
    }
}

/// The answer once `create_user` has stored the account.
pub fn create_user_reply() -> (r: Reply)
    ensures
        is_ok_reply(r, "创建成功"@),
{
    ok_reply("创建成功")
}

// ---------------------------------------------------------------------------
// login
// ---------------------------------------------------------------------------

/// The claims of the token that a login matching the account `row` earns:
/// the account's id, the name and password that were sent, and the fixed
/// expiry stamp.
pub open spec fn login_claims(row: User, user: Login) -> Claims {
    Claims { uuid: row.uuid, username: user.username, password: user.password, exp: LOGIN_EXPIRY }
}

/// Login, given the accounts whose name and password match the request: the
/// first of them earns a signed token; no match is refused.
pub fn login(rows: &Vec<User>, user: Login) -> (r: Result<Reply, AppError>)
    ensures
        rows@.len() == 0 ==> (r matches Err(e) && is_refusal(e, "账号或者密码错误"@)),
        rows@.len() > 0 ==> r is Ok,
        rows@.len() > 0 ==> match r {
            Ok(reply) => {
                let payload = claims_json(login_claims(rows@[0], user));
                &&& reply.code == 200
                &&& reply.msg@ == "登录成功"@
                &&& reply.data matches ReplyData::Token(t)
                &&& t@ == jwt_encoded(payload, token_secret())
                &&& jwt_payload(t@, token_secret()) == Some(payload)
                &&& json_string_member(payload, "uuid"@) == Some(rows@[0].uuid@)
                &&& json_string_member(payload, "username"@) == Some(user.username@)
                &&& json_string_member(payload, "password"@) == Some(user.password@)
                &&& json_number_member(payload, "exp"@) == Some(LOGIN_EXPIRY as nat)
            },
            Err(e) => is_refusal(e, "加密失败"@),
        },
{
    if rows.len() > 0 {
        let claims = Claims {
            uuid: rows[0].uuid.clone(),
            username: user.username,
            password: user.password,
            exp: LOGIN_EXPIRY,
        };
        assert(claims_json(claims) == claims_json(login_claims(rows@[0], user)));
        proof {
            lemma_login_token_claims(rows@[0], user);
        }
        match issue_token(&claims) {
            Ok(token) => Ok(
                Reply { code: 200, msg: String::from_str("登录成功"), data: ReplyData::Token(token) },
            ),
            Err(e) => Err(e),
        }
    } else {
        Err(refusal("账号或者密码错误"))
    }
}

// ---------------------------------------------------------------------------
// register
// ---------------------------------------------------------------------------

/// A lower-case hexadecimal digit.
pub open spec fn is_lower_hex(c: char) -> bool {
    is_digit(c) || (97 <= (c as u32) <= 102)
}

/// The hyphenated lower-case text of a random (version 4, RFC 4122 variant)
/// UUID: 8-4-4-4-12 hexadecimal digits, `4` first in the third group, one of
/// `8`, `9`, `a`, `b` first in the fourth.
pub open spec fn is_v4_uuid_text(s: Seq<char>) -> bool {
    &&& s.len() == 36
    &&& forall|i: int|
        0 <= i < 36 ==> if i == 8 || i == 13 || i == 18 || i == 23 {
            #[trigger] s[i] == '-'
        } else {
            is_lower_hex(s[i])
        }
    &&& s[14] == '4'
    &&& (s[19] == '8' || s[19] == '9' || s[19] == 'a' || s[19] == 'b')
}

/// Calls `uuid::Uuid::new_v4()` and writes the id with `to_string`. Claimed
/// of every result: the hyphenated lower-case layout that `Display` of
/// `Uuid` documents, with the version and variant bits that `new_v4` sets.
/// Which id comes out is chance and is not stated.
#[verifier::external_body]
fn new_v4_text() -> (s: String)
    ensures
        is_v4_uuid_text(s@),
{
    uuid::Uuid::new_v4().to_string()
}

/// The account as stored: with the id `id` in place of whatever id was
/// submitted; the rest of it is kept.
pub fn assign_uuid(user: NewUser, id: String) -> (u: NewUser)
    ensures
        u.uuid matches Some(x) && x@ == id@,
        u.username@ == user.username@,
        u.password@ == user.password@,
        u.phone == user.phone,
{
    let mut user = user;
    user.uuid = Some(id);
    user
}

/// Sign-up through `register`: the account gets a fresh random id in place
/// of any submitted one; the rest of it is kept.
pub fn register_prepare(user: NewUser) -> (u: NewUser)
    ensures
        u.uuid matches Some(id) && is_v4_uuid_text(id@),
        u.username@ == user.username@,
        u.password@ == user.password@,
        u.phone == user.phone,
{
    let id = new_v4_text();
    assign_uuid(user, id)
}

/// `register` stores the account only while fewer than one account has its
/// name (`existing` counts those that do).
pub fn register_check(existing: usize) -> (r: Result<(), AppError>)
    ensures
        r is Ok <==> existing < 1,
        r matches Err(e) ==> is_refusal(e, "用户已经存在"@),
{
    if existing < 1 {
        Ok(())
    } else {
        Err(refusal("用户已经存在"))
    }
}

/// The answer once `register` has stored the account.
pub fn register_reply() -> (r: Reply)
    ensures
        is_ok_reply(r, "注册成功"@),
{
    ok_reply("注册成功")
}

// ---------------------------------------------------------------------------
// Account names stay unique
// ---------------------------------------------------------------------------

/// How many of the account names in `names` are `name`.
pub open spec fn count_named(names: Seq<Seq<char>>, name: Seq<char>) -> nat
    decreases names.len(),
{
    if names.len() == 0 {
        0
    } else {
        count_named(names.drop_last(), name) + if names.last() == name {
            1nat
        } else {
            0nat
        }
    }
}

/// No two accounts have the same name.
pub open spec fn names_distinct(names: Seq<Seq<char>>) -> bool {
    forall|i: int, j: int| 0 <= i < j < names.len() ==> names[i] != names[j]
}

proof fn lemma_count_zero_absent(names: Seq<Seq<char>>, name: Seq<char>)
    requires
        count_named(names, name) == 0,
    ensures
        forall|i: int| 0 <= i < names.len() ==> names[i] != name,
    decreases names.len(),
{
    if names.len() > 0 {
        lemma_count_zero_absent(names.drop_last(), name);
        assert forall|i: int| 0 <= i < names.len() implies names[i] != name by {
            if i < names.len() - 1 {
                assert(names[i] == names.drop_last()[i]);
            }
        }
    }
}

/// The names after a sign-up through `create_user` with the name `name`:
/// the new name is added exactly when `create_user_check` passes, that is
/// when no account had it.
pub open spec fn names_after_create_user(names: Seq<Seq<char>>, name: Seq<char>) -> Seq<Seq<char>> {
    if count_named(names, name) == 0 {
        names.push(name)
    } else {
        names
    }
}

/// The names after a sign-up through `register` with the name `name`: the new
/// name is added exactly when `register_check` passes, that is when fewer
/// than one account had it.
pub open spec fn names_after_register(names: Seq<Seq<char>>, name: Seq<char>) -> Seq<Seq<char>> {
    if count_named(names, name) < 1 {
        names.push(name)
    } else {
        names
    }
}

proof fn lemma_push_absent_keeps_distinct(names: Seq<Seq<char>>, name: Seq<char>)
    requires
        names_distinct(names),
        count_named(names, name) == 0,
    ensures
        names_distinct(names.push(name)),
{
    lemma_count_zero_absent(names, name);
    let after = names.push(name);
    assert forall|i: int, j: int| 0 <= i < j < after.len() implies after[i] != after[j] by {
        if j < names.len() {
            assert(after[i] == names[i] && after[j] == names[j]);
        } else {
            assert(after[j] == name && after[i] == names[i]);
        }
    }
}

/// Sign-up through `create_user` keeps account names unique: where no two
/// accounts shared a name before, none do after, whether the sign-up was
/// stored or refused.
pub proof fn lemma_create_user_keeps_names_unique(names: Seq<Seq<char>>, name: Seq<char>)
    requires
        names_distinct(names),
    ensures
        names_distinct(names_after_create_user(names, name)),
{
    if count_named(names, name) == 0 {
        lemma_push_absent_keeps_distinct(names, name);
    }
}

/// Sign-up through `register` keeps account names unique: where no two
/// accounts shared a name before, none do after, whether the sign-up was
/// stored or refused.
pub proof fn lemma_register_keeps_names_unique(names: Seq<Seq<char>>, name: Seq<char>)
    requires
        names_distinct(names),
    ensures
        names_distinct(names_after_register(names, name)),
{
    if count_named(names, name) < 1 {
        lemma_push_absent_keeps_distinct(names, name);
    }
}

} // verus!
