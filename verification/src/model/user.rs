//! Users: what a new user is created from, and the id a new user gets.
use vstd::prelude::*;
use vstd::string::*;

verus! {

/// What a new user is created from.
#[derive(Debug)]
pub struct CreateUserDTO {
    pub username: String,
    pub password: String,
    pub name: String,
    pub age: Option<u8>,
    pub phone: String,
    pub email: String,
}

/// `c` is a lower-case hexadecimal digit.
pub open spec fn is_lower_hex(c: char) -> bool {
    ('0' <= c <= '9') || ('a' <= c <= 'f')
}

/// `t` is a version 4 UUID in hyphenated lower-case form: 36 characters,
/// hyphens at positions 8, 13, 18 and 23, lower-case hexadecimal digits
/// elsewhere, the version digit `4` at position 14 and one of `8`, `9`, `a`,
/// `b` at position 19.
pub open spec fn is_v4_uuid_text(t: Seq<char>) -> bool {
    &&& t.len() == 36
    &&& forall|i: int| 0 <= i < 36 ==> if i == 8 || i == 13 || i == 18 || i == 23 {
        t[i] == '-'
    } else {
        is_lower_hex(#[trigger] t[i])
    }
    &&& t[14] == '4'
    &&& (t[19] == '8' || t[19] == '9' || t[19] == 'a' || t[19] == 'b')
}

/// Calls `uuid::Uuid::new_v4` and writes the UUID with its `Display`, which
/// gives the hyphenated lower-case form. The UUID is random: only its form is
/// stated.
#[verifier::external_body]
fn new_v4_text() -> (r: String)
    ensures
        is_v4_uuid_text(r@),
{
    uuid::Uuid::new_v4().to_string()
}

/// The id of a user whose UUID is written `uuid_text`: `u_` and the UUID.
pub fn user_id_for(uuid_text: &str) -> (r: String)
    ensures
        r@ == "u_"@ + uuid_text@,
{
    let mut r = String::from_str("u_");
    r.append(uuid_text);
    r
}

/// A fresh user id: `u_` and a random version 4 UUID.
pub fn new_user_id() -> (r: String)
    ensures
        r@.len() == 38,
        r@.take(2) == "u_"@,
        is_v4_uuid_text(r@.skip(2)),
{
    let uuid = new_v4_text();
    let r = user_id_for(uuid.as_str());
    proof {
        reveal_strlit("u_");
        assert(r@.take(2) =~= "u_"@);
        assert(r@.skip(2) =~= uuid@);
    }
    r
}

} // verus!
