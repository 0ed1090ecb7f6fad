use vstd::prelude::*;
use vstd::string::StrSliceExecFns;

verus! {

/// The handshake payload: the first message of every connection.
pub struct AuthenticationData {
    pub username: String,
    pub password: String,
}

/// An error reply carried back to the client; `err` is empty on success.
pub struct AuthError {
    pub err: String,
}

/// A stored user record, as the identity collaborator hands it over.
pub struct User {
    pub id: i32,
    pub username: String,
    pub password: String,
    pub elo_points: i32,
    pub country_id: String,
    pub profile_picture_url: String,
}

/// A username a registration may carry: 3 to 15 characters.
pub open spec fn username_ok(name: Seq<char>) -> bool {
    3 <= name.len() <= 15
}

/// A password a registration may carry: 3 to 250 characters.
pub open spec fn password_ok(pw: Seq<char>) -> bool {
    3 <= pw.len() <= 250
}

/// Check a registration request.  `None` means the request is acceptable;
/// `Some` carries the reply naming the field that is out of bounds, the
/// username being checked first.
pub fn validate_registration(auth: &AuthenticationData) -> (r: Option<AuthError>)
    ensures
        r is None <==> username_ok(auth.username@) && password_ok(auth.password@),
        match r {
            Some(e) => e.err@ == if !username_ok(auth.username@) {
                "Username must be between 3 to 15 characters"@
            } else {
                "Username must be between 3 to 250 characters"@
            },
            None => true,
        },
{
    let name_len = auth.username.as_str().unicode_len();
    if name_len < 3 || name_len > 15 {
        return Some(
            AuthError { err: "Username must be between 3 to 15 characters".to_owned() },
        );
    }
    let pw_len = auth.password.as_str().unicode_len();
    if pw_len < 3 || pw_len > 250 {
        return Some(
            AuthError { err: "Username must be between 3 to 250 characters".to_owned() },
        );
    }
    None
}

} // verus!
