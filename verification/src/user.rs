//! Accounts and the request / response shapes of the authentication flow.

use vstd::prelude::*;

verus! {

/// A stored account. `username` and `email` are unique across the store;
/// only the salted hash of the password is ever kept.
#[derive(Debug)]
pub struct User {
    pub id: i32,
    pub username: String,
    pub email: String,
    pub password_hash: String,
    pub created_at: i64,
    pub updated_at: i64,
}

/// The mathematical model of a [`User`].
pub ghost struct UserModel {
    pub id: int,
    pub username: Seq<char>,
    pub email: Seq<char>,
    pub password_hash: Seq<char>,
    pub created_at: int,
    pub updated_at: int,
}

impl View for User {
    type V = UserModel;

    open spec fn view(&self) -> UserModel {
        UserModel {
            id: self.id as int,
            username: self.username@,
            email: self.email@,
            password_hash: self.password_hash@,
            created_at: self.created_at as int,
            updated_at: self.updated_at as int,
        }
    }
}

impl Clone for User {
    fn clone(&self) -> (r: Self)
        ensures
            r@ == self@,
    {
        User {
            id: self.id,
            username: self.username.clone(),
            email: self.email.clone(),
            password_hash: self.password_hash.clone(),
            created_at: self.created_at,
            updated_at: self.updated_at,
        }
    }
}

/// A registration request.
#[derive(Debug)]
pub struct CreateUserRequest {
    pub username: String,
    pub email: String,
    pub password: String,
}

/// A login request.
#[derive(Debug)]
pub struct LoginRequest {
    pub username: String,
    pub password: String,
}

/// The public identity returned for an account: never the password nor
/// its hash.
#[derive(Debug)]
pub struct UserResponse {
    pub id: i32,
    pub username: String,
    pub email: String,
}

/// The mathematical model of a [`UserResponse`].
pub ghost struct UserResponseModel {
    pub id: int,
    pub username: Seq<char>,
    pub email: Seq<char>,
}

impl View for UserResponse {
    type V = UserResponseModel;

    open spec fn view(&self) -> UserResponseModel {
        UserResponseModel { id: self.id as int, username: self.username@, email: self.email@ }
    }
}

/// A successful login: the signed bearer token and the account it names.
#[derive(Debug)]
pub struct LoginResponse {
    pub token: String,
    pub user: UserResponse,
}

/// The mathematical model of a [`LoginResponse`].
pub ghost struct LoginResponseModel {
    pub token: Seq<char>,
    pub user: UserResponseModel,
}

impl View for LoginResponse {
    type V = LoginResponseModel;

    open spec fn view(&self) -> LoginResponseModel {
        LoginResponseModel { token: self.token@, user: self.user@ }
    }
}

/// The payload of a bearer token: the subject's id and username, and the
/// expiry instant (seconds since the epoch, UTC). Claims exist only inside
/// a signed token and are never stored.
#[derive(Debug)]
pub struct Claims {
    pub sub: i32,
    pub username: String,
    pub exp: i64,
}

/// The mathematical model of a [`Claims`].
pub ghost struct ClaimsModel {
    pub sub: int,
    pub username: Seq<char>,
    pub exp: int,
}

impl View for Claims {
    type V = ClaimsModel;

    open spec fn view(&self) -> ClaimsModel {
        ClaimsModel { sub: self.sub as int, username: self.username@, exp: self.exp as int }
    }
}

} // verus!
