//! Password domain parsing: a password must meet a strength policy, and is
//! then hashed with Argon2id into a PHC string that is checked to verify.

use vstd::prelude::*;
use vstd::string::StringSliceAdditionalSpecFns;

use crate::error::AuthenticationError;
use crate::json::{decimal, digits_of};
use argon2::{PasswordHasher, PasswordVerifier};

verus! {

/// Memory cost of the service's Argon2id hashing, in KiB.
pub const ARGON2_M_COST: u32 = 15000;

/// Iterations of the service's Argon2id hashing.
pub const ARGON2_T_COST: u32 = 2;

/// Parallelism of the service's Argon2id hashing.
pub const ARGON2_P_COST: u32 = 1;

/// `argon2::Params`.
#[verifier::external_type_specification]
#[verifier::external_body]
pub struct ExArgon2Params(argon2::Params);

/// `argon2::Argon2`.
#[verifier::external_type_specification]
#[verifier::external_body]
pub struct ExArgon2<'key>(argon2::Argon2<'key>);

/// `argon2::password_hash::SaltString`.
#[verifier::external_type_specification]
#[verifier::external_body]
pub struct ExSaltString(argon2::password_hash::SaltString);

/// Argon2 cost parameters (`argon2::Params`) together with the memory,
/// iteration and parallelism costs they were made from. Only
/// `argon2_params` makes one.
pub struct Argon2Params {
    params: argon2::Params,
    m_cost: u32,
    t_cost: u32,
    p_cost: u32,
}

impl Argon2Params {
    /// The memory, iteration and parallelism costs.
    pub closed spec fn costs(&self) -> (u32, u32, u32) {
        (self.m_cost, self.t_cost, self.p_cost)
    }
}

/// An Argon2id (version 0x13) hasher (`argon2::Argon2`) together with its
/// memory, iteration and parallelism costs. Only `argon2id_v19` makes one.
pub struct Argon2idHasher {
    inner: argon2::Argon2<'static>,
    m_cost: u32,
    t_cost: u32,
    p_cost: u32,
}

impl Argon2idHasher {
    /// The memory, iteration and parallelism costs.
    pub closed spec fn costs(&self) -> (u32, u32, u32) {
        (self.m_cost, self.t_cost, self.p_cost)
    }
}

/// A salt made by `SaltString::generate`: 16 random bytes, B64-encoded.
/// Only `generate_salt` makes one.
pub struct GeneratedSalt(argon2::password_hash::SaltString);

/// `argon2::Params::new(m_cost, t_cost, p_cost, None)`, as an `Option`,
/// kept with the costs it was given. Per its source, with `p_cost` between 1
/// and 2^24 - 1 it succeeds exactly when `m_cost` is at least `8 * p_cost`
/// and `t_cost` at least 1.
#[verifier::external_body]
pub(crate) fn argon2_params(m_cost: u32, t_cost: u32, p_cost: u32) -> (r: Option<Argon2Params>)
    requires
        1 <= p_cost <= 0xffffff,
    ensures
        r is Some <==> (m_cost >= 8 * p_cost && t_cost >= 1),
        r matches Some(x) ==> x.costs() == (m_cost, t_cost, p_cost),
{
    match argon2::Params::new(m_cost, t_cost, p_cost, None) {
        Ok(params) => Some(Argon2Params { params, m_cost, t_cost, p_cost }),
        Err(_) => None,
    }
}

/// `argon2::Argon2::new(Algorithm::Argon2id, Version::V0x13, params)`, kept
/// with the costs of the parameters.
#[verifier::external_body]
pub(crate) fn argon2id_v19(params: Argon2Params) -> (r: Argon2idHasher)
    ensures
        r.costs() == params.costs(),
{
    Argon2idHasher {
        inner: argon2::Argon2::new(argon2::Algorithm::Argon2id, argon2::Version::V0x13, params.params),
        m_cost: params.m_cost,
        t_cost: params.t_cost,
        p_cost: params.p_cost,
    }
}

/// `SaltString::generate(&mut rand::thread_rng())`: a fresh random salt of
/// 16 bytes. The bytes are chance, so nothing is stated of them.
#[verifier::external_body]
pub(crate) fn generate_salt() -> (r: GeneratedSalt) {
    GeneratedSalt(argon2::password_hash::SaltString::generate(&mut rand::thread_rng()))
}

/// The start of the PHC string of an Argon2id (version 0x13) hash with the
/// given costs: `$argon2id$v=19$m=..,t=..,p=..$`, before the salt.
pub open spec fn phc_prefix(costs: (u32, u32, u32)) -> Seq<char> {
    "$argon2id$v=19$m="@ + decimal(costs.0 as int) + ",t="@ + decimal(costs.1 as int) + ",p="@ + decimal(
        costs.2 as int,
    ) + "$"@
}

/// Whether a text starts with a prefix.
pub open spec fn starts_with(t: Seq<char>, prefix: Seq<char>) -> bool {
    prefix.len() <= t.len() && t.subrange(0, prefix.len() as int) == prefix
}

/// `PasswordHasher::hash_password` of the hasher on the password bytes and
/// the salt, written as its PHC string (`PasswordHash::to_string`); an error
/// of the crate is reported as `Err(())`. The string depends on the random
/// salt, so it is not named. What the crate's source shows of every outcome
/// is stated: with a generated salt (16 bytes, within Argon2's 8-byte
/// minimum) and a password of at most `u32::MAX` bytes, hashing succeeds;
/// the string starts with the algorithm, version and the hasher's costs
/// (`argon2`'s `ParamsString` of `m`, `t`, `p`, with no key id or data);
/// and verification (which recomputes the hash from what the string
/// records) accepts the same password against it.
#[verifier::external_body]
pub(crate) fn argon2_hash_password(
    hasher: &Argon2idHasher,
    password: &[u8],
    salt: &GeneratedSalt,
) -> (r: Result<String, ()>)
    ensures
        password@.len() <= 0xffff_ffff ==> r is Ok,
        r matches Ok(h) ==> spec_argon2_verifies(password@, h@) == Some(true),
        r matches Ok(h) ==> starts_with(h@, phc_prefix(hasher.costs())),
{
    hasher.inner.hash_password(password, &salt.0).map(|h| h.to_string()).map_err(|_| ())
}

/// What verifying a password against a PHC string gives: `None` when
/// `PasswordHash::new` rejects the string, else whether
/// `PasswordVerifier::verify_password` accepts the password.
pub uninterp spec fn spec_argon2_verifies(password: Seq<u8>, phc: Seq<char>) -> Option<bool>;

/// `argon2::PasswordHash::new(phc)` followed by
/// `PasswordVerifier::verify_password(hasher, password, &hash).is_ok()`.
/// Per the `password-hash` source, verification recomputes the hash with the
/// algorithm, version, parameters and salt written in the PHC string (only the
/// hasher's secret, none here, is kept), so the result is named as a function
/// of the password and the string alone.
#[verifier::external_body]
pub(crate) fn argon2_verify_password(hasher: &Argon2idHasher, password: &[u8], phc: &str) -> (r: Option<bool>)
    ensures
        r == spec_argon2_verifies(password@, phc@),
{
    match argon2::PasswordHash::new(phc) {
        Ok(parsed) => Some(hasher.inner.verify_password(password, &parsed).is_ok()),
        Err(_) => None,
    }
}

/// The costs of the service's hashing.
pub open spec fn service_costs() -> (u32, u32, u32) {
    (ARGON2_M_COST, ARGON2_T_COST, ARGON2_P_COST)
}

/// The start of the PHC string of every hash the service makes.
pub open spec fn service_phc_prefix() -> Seq<char> {
    phc_prefix(service_costs())
}

/// The service's hashes start with `$argon2id$v=19$m=15000,t=2,p=1$`.
pub proof fn lemma_service_phc_prefix()
    ensures
        service_phc_prefix() == "$argon2id$v=19$m=15000,t=2,p=1$"@,
{
    reveal_with_fuel(digits_of, 6);
    assert(decimal(15000) =~= seq!['1', '5', '0', '0', '0']);
    assert(decimal(2) =~= seq!['2']);
    assert(decimal(1) =~= seq!['1']);
    reveal_strlit("$argon2id$v=19$m=");
    reveal_strlit(",t=");
    reveal_strlit(",p=");
    reveal_strlit("$");
    reveal_strlit("$argon2id$v=19$m=15000,t=2,p=1$");
    assert(service_phc_prefix() =~= "$argon2id$v=19$m=15000,t=2,p=1$"@);
}

/// The service's Argon2id (version 0x13) hasher with its fixed costs.
pub(crate) fn service_hasher() -> (r: Argon2idHasher)
    ensures
        r.costs() == service_costs(),
{
    let params = argon2_params(ARGON2_M_COST, ARGON2_T_COST, ARGON2_P_COST);
    match params {
        Some(p) => argon2id_v19(p),
        None => vstd::pervasive::unreached(),
    }
}

/// A byte that is an upper-case ASCII letter.
pub open spec fn is_upper(b: u8) -> bool {
    65 <= b <= 90
}

/// A byte that is a lower-case ASCII letter.
pub open spec fn is_lower(b: u8) -> bool {
    97 <= b <= 122
}

/// A byte that is an ASCII digit.
pub open spec fn is_digit(b: u8) -> bool {
    48 <= b <= 57
}

/// A byte that is neither an ASCII letter nor an ASCII digit.
pub open spec fn is_special(b: u8) -> bool {
    b < 48 || (57 < b && b < 65) || (90 < b && b < 97) || b > 122
}

/// Whether some byte of `s` satisfies `p`.
pub open spec fn has_byte(s: Seq<u8>, p: spec_fn(u8) -> bool) -> bool {
    exists|i: int| 0 <= i < s.len() && p(#[trigger] s[i])
}

/// The password policy over the password's UTF-8 bytes: 12 to 255 bytes,
/// with an upper-case letter, a lower-case letter, a digit and a byte that
/// is none of these.
pub open spec fn meets_password_policy(s: Seq<u8>) -> bool {
    &&& 12 <= s.len() <= 255
    &&& has_byte(s, |b: u8| is_upper(b))
    &&& has_byte(s, |b: u8| is_lower(b))
    &&& has_byte(s, |b: u8| is_digit(b))
    &&& has_byte(s, |b: u8| is_special(b))
}

/// Whether a password meets the policy (checked on its UTF-8 bytes).
pub fn password_meets_policy(password: &str) -> (r: bool)
    ensures
        r == meets_password_policy(password.spec_bytes()),
{
    let bytes = password.as_bytes();
    let n = bytes.len();
    let mut upper = false;
    let mut lower = false;
    let mut digit = false;
    let mut special = false;
    let mut i: usize = 0;
    while i < n
        invariant
            n == bytes@.len(),
            bytes@ == password.spec_bytes(),
            i <= n,
            upper == exists|j: int| 0 <= j < i && is_upper(#[trigger] bytes@[j]),
            lower == exists|j: int| 0 <= j < i && is_lower(#[trigger] bytes@[j]),
            digit == exists|j: int| 0 <= j < i && is_digit(#[trigger] bytes@[j]),
            special == exists|j: int| 0 <= j < i && is_special(#[trigger] bytes@[j]),
        decreases n - i,
    {
        let b = bytes[i];
        if b >= 65 && b <= 90 {
            upper = true;
        }
        if b >= 97 && b <= 122 {
            lower = true;
        }
        if b >= 48 && b <= 57 {
            digit = true;
        }
        if b < 48 || (b > 57 && b < 65) || (b > 90 && b < 97) || b > 122 {
            special = true;
        }
        i = i + 1;
    }
    let ghost s = bytes@;
    assert(upper == has_byte(s, |b: u8| is_upper(b)));
    assert(lower == has_byte(s, |b: u8| is_lower(b)));
    assert(digit == has_byte(s, |b: u8| is_digit(b)));
    assert(special == has_byte(s, |b: u8| is_special(b)));
    n >= 12 && n <= 255 && upper && lower && digit && special
}

/// A password that met the policy, held as its Argon2id PHC hash string.
#[derive(Debug, Clone)]
pub struct Password(String);

impl View for Password {
    type V = Seq<char>;

    closed spec fn view(&self) -> Seq<char> {
        self.0@
    }
}

impl Password {
    /// Parses a password: `PasswordFormatInvalid` when it does not meet the
    /// policy; otherwise it is hashed and the hash checked to verify, and the
    /// password holds the hash (`PasswordParseError` when hashing fails or
    /// the hash does not verify).
    pub fn parse(password: &str) -> (r: Result<Password, AuthenticationError>)
        ensures
            !meets_password_policy(password.spec_bytes()) <==> r matches Err(AuthenticationError::PasswordFormatInvalid),
            r is Err ==> r matches Err(AuthenticationError::PasswordFormatInvalid)
                || r matches Err(AuthenticationError::PasswordParseError),
            r matches Ok(p) ==> spec_argon2_verifies(password.spec_bytes(), p@) == Some(true),
            meets_password_policy(password.spec_bytes()) ==> (r matches Ok(p) && starts_with(p@, service_phc_prefix())),
    {
        if !password_meets_policy(password) {
            Err(AuthenticationError::PasswordFormatInvalid)
        } else {
            match compute_password_hash_and_verify(password) {
                Ok(hash) => Ok(Password(hash)),
                Err(e) => Err(e),
            }
        }
    }

    /// A password hash held as given.
    pub fn from(value: String) -> (r: Password)
        ensures
            r@ == value@,
    {
        Password(value)
    }

    /// The hash string.
    pub fn as_str(&self) -> (r: &str)
        ensures
            r@ == self@,
    {
        self.0.as_str()
    }

    /// The hash string, as displayed.
    pub fn to_string(&self) -> (r: String)
        ensures
            r@ == self@,
    {
        String::from_str(self.0.as_str())
    }
}

/// Hashes a password with the service's Argon2id hasher and a fresh random
/// salt, and checks that the hash verifies: the hash on success, else
/// `PasswordParseError`. Every password of at most `u32::MAX` bytes is
/// hashed, and its hash starts with the service's algorithm, version and
/// costs.
pub fn compute_password_hash_and_verify(password: &str) -> (r: Result<String, AuthenticationError>)
    ensures
        r matches Ok(h) ==> spec_argon2_verifies(password.spec_bytes(), h@) == Some(true),
        r matches Ok(h) ==> starts_with(h@, service_phc_prefix()),
        password.spec_bytes().len() <= 0xffff_ffff ==> r is Ok,
        r is Err ==> r matches Err(AuthenticationError::PasswordParseError),
{
    let salt = generate_salt();
    let hasher = service_hasher();
    let hash = match argon2_hash_password(&hasher, password.as_bytes(), &salt) {
        Ok(h) => h,
        Err(_) => return Err(AuthenticationError::PasswordParseError),
    };
    match verify_password_hash(password, hash.as_str()) {
        Ok(true) => Ok(hash),
        _ => Err(AuthenticationError::PasswordParseError),
    }
}

/// Verifies a password against a PHC hash string: `Ok(true)` or `Ok(false)`
/// as Argon2 verification decides, `PasswordParseError` when the string is
/// not a PHC hash.
pub fn verify_password_hash(password: &str, password_hash: &str) -> (r: Result<bool, AuthenticationError>)
    ensures
        match spec_argon2_verifies(password.spec_bytes(), password_hash@) {
            Some(v) => r == Ok::<bool, AuthenticationError>(v),
            None => r matches Err(AuthenticationError::PasswordParseError),
        },
{
    let hasher = service_hasher();
    match argon2_verify_password(&hasher, password.as_bytes(), password_hash) {
        Some(v) => Ok(v),
        None => Err(AuthenticationError::PasswordParseError),
    }
}

} // verus!
