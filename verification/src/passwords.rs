//! Passwords and the hashes that are stored in their place.

use argon2::password_hash::rand_core::OsRng;
use argon2::password_hash::{PasswordHash, PasswordHasher, PasswordVerifier, SaltString};
use argon2::Argon2;
use crate::text;
use vstd::prelude::*;

verus! {

/// Whether argon2 takes a password for the one that a hash was made of.
pub uninterp spec fn password_matches(hash: Seq<char>, password: Seq<char>) -> bool;

pub open spec fn is_digit(c: char) -> bool {
    '0' <= c <= '9'
}

/// Behind a `name` in a text stand more than `most` digits.
pub open spec fn has_long_number(s: Seq<char>, name: Seq<char>, most: int) -> bool {
    exists|i: int| #[trigger] text::occurs_at(s, name, i) && long_number_at(s, i + name.len(), most)
}

/// From position `i` on stand more than `most` digits.
pub open spec fn long_number_at(s: Seq<char>, i: int, most: int) -> bool {
    i + most < s.len() && forall|k: int| i <= k <= i + most ==> is_digit(#[trigger] s[k])
}

/// A hash that argon2 can be asked about. At most 2^24 - 1 lanes, a number of eight digits,
/// are allowed, and a number of lanes that is far larger is more than it can reckon with.
/// Where addresses have 32 bits, a million blocks of memory are more than can be addressed.
pub open spec fn is_checkable(hash: Seq<char>) -> bool {
    &&& !has_long_number(hash, "p="@, 8)
    &&& usize::MAX > 0xffff_ffff || !has_long_number(hash, "m="@, 6)
}

/// A password opens what a hash locks.
pub open spec fn accepts(hash: Seq<char>, password: Seq<char>) -> bool {
    is_checkable(hash) && password_matches(hash, password)
}

/// What came of the hashing of a password: a hash that accepts the password, or the reason
/// why there is none. Only a password of 4 GiB or more has none.
pub open spec fn hashes(hashed: Result<String, String>, password: Seq<char>) -> bool {
    &&& hashed matches Ok(hash) ==> accepts(hash@, password)
    &&& vstd::utf8::encode_utf8(password).len() <= 0xffff_ffff ==> hashed is Ok
}

/// `PasswordHash::new` and `PasswordVerifier::verify_password` of argon2, by the name of
/// their result. A text that is no hash is matched by no password. The check takes as much
/// memory as the hash says that it was made with.
#[verifier::external_body]
fn verify_password(hash: &str, password: &str) -> (r: bool)
    requires
        is_checkable(hash@),
    ensures
        r == password_matches(hash@, password@),
{
    match PasswordHash::new(hash) {
        Ok(h) => Argon2::default().verify_password(password.as_bytes(), &h).is_ok(),
        Err(_) => false,
    }
}

/// `PasswordHasher::hash_password` of argon2 with a random salt and its own parameters. It
/// gives a hash for every password of less than 4 GiB, with one lane and 19456 blocks of
/// memory, which the password matches. Which hash it is, chance decides.
#[verifier::external_body]
pub(crate) fn hash_password(password: &str) -> (r: Result<String, String>)
    ensures
        hashes(r, password@),
{
    let salt = SaltString::generate(&mut OsRng);
    let hashed = Argon2::default().hash_password(password.as_bytes(), &salt);
    hashed.map(|h| h.to_string()).map_err(|e| e.to_string())
}

fn long_number(v: &Vec<char>, from: usize, most: usize) -> (r: bool)
    requires
        from <= v@.len(),
    ensures
        r == long_number_at(v@, from as int, most as int),
{
    let mut k: usize = from;
    while k < v.len() && v[k] >= '0' && v[k] <= '9'
        invariant
            from <= k <= v@.len(),
            forall|j: int| from <= j < k ==> is_digit(#[trigger] v@[j]),
        ensures
            from <= k <= v@.len(),
            forall|j: int| from <= j < k ==> is_digit(#[trigger] v@[j]),
            k < v@.len() ==> !is_digit(v@[k as int]),
        decreases v@.len() - k,
    {
        k += 1;
    }
    k - from > most
}

fn finds_long_number(v: &Vec<char>, name: &str, most: usize) -> (r: bool)
    ensures
        r == has_long_number(v@, name@, most as int),
{
    let p = text::chars_of(name);
    let mut i: usize = 0;
    while i < v.len()
        invariant
            i <= v@.len(),
            p@ == name@,
            forall|j: int|
                0 <= j < i ==> !(#[trigger] text::occurs_at(v@, name@, j) && long_number_at(
                    v@,
                    j + name@.len(),
                    most as int,
                )),
        decreases v@.len() - i,
    {
        if text::occurs(v, &p, i) {
            assert(v.len() == v@.len() && p.len() == p@.len());
            if long_number(v, i + p.len(), most) {
                return true;
            }
        }
        i += 1;
    }
    proof {
        assert forall|j: int| #[trigger] text::occurs_at(v@, name@, j) implies !long_number_at(
            v@,
            j + name@.len(),
            most as int,
        ) by {}
    }
    false
}

/// Whether a password opens what a hash locks. What argon2 cannot be asked about opens to
/// nothing.
pub fn check_password(hash: &str, password: &str) -> (r: bool)
    ensures
        r == accepts(hash@, password@),
{
    let v = text::chars_of(hash);
    if finds_long_number(&v, "p=", 8) {
        return false;
    }
    if usize::MAX as u64 <= 0xffff_ffff && finds_long_number(&v, "m=", 6) {
        return false;
    }
    verify_password(hash, password)
}

/// Where no number in a hash has more than six digits, argon2 decides alone whether a password
/// opens what it locks. A hash with more than eight digits behind `p=` opens to nothing.
pub proof fn law_argon2_decides(hash: Seq<char>, password: Seq<char>, i: int)
    ensures
        (forall|k: int|
            0 <= k && k + 6 < hash.len() ==> !(is_digit(#[trigger] hash[k]) && is_digit(hash[k + 1])
                && is_digit(hash[k + 2]) && is_digit(hash[k + 3]) && is_digit(hash[k + 4])
                && is_digit(hash[k + 5]) && is_digit(hash[k + 6]))) ==> accepts(hash, password)
            == password_matches(hash, password),
        0 <= i && i + 10 < hash.len() && hash[i] == 'p' && hash[i + 1] == '=' && (forall|k: int|
            i + 2 <= k <= i + 10 ==> '0' <= #[trigger] hash[k] <= '9') ==> !accepts(hash, password),
{
    reveal_strlit("p=");
    reveal_strlit("m=");
    if forall|k: int|
        0 <= k && k + 6 < hash.len() ==> !(is_digit(#[trigger] hash[k]) && is_digit(hash[k + 1])
            && is_digit(hash[k + 2]) && is_digit(hash[k + 3]) && is_digit(hash[k + 4]) && is_digit(
            hash[k + 5],
        ) && is_digit(hash[k + 6])) {
        assert forall|k: int, most: int| 0 <= k && 6 <= most implies !#[trigger] long_number_at(
            hash,
            k,
            most,
        ) by {
            if long_number_at(hash, k, most) {
                assert(is_digit(hash[k]) && is_digit(hash[k + 1]) && is_digit(hash[k + 2])
                    && is_digit(hash[k + 3]) && is_digit(hash[k + 4]) && is_digit(hash[k + 5])
                    && is_digit(hash[k + 6]));
            }
        }
    }
    if 0 <= i && i + 10 < hash.len() && hash[i] == 'p' && hash[i + 1] == '=' && (forall|k: int|
        i + 2 <= k <= i + 10 ==> '0' <= #[trigger] hash[k] <= '9') {
        assert(hash.subrange(i, i + 2) =~= "p="@);
        assert(text::occurs_at(hash, "p="@, i));
        assert(long_number_at(hash, i + 2, 8));
    }
}

} // verus!
