//! A player's registered identity: a null-terminated CP866 name and an
//! optional password hash.

use crate::utils::{convert_cp866_to_utf8, cp866_chars, spec_dec5_u16, u16_to_dec5_bytes};
use std::collections::hash_map::DefaultHasher;
use std::hash::Hasher;
use vstd::prelude::*;
use vstd::std_specs::hash::DefaultHasherAdditionalSpecFns;

verus! {

/// The 64-bit non-cryptographic hash under which a password is stored.
pub open spec fn spec_pwd_hash(pwd: Seq<u8>) -> u64 {
    DefaultHasher::spec_finish(seq![pwd])
}

/// Hashes a password; the stored form never holds the password itself.
fn get_hash_pwd(pwd: &[u8]) -> (r: u64)
    ensures
        r == spec_pwd_hash(pwd@),
{
    let mut hasher = DefaultHasher::new();
    hasher.write(pwd);
    hasher.finish()
}

/// The mathematical value of an `Auth`.
#[verifier::ext_equal]
pub ghost struct AuthModel {
    pub name: Seq<u8>,
    pub pwd: Option<u64>,
}

/// The default name given to a player that registers with an empty name:
/// `Player-` followed by five decimal digits and a null byte.
pub open spec fn spec_default_name(n: u16) -> Seq<u8> {
    seq![80u8, 108u8, 97u8, 121u8, 101u8, 114u8, 45u8] + spec_dec5_u16(n) + seq![0u8]
}

/// Relies on `rand::random`: a 16-bit value drawn from the thread-local
/// generator; nothing can be promised of it.
#[verifier::external_body]
fn random_u16() -> u16 {
    rand::random::<u16>()
}

/// A player's name, password hash and display helpers. The stored name is
/// always null-terminated and never empty.
#[derive(Debug)]
pub struct Auth {
    name: Vec<u8>,
    pwd: Option<u64>,
}

impl View for Auth {
    type V = AuthModel;

    closed spec fn view(&self) -> AuthModel {
        AuthModel { name: self.name@, pwd: self.pwd }
    }
}

impl DeepView for Auth {
    type V = AuthModel;

    open spec fn deep_view(&self) -> AuthModel {
        self.view()
    }
}

#[verifier::type_invariant]
spec fn auth_inv(a: Auth) -> bool {
    &&& a.name@.len() >= 1
    &&& a.name@[a.name@.len() - 1] == 0
}

impl Auth {
    /// Stores a name and password. A name without a trailing null byte gets
    /// one; an empty name is replaced by `Player-NNNNN` for a random five
    /// digit number; an empty password is stored as no password at all.
    pub fn new(name: &[u8], pwd: &[u8]) -> (r: Self)
        ensures
            name@.len() == 0 ==> exists|n: u16| r@.name == spec_default_name(n),
            name@.len() > 0 && name@[name@.len() - 1] == 0 ==> r@.name == name@,
            name@.len() > 0 && name@[name@.len() - 1] != 0 ==> r@.name == name@ + seq![0u8],
            r@.pwd == if pwd@.len() > 0 {
                Some(spec_pwd_hash(pwd@))
            } else {
                None::<u64>
            },
    {
        let name_vec: Vec<u8> = if name.len() == 0 {
            let n = random_u16();
            let mut v: Vec<u8> = vec![80u8, 108u8, 97u8, 121u8, 101u8, 114u8, 45u8];
            let mut digits = u16_to_dec5_bytes(n);
            v.append(&mut digits);
            v.push(0);
            assert(v@ =~= spec_default_name(n));
            v
        } else if name[name.len() - 1] == 0 {
            vstd::slice::slice_to_vec(name)
        } else {
            let mut v = vstd::slice::slice_to_vec(name);
            v.push(0);
            assert(v@ =~= name@ + seq![0u8]);
            v
        };

        let pwd = if pwd.len() > 0 {
            Some(get_hash_pwd(pwd))
        } else {
            None
        };

        Self { name: name_vec, pwd }
    }

    /// The stored name, trailing null byte included.
    pub fn name(&self) -> (r: &[u8])
        ensures
            r@ == self@.name,
            r@.len() >= 1,
            r@[r@.len() - 1] == 0,
    {
        proof {
            use_type_invariant(self);
        }
        self.name.as_slice()
    }

    /// The stored name decoded from CP866 for display, without the trailing
    /// null byte.
    pub fn name_utf8(&self) -> (r: String)
        ensures
            r@ == cp866_chars(self@.name.take(self@.name.len() - 1)),
    {
        proof {
            use_type_invariant(self);
        }
        let end = self.name.len() - 1;
        let prefix = vstd::slice::slice_subrange(self.name.as_slice(), 0, end);
        match convert_cp866_to_utf8(prefix) {
            Some(s) => s,
            None => "unknown".to_owned(),
        }
    }
}

} // verus!
