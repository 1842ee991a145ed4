//! The keychain-style backend adapter: set, get and delete against the
//! credential store, addressed by the [`MacCredential`] variant of
//! [`PlatformIdentity`].
//!
//! Each operation first checks that the supplied identity matches this
//! adapter's platform and fails with
//! [`KeyringError::BadIdentityMapPlatform`], touching no storage, when it
//! does not. Secrets cross this interface as UTF-8 text: writing encodes
//! the string to raw bytes, and reading decodes the stored bytes, failing
//! with a distinct encoding error — never truncating or substituting —
//! when another tool has stored bytes that are not valid UTF-8.

use vstd::prelude::*;
use vstd::string::StrSliceExecFns;
use vstd::utf8::{decode_utf8, encode_utf8, valid_utf8};

use crate::attrs::{MacCredential, Platform, PlatformIdentity};
use crate::error::{Error, ErrorCause, KeyringError};
use crate::store::CredentialStore;

verus! {

/// The platform whose backend adapter is compiled into this build.
pub fn platform() -> (r: Platform)
    ensures
        r == Platform::MacOs,
{
    Platform::MacOs
}

/// The store address a keychain credential refers to.
pub open spec fn mac_address(c: MacCredential) -> (Seq<char>, Seq<char>) {
    (c.service@, c.account@)
}

/// Relies on `String::from_utf8`: it succeeds exactly on bytes that are
/// valid UTF-8, returning the string those bytes encode, and on failure
/// `Utf8Error::valid_up_to` reports the length of the longest prefix of
/// the bytes that is valid UTF-8.
#[verifier::external_body]
fn decode_secret(bytes: &Vec<u8>) -> (r: Result<String, usize>)
    ensures
        match r {
            Ok(s) => {
                &&& valid_utf8(bytes@)
                &&& encode_utf8(s@) == bytes@
                &&& s@ == decode_utf8(bytes@)
            },
            Err(valid_up_to) => {
                &&& !valid_utf8(bytes@)
                &&& valid_up_to <= bytes@.len()
                &&& valid_utf8(bytes@.subrange(0, valid_up_to as int))
                &&& forall|j: int|
                    valid_up_to < j <= bytes@.len() ==> !valid_utf8(bytes@.subrange(0, j))
            },
        },
{
    match String::from_utf8(bytes.clone()) {
        Ok(s) => Ok(s),
        Err(e) => Err(e.utf8_error().valid_up_to()),
    }
}

/// Stores `password` under the given identity: an upsert that creates the
/// entry if absent and overwrites any existing secret at the same address.
/// Fails with `BadIdentityMapPlatform`, touching no storage, when the
/// identity is not this adapter's variant.
pub fn set_password(store: &mut CredentialStore, map: &PlatformIdentity, password: &str) -> (r:
    Result<(), Error>)
    ensures
        match *map {
            PlatformIdentity::Mac(c) => {
                &&& r is Ok
                &&& final(store).contents() == old(store).contents().insert(
                    mac_address(c),
                    encode_utf8(password@),
                )
            },
            _ => {
                &&& r matches Err(e) && e == (Error {
                    kind: KeyringError::BadIdentityMapPlatform,
                    cause: None,
                })
                &&& final(store).contents() == old(store).contents()
            },
        },
{
    if let PlatformIdentity::Mac(c) = map {
        let bytes = password.as_bytes_vec();
        store.write(&c.service, &c.account, bytes);
        Ok(())
    } else {
        Err(Error::from(KeyringError::BadIdentityMapPlatform))
    }
}

/// Reads the secret stored under the given identity back as text. Fails
/// with `NoEntry` when no secret is stored at the address, and with the
/// distinct encoding error — carrying how far the bytes were valid — when
/// the stored bytes are not valid UTF-8.
pub fn get_password(store: &CredentialStore, map: &PlatformIdentity) -> (r: Result<String, Error>)
    ensures
        match *map {
            PlatformIdentity::Mac(c) => {
                let k = mac_address(c);
                &&& !store.contents().contains_key(k) ==> (r matches Err(e) && e == (Error {
                    kind: KeyringError::NoEntry,
                    cause: None,
                }))
                &&& store.contents().contains_key(k) && valid_utf8(store.contents()[k]) ==> (
                r matches Ok(s) && s@ == decode_utf8(store.contents()[k]))
                &&& store.contents().contains_key(k) && !valid_utf8(store.contents()[k]) ==> (
                r matches Err(e) && {
                    &&& e.kind == KeyringError::BadEncoding
                    &&& e.cause matches Some(ErrorCause::Encoding { valid_up_to })
                        && valid_up_to <= store.contents()[k].len() && valid_utf8(
                        store.contents()[k].subrange(0, valid_up_to as int),
                    ) && (forall|j: int|
                        valid_up_to < j <= store.contents()[k].len() ==> !valid_utf8(
                            store.contents()[k].subrange(0, j),
                        ))
                })
            },
            _ => r matches Err(e) && e == (Error {
                kind: KeyringError::BadIdentityMapPlatform,
                cause: None,
            }),
        },
{
    if let PlatformIdentity::Mac(c) = map {
        match store.find(&c.service, &c.account) {
            Some(bytes) => match decode_secret(bytes) {
                Ok(s) => Ok(s),
                Err(valid_up_to) => Err(Error::new_from_encoding(valid_up_to)),
            },
            None => Err(Error::from(KeyringError::NoEntry)),
        }
    } else {
        Err(Error::from(KeyringError::BadIdentityMapPlatform))
    }
}

/// Deletes the secret stored under the given identity. The entry is looked
/// up first, exactly as a read would: deleting where nothing is stored is
/// an error, `NoEntry`, never a silent success.
pub fn delete_password(store: &mut CredentialStore, map: &PlatformIdentity) -> (r: Result<
    (),
    Error,
>)
    ensures
        match *map {
            PlatformIdentity::Mac(c) => {
                let k = mac_address(c);
                &&& old(store).contents().contains_key(k) ==> r is Ok && final(store).contents()
                    == old(store).contents().remove(k)
                &&& !old(store).contents().contains_key(k) ==> (r matches Err(e) && e == (Error {
                    kind: KeyringError::NoEntry,
                    cause: None,
                }) && final(store).contents() == old(store).contents())
            },
            _ => {
                &&& r matches Err(e) && e == (Error {
                    kind: KeyringError::BadIdentityMapPlatform,
                    cause: None,
                })
                &&& final(store).contents() == old(store).contents()
            },
        },
{
    if let PlatformIdentity::Mac(c) = map {
        let present = store.find(&c.service, &c.account).is_some();
        if present {
            store.delete(&c.service, &c.account);
            Ok(())
        } else {
            Err(Error::from(KeyringError::NoEntry))
        }
    } else {
        Err(Error::from(KeyringError::BadIdentityMapPlatform))
    }
}

/// Round trip: whatever was stored before, writing a secret at an address
/// leaves bytes there that are valid UTF-8 and decode to exactly that
/// secret, so a read straight after a write returns the secret unchanged.
pub proof fn lemma_round_trip(
    m: Map<(Seq<char>, Seq<char>), Seq<u8>>,
    service: Seq<char>,
    account: Seq<char>,
    secret: Seq<char>,
)
    ensures
        ({
            let m2 = m.insert((service, account), encode_utf8(secret));
            &&& m2.contains_key((service, account))
            &&& valid_utf8(m2[(service, account)])
            &&& decode_utf8(m2[(service, account)]) == secret
        }),
{
    broadcast use vstd::utf8::encode_utf8_valid_utf8, vstd::utf8::encode_utf8_decode_utf8;

}

/// Overwrite: writing twice at the same address leaves exactly the store
/// that the second write alone would have left, so only the second secret
/// remains readable there.
pub proof fn lemma_overwrite(
    m: Map<(Seq<char>, Seq<char>), Seq<u8>>,
    service: Seq<char>,
    account: Seq<char>,
    first: Seq<char>,
    second: Seq<char>,
)
    ensures
        ({
            let k = (service, account);
            let m2 = m.insert(k, encode_utf8(first)).insert(k, encode_utf8(second));
            &&& m2 == m.insert(k, encode_utf8(second))
            &&& decode_utf8(m2[k]) == second
        }),
{
    broadcast use vstd::utf8::encode_utf8_decode_utf8;

    let k = (service, account);
    assert(m.insert(k, encode_utf8(first)).insert(k, encode_utf8(second)) =~= m.insert(
        k,
        encode_utf8(second),
    ));
}

/// Deletion: once the entry at an address is removed, no secret is stored
/// there, so a read after a successful delete fails with `NoEntry`.
pub proof fn lemma_deletion(
    m: Map<(Seq<char>, Seq<char>), Seq<u8>>,
    service: Seq<char>,
    account: Seq<char>,
)
    ensures
        !m.remove((service, account)).contains_key((service, account)),
{
}

} // verus!
