//! Secrets held in memory that is wiped when they are dropped, by the
//! `zeroize` crate's `Zeroizing` wrapper.

use vstd::prelude::*;
use zeroize::{Zeroize, Zeroizing};

verus! {

/// A byte buffer inside `zeroize::Zeroizing`, zeroed in place when dropped.
/// `Zeroizing` cannot be declared to Verus (its parameter is bound by the
/// outside trait `Zeroize`), so the buffer sits in a struct whose field
/// Verus does not see; `secret_bytes` names what it holds.
#[verifier::external_body]
pub struct SecretBytes {
    inner: Zeroizing<Vec<u8>>,
}

/// A string inside `zeroize::Zeroizing`, zeroed in place when dropped.
#[verifier::external_body]
pub struct SecretText {
    inner: Zeroizing<String>,
}

/// The bytes that a wiped-on-drop buffer holds.
pub uninterp spec fn secret_bytes(s: SecretBytes) -> Seq<u8>;

/// The text that a wiped-on-drop string holds.
pub uninterp spec fn secret_text(s: SecretText) -> Seq<char>;

/// Moves a buffer into `Zeroizing::new`, which keeps it unchanged (its
/// source is `Self(value)`).
#[verifier::external_body]
pub(crate) fn seal_bytes(bytes: Vec<u8>) -> (s: SecretBytes)
    ensures
        secret_bytes(s) == bytes@,
{
    SecretBytes { inner: Zeroizing::new(bytes) }
}

/// Reads the buffer through `Zeroizing`'s `Deref`, which returns `&self.0`.
#[verifier::external_body]
pub(crate) fn sealed_bytes(s: &SecretBytes) -> (b: &[u8])
    ensures
        b@ == secret_bytes(*s),
{
    s.inner.as_slice()
}

/// Moves a string into `Zeroizing::new`, which keeps it unchanged.
#[verifier::external_body]
pub(crate) fn seal_text(text: String) -> (s: SecretText)
    ensures
        secret_text(s) == text@,
{
    SecretText { inner: Zeroizing::new(text) }
}

/// Reads the string through `Zeroizing`'s `Deref`, which returns `&self.0`.
#[verifier::external_body]
pub(crate) fn sealed_text(s: &SecretText) -> (t: &str)
    ensures
        t@ == secret_text(*s),
{
    s.inner.as_str()
}


/// Appends a character with `String::push`, through `Zeroizing`'s `DerefMut`.
#[verifier::external_body]
pub(crate) fn secret_push(s: &mut SecretText, c: char)
    ensures
        secret_text(*final(s)) == secret_text(*old(s)).push(c),
{
    s.inner.push(c)
}

/// Appends text with `String::push_str`, through `Zeroizing`'s `DerefMut`.
#[verifier::external_body]
pub(crate) fn secret_push_str(s: &mut SecretText, t: &str)
    ensures
        secret_text(*final(s)) == secret_text(*old(s)) + t@,
{
    s.inner.push_str(t)
}

/// Removes the last character with `String::pop`.
#[verifier::external_body]
pub(crate) fn secret_pop(s: &mut SecretText) -> (c: Option<char>)
    ensures
        secret_text(*old(s)).len() == 0 ==> c is None && secret_text(*final(s)) == secret_text(
            *old(s),
        ),
        secret_text(*old(s)).len() > 0 ==> c == Some(secret_text(*old(s)).last()) && secret_text(
            *final(s),
        ) == secret_text(*old(s)).drop_last(),
{
    s.inner.pop()
}

/// Zeroes the text in place with `Zeroize::zeroize`, which for a `String`
/// zeroes its bytes and clears it.
#[verifier::external_body]
pub(crate) fn secret_wipe(s: &mut SecretText)
    ensures
        secret_text(*final(s)) == Seq::<char>::empty(),
{
    s.inner.zeroize()
}

/// Moves the text out with `std::mem::take`, leaving an empty string behind.
#[verifier::external_body]
pub(crate) fn secret_take(s: &mut SecretText) -> (t: String)
    ensures
        t@ == secret_text(*old(s)),
        secret_text(*final(s)) == Seq::<char>::empty(),
{
    std::mem::take(&mut *s.inner)
}

/// Zeroes a plain string in place with `Zeroize::zeroize` and clears it.
#[verifier::external_body]
pub(crate) fn wipe_string(s: &mut String)
    ensures
        final(s)@ == Seq::<char>::empty(),
{
    s.zeroize()
}

} // verus!
