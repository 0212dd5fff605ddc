//! Links of a page, resolved against the address of the page.

use vstd::prelude::*;
use crate::text::text_of;

verus! {

/// The address that `href` stands for on a page whose address is `base`, as
/// `url::Url::join` resolves it, in its normal form: an absolute `href`
/// stands for itself, one that begins with a slash replaces the path of the
/// base, any other is taken relative to the base's path. `None` where
/// `url::Url::parse` refuses the base or `join` refuses the `href`.
pub uninterp spec fn url_joined(base: Seq<char>, href: Seq<char>) -> Option<Seq<char>>;

/// Calls `url::Url::parse` on the base and `url::Url::join` with the link,
/// and turns the address into a string, as `Url`'s conversion does. Trusted:
/// the answer is the one named by [`url_joined`].
#[verifier::external_body]
pub(crate) fn join_url(base: &str, href: &str) -> (address: Option<String>)
    ensures
        text_of(address) == url_joined(base@, href@),
{
    match url::Url::parse(base) {
        Ok(parsed) => match parsed.join(href) {
            Ok(address) => Some(address.into()),
            Err(_) => None,
        },
        Err(_) => None,
    }
}

} // verus!
