//! Identifiers from the uuid crate.
use vstd::prelude::*;

verus! {

/// A lower-case hexadecimal digit.
pub open spec fn is_hex(c: char) -> bool {
    ('0' <= c && c <= '9') || ('a' <= c && c <= 'f')
}

/// The hyphenated form of an identifier.
pub open spec fn is_uuid_text(s: Seq<char>) -> bool {
    &&& s.len() == 36
    &&& forall|i: int|
        0 <= i < 36 ==> if i == 8 || i == 13 || i == 18 || i == 23 {
            #[trigger] s[i] == '-'
        } else {
            is_hex(s[i])
        }
}

/// `Uuid::new_v4().to_string()` of the uuid crate: a random identifier in hyphenated
/// lower-case form. Which one it is depends on chance.
#[verifier::external_body]
pub(crate) fn random_uuid() -> (id: String)
    ensures
        is_uuid_text(id@),
{
    uuid::Uuid::new_v4().to_string()
}

/// What `Uuid::new_v5` of the uuid crate makes of a name in the namespace for URLs, in
/// hyphenated lower-case form.
pub uninterp spec fn name_uuid(name: Seq<char>) -> Seq<char>;

/// `Uuid::new_v5(&Uuid::NAMESPACE_URL, ..).to_string()` of the uuid crate: the
/// identifier of a name. It is a function of the name alone.
#[verifier::external_body]
pub(crate) fn uuid_for_name(name: &str) -> (id: String)
    ensures
        id@ == name_uuid(name@),
        is_uuid_text(id@),
{
    uuid::Uuid::new_v5(&uuid::Uuid::NAMESPACE_URL, name.as_bytes()).to_string()
}

} // verus!
