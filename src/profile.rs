use vstd::prelude::*;

verus! {

/// What `str::to_lowercase` makes of a string.
pub uninterp spec fn lower_of(s: Seq<char>) -> Seq<char>;

/// Relies on `str::to_lowercase`: the result depends on the characters alone.
#[verifier::external_body]
fn lowercase(s: &str) -> (r: String)
    ensures
        r@ == lower_of(s@),
{
    s.to_lowercase()
}

/// The address of a character's profile, for a name already in lower case.
pub open spec fn profile_url_of(lowered: Seq<char>) -> Seq<char> {
    "https://us.api.blizzard.com/profile/wow/character/nightslayer/"@ + lowered
        + "?namespace=profile-classicann-us&locale=en_US"@
}

/// The address of the profile of the character whose name, in lower case, is
/// `lowered`.
pub fn profile_url_for(lowered: &str) -> (r: String)
    ensures
        r@ == profile_url_of(lowered@),
{
    let mut r = String::new();
    r.append("https://us.api.blizzard.com/profile/wow/character/nightslayer/");
    r.append(lowered);
    r.append("?namespace=profile-classicann-us&locale=en_US");
    r
}

/// The address of the profile of the character `name`; the service is asked
/// for the name in lower case.
pub fn profile_url(name: &str) -> (r: String)
    ensures
        r@ == profile_url_of(lower_of(name@)),
{
    let lowered = lowercase(name);
    profile_url_for(lowered.as_str())
}

} // verus!
