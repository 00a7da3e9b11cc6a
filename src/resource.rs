//! Where the lighting API's resources live, relative to its base address.
use vstd::prelude::*;

verus! {

/// The hyphenated lower-case text of the UUID whose 128-bit value is `id`.
pub uninterp spec fn uuid_text(id: u128) -> Seq<char>;

/// Relies on uuid's `Uuid::from_u128` and its hyphenated `Display`: the text of
/// a UUID depends on its value alone and is 36 characters long.
#[verifier::external_body]
fn hyphenated_uuid(id: u128) -> (r: String)
    ensures
        r@ == uuid_text(id),
        r@.len() == 36,
{
    uuid::Uuid::from_u128(id).hyphenated().to_string()
}

/// The path of the grouped light whose identifier reads `id_text`.
pub fn grouped_light_path_of(id_text: &str) -> (r: String)
    ensures
        r@ == "grouped_light/"@ + id_text@,
{
    String::from_str("grouped_light/").concat(id_text)
}

/// The path of the scene whose identifier reads `id_text`.
pub fn scene_path_of(id_text: &str) -> (r: String)
    ensures
        r@ == "scene/"@ + id_text@,
{
    String::from_str("scene/").concat(id_text)
}

/// The path of the grouped light with identifier `id`.
pub fn grouped_light_path(id: u128) -> (r: String)
    ensures
        r@ == "grouped_light/"@ + uuid_text(id),
{
    let text = hyphenated_uuid(id);
    grouped_light_path_of(text.as_str())
}

/// The path of the scene with identifier `id`.
pub fn scene_path(id: u128) -> (r: String)
    ensures
        r@ == "scene/"@ + uuid_text(id),
{
    let text = hyphenated_uuid(id);
    scene_path_of(text.as_str())
}

/// The base address of the lighting API on `host`.
pub fn base_url(host: &str) -> (r: String)
    ensures
        r@ == "https://"@ + host@ + "/clip/v2/resource/"@,
{
    String::from_str("https://").concat(host).concat("/clip/v2/resource/")
}

/// The address of the resource at `path` under `base`.
pub fn resource_url(base: &str, path: &str) -> (r: String)
    ensures
        r@ == base@ + path@,
{
    base.to_owned().concat(path)
}

} // verus!
