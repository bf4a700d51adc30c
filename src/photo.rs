use vstd::prelude::*;

verus! {

/// Inserts one photo document; the attachment-typed field is declared in the statement.
pub const INSERT_PHOTO_QUERY: &'static str =
    "INSERT INTO COLLECTION photos (photo_attachment ATTACHMENT) DOCUMENTS (:photo_doc)";

/// Selects the photo documents with a given name.
pub const SELECT_PHOTO_QUERY: &'static str =
    "SELECT * FROM COLLECTION photos (photo_attachment ATTACHMENT) WHERE photo_name = :photo_name";

/// Name of the query parameter that holds the new photo document.
pub const PHOTO_DOC_PARAM: &'static str = "photo_doc";

/// Document field, and query parameter, holding the photo's name.
pub const PHOTO_NAME_FIELD: &'static str = "photo_name";

/// Document field holding the attachment token.
pub const PHOTO_ATTACHMENT_FIELD: &'static str = "photo_attachment";

/// Field of an attachment token that identifies the attachment.
pub const ATTACHMENT_ID_FIELD: &'static str = "id";

/// Name given to a photo whose path has no final file name.
pub const DEFAULT_PHOTO_NAME: &'static str = "photo";

/// The final component of a path, as `std::path::Path::file_name` finds it.
pub uninterp spec fn file_name_of(path: Seq<char>) -> Option<Seq<char>>;

/// Relies on `std::path::Path::file_name`: the last normal component of the
/// path, or none where the path ends in `..` or has no component; the answer
/// depends on the path's text alone.
#[verifier::external_body]
fn path_file_name(path: &str) -> (r: Option<String>)
    ensures
        r matches Some(n) ==> file_name_of(path@) == Some(n@),
        r is None ==> file_name_of(path@) is None,
{
    std::path::Path::new(path).file_name().and_then(|n| n.to_str()).map(|n| n.to_owned())
}

/// The name under which a photo is stored, given the file name of its path.
pub open spec fn photo_name_spec(file_name: Option<Seq<char>>) -> Seq<char> {
    match file_name {
        Some(n) => n,
        None => DEFAULT_PHOTO_NAME@,
    }
}

/// The name under which a photo is stored, given the file name of its path:
/// the file name itself, or a fixed default where there is none.
pub fn photo_name_from(file_name: Option<String>) -> (r: String)
    ensures
        r@ == photo_name_spec(
            match file_name {
                Some(n) => Some(n@),
                None => None,
            },
        ),
{
    match file_name {
        Some(n) => n,
        None => DEFAULT_PHOTO_NAME.to_owned(),
    }
}

/// The name under which the photo at `path` is stored.
pub fn photo_name(path: &str) -> (r: String)
    ensures
        r@ == photo_name_spec(file_name_of(path@)),
{
    let file_name = path_file_name(path);
    photo_name_from(file_name)
}

/// Why a photo document does not lead to an attachment.
#[derive(Clone, Copy, Debug, PartialEq, Eq, Structural)]
pub enum LookupError {
    /// No photo document with the name was found.
    NoSuchPhoto,
    /// The document has no attachment field.
    MissingAttachment,
    /// The attachment field is not a token object.
    NotAToken,
    /// The token has no attachment id.
    MissingId,
}

impl LookupError {
    /// A human-readable description.
    pub fn message(&self) -> (r: &'static str)
        ensures
            r@ == match *self {
                LookupError::NoSuchPhoto => "failed to find a photo with that name"@,
                LookupError::MissingAttachment => "failed to find photo_attachment"@,
                LookupError::NotAToken => "failed to get attachment token"@,
                LookupError::MissingId => "failed to get ID of attachment"@,
            },
    {
        match self {
            LookupError::NoSuchPhoto => "failed to find a photo with that name",
            LookupError::MissingAttachment => "failed to find photo_attachment",
            LookupError::NotAToken => "failed to get attachment token",
            LookupError::MissingId => "failed to get ID of attachment",
        }
    }
}

} // verus!
