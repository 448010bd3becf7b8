use vstd::prelude::*;
use crate::text::append_str;

verus! {

/// The storage back ends the service can keep screenshots in.
#[derive(Debug, Clone, Copy, PartialEq, Eq, Structural)]
pub enum StorageKind {
    Fs,
    S3,
    Cloudinary,
}

/// The prefix of the Redis keys of a back end.
pub open spec fn storage_prefix(kind: StorageKind) -> Seq<char> {
    match kind {
        StorageKind::Fs => "fs"@,
        StorageKind::S3 => "s3"@,
        StorageKind::Cloudinary => "cloudinary"@,
    }
}

impl StorageKind {
    /// The prefix of this back end's Redis keys.
    pub fn prefix(&self) -> (p: String)
        ensures
            p@ == storage_prefix(*self),
    {
        match self {
            StorageKind::Fs => "fs".to_owned(),
            StorageKind::S3 => "s3".to_owned(),
            StorageKind::Cloudinary => "cloudinary".to_owned(),
        }
    }

    /// The Redis key under which the location of screenshot `slug` is kept:
    /// `{prefix}:{slug}`.
    pub fn storage_key(&self, slug: &str) -> (key: String)
        ensures
            key@ == storage_prefix(*self) + ":"@ + slug@,
    {
        let mut key = self.prefix();
        key.append(":");
        key.append(slug);
        key
    }
}

/// Where the filesystem back end writes screenshot `slug`: `screenshots/{slug}.png`.
pub fn fs_screenshot_path(slug: &str) -> (path: String)
    ensures
        path@ == "screenshots/"@ + slug@ + ".png"@,
{
    let mut path = "screenshots/".to_owned();
    path.append(slug);
    path.append(".png");
    path
}

/// The directory the filesystem back end keeps screenshots in.
pub const FS_SCREENSHOT_DIR: &'static str = "screenshots";

/// The object name under which the S3 back end stores screenshot `slug`: `{slug}.png`.
pub fn s3_object_path(slug: &str) -> (path: String)
    ensures
        path@ == slug@ + ".png"@,
{
    let mut path = slug.to_owned();
    path.append(".png");
    path
}

/// The Cloudinary upload endpoint of the cloud `cloud_name`.
pub fn cloudinary_upload_url(cloud_name: &str) -> (url: String)
    ensures
        url@ == "https://api.cloudinary.com/v1_1/"@ + cloud_name@ + "/image/upload"@,
{
    let mut url = "https://api.cloudinary.com/v1_1/".to_owned();
    url.append(cloud_name);
    url.append("/image/upload");
    url
}

/// The character of the standard base64 alphabet with index `i` (`0 <= i < 64`).
pub open spec fn base64_char(i: int) -> char {
    if i < 26 {
        (65 + i) as char
    } else if i < 52 {
        (97 + i - 26) as char
    } else if i < 62 {
        (48 + i - 52) as char
    } else if i == 62 {
        '+'
    } else {
        '/'
    }
}

/// Standard base64 with `=` padding: each group of three bytes becomes four
/// characters, a final group of one or two bytes is padded.
pub open spec fn base64_standard(bytes: Seq<u8>) -> Seq<char>
    decreases bytes.len(),
{
    if bytes.len() == 0 {
        seq![]
    } else if bytes.len() == 1 {
        let b0 = bytes[0] as int;
        seq![base64_char(b0 / 4), base64_char((b0 % 4) * 16), '=', '=']
    } else if bytes.len() == 2 {
        let b0 = bytes[0] as int;
        let b1 = bytes[1] as int;
        seq![base64_char(b0 / 4), base64_char((b0 % 4) * 16 + b1 / 16), base64_char((b1 % 16) * 4), '=']
    } else {
        let b0 = bytes[0] as int;
        let b1 = bytes[1] as int;
        let b2 = bytes[2] as int;
        seq![
            base64_char(b0 / 4),
            base64_char((b0 % 4) * 16 + b1 / 16),
            base64_char((b1 % 16) * 4 + b2 / 64),
            base64_char(b2 % 64),
        ] + base64_standard(bytes.subrange(3, bytes.len() as int))
    }
}

/// Calls `base64::encode`. Trusted: the text is the standard, padded base64
/// encoding of `data` that `base64_standard` describes.
#[verifier::external_body]
fn base64_encode(data: &[u8]) -> (text: String)
    ensures
        text@ == base64_standard(data@),
{
    base64::encode(data)
}

/// The data URL of a PNG image, as uploaded to Cloudinary.
pub fn png_data_url(data: &[u8]) -> (url: String)
    ensures
        url@ == "data:image/png;base64,"@ + base64_standard(data@),
{
    let mut url = "data:image/png;base64,".to_owned();
    let encoded = base64_encode(data);
    append_str(&mut url, encoded.as_str());
    url
}

/// Whether Cloudinary's answer to a HEAD request with status `status` counts
/// as the image being there. The test refuses only a status that is both a
/// client error (4xx) and a server error (5xx); no status is both, so every
/// status counts, a missing image's 404 included.
pub fn cloudinary_image_present(status: u16) -> (present: bool)
    ensures
        present == !((400 <= status < 500) && (500 <= status < 600)),
        present,
{
    let is_client_error = 400 <= status && status < 500;
    let is_server_error = 500 <= status && status < 600;
    !(is_client_error && is_server_error)
}

/// The form fields of a Cloudinary upload of screenshot `slug`: its public
/// id, the API key, the upload preset and the image as a PNG data URL.
pub fn cloudinary_upload_form(slug: &str, api_key: &str, upload_preset: &str, data: &[u8]) -> (form: Vec<(&'static str, String)>)
    ensures
        form@.map_values(|f: (&'static str, String)| (f.0@, f.1@)) == seq![
            ("public_id"@, slug@),
            ("api_key"@, api_key@),
            ("upload_preset"@, upload_preset@),
            ("file"@, "data:image/png;base64,"@ + base64_standard(data@)),
        ],
{
    let mut form: Vec<(&'static str, String)> = Vec::new();
    form.push(("public_id", slug.to_owned()));
    form.push(("api_key", api_key.to_owned()));
    form.push(("upload_preset", upload_preset.to_owned()));
    form.push(("file", png_data_url(data)));
    proof {
        assert(form@.map_values(|f: (&'static str, String)| (f.0@, f.1@)) =~= seq![
            ("public_id"@, slug@),
            ("api_key"@, api_key@),
            ("upload_preset"@, upload_preset@),
            ("file"@, "data:image/png;base64,"@ + base64_standard(data@)),
        ]);
    }
    form
}

/// The field of Cloudinary's upload answer that holds the stored image's URL.
pub const CLOUDINARY_URL_FIELD: &'static str = "secure_url";

} // verus!
