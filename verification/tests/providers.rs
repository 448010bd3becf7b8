use website_screenshot::providers::{
    cloudinary_image_present, cloudinary_upload_form, cloudinary_upload_url, fs_screenshot_path,
    png_data_url, s3_object_path, StorageKind, FS_SCREENSHOT_DIR, CLOUDINARY_URL_FIELD,
};

#[test]
fn storage_prefixes_and_keys() {
    assert_eq!(StorageKind::Fs.prefix(), "fs");
    assert_eq!(StorageKind::S3.prefix(), "s3");
    assert_eq!(StorageKind::Cloudinary.prefix(), "cloudinary");
    assert_eq!(StorageKind::Fs.storage_key("abc"), "fs:abc");
    assert_eq!(StorageKind::Cloudinary.storage_key("x1"), "cloudinary:x1");
}

#[test]
fn storage_locations() {
    assert_eq!(fs_screenshot_path("abc"), "screenshots/abc.png");
    assert_eq!(FS_SCREENSHOT_DIR, "screenshots");
    assert_eq!(s3_object_path("abc"), "abc.png");
    assert_eq!(
        cloudinary_upload_url("demo"),
        "https://api.cloudinary.com/v1_1/demo/image/upload"
    );
    assert_eq!(CLOUDINARY_URL_FIELD, "secure_url");
}

#[test]
fn png_data_urls() {
    assert_eq!(png_data_url(&[]), "data:image/png;base64,");
    assert_eq!(png_data_url(b"Man"), "data:image/png;base64,TWFu");
    assert_eq!(png_data_url(b"Ma"), "data:image/png;base64,TWE=");
    assert_eq!(png_data_url(b"M"), "data:image/png;base64,TQ==");
    let bytes: Vec<u8> = (0u8..=255).collect();
    assert_eq!(png_data_url(&bytes), format!("data:image/png;base64,{}", base64::encode(&bytes)));
}

#[test]
fn cloudinary_form_fields() {
    let form = cloudinary_upload_form("slug1", "key", "preset", b"Man");
    assert_eq!(
        form,
        vec![
            ("public_id", "slug1".to_owned()),
            ("api_key", "key".to_owned()),
            ("upload_preset", "preset".to_owned()),
            ("file", "data:image/png;base64,TWFu".to_owned()),
        ]
    );
}

#[test]
fn cloudinary_presence_check() {
    assert!(cloudinary_image_present(200));
    assert!(cloudinary_image_present(404));
    assert!(cloudinary_image_present(500));
}
