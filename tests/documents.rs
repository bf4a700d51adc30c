use ditto_demo::car::{plural_suffix, Car, COLOR_PARAM, INSERT_CAR_QUERY, NEW_CAR_PARAM, SELECT_CARS_QUERY};
use ditto_demo::photo::{
    photo_name, photo_name_from, LookupError, DEFAULT_PHOTO_NAME, INSERT_PHOTO_QUERY, SELECT_PHOTO_QUERY,
};

#[test]
fn photo_name_is_the_file_name() {
    assert_eq!(photo_name("/home/me/Downloads/photo.png"), "photo.png");
    assert_eq!(photo_name("cat.jpg"), "cat.jpg");
    assert_eq!(photo_name("dir/sub/file.tar.gz"), "file.tar.gz");
}

#[test]
fn photo_name_ignores_trailing_slash() {
    assert_eq!(photo_name("pictures/holiday/"), "holiday");
}

#[test]
fn photo_name_defaults_without_file_name() {
    assert_eq!(photo_name(""), "photo");
    assert_eq!(photo_name("/"), "photo");
    assert_eq!(photo_name("pictures/.."), "photo");
    assert_eq!(DEFAULT_PHOTO_NAME, "photo");
}

#[test]
fn photo_name_from_given_file_name() {
    assert_eq!(photo_name_from(Some("a.png".to_string())), "a.png");
    assert_eq!(photo_name_from(None), "photo");
}

#[test]
fn lookup_error_messages() {
    assert_eq!(LookupError::MissingAttachment.message(), "failed to find photo_attachment");
    assert_eq!(LookupError::NotAToken.message(), "failed to get attachment token");
    assert_eq!(LookupError::MissingId.message(), "failed to get ID of attachment");
    assert_eq!(LookupError::NoSuchPhoto.message(), "failed to find a photo with that name");
}

#[test]
fn queries_name_their_parameters() {
    assert!(INSERT_CAR_QUERY.contains(&format!(":{NEW_CAR_PARAM}")));
    assert!(SELECT_CARS_QUERY.contains(&format!(":{COLOR_PARAM}")));
    assert!(INSERT_PHOTO_QUERY.contains(":photo_doc"));
    assert!(SELECT_PHOTO_QUERY.contains(":photo_name"));
}

#[test]
fn car_keeps_its_fields() {
    let c = Car::new("blue".to_string(), "ford".to_string());
    assert_eq!(c.color, "blue");
    assert_eq!(c.make, "ford");
}

#[test]
fn plural_suffix_agrees_with_count() {
    assert_eq!(plural_suffix(1), "");
    assert_eq!(plural_suffix(0), "s");
    assert_eq!(plural_suffix(2), "s");
    assert_eq!(plural_suffix(usize::MAX), "s");
}
