use rust4diva::error::GbError;
use rust4diva::thumbnail::get_image;
use rust4diva::thumbnail::Thumbnail;
use rust4diva::thumbnail::THUMB_HEIGHT;
use rust4diva::thumbnail::THUMB_WIDTH;

const TWO_BY_ONE_PNG: [u8; 71] = [
    137, 80, 78, 71, 13, 10, 26, 10, 0, 0, 0, 13, 73, 72, 68, 82, 0, 0, 0, 2, 0, 0, 0, 1, 8, 6, 0, 0, 0, 244,
    34, 127, 138, 0, 0, 0, 14, 73, 68, 65, 84, 120, 156, 99, 248, 207, 192, 0, 66, 255, 1, 15, 249, 3, 253,
    133, 17, 153, 118, 0, 0, 0, 0, 73, 69, 78, 68, 174, 66, 96, 130,
];

#[test]
fn get_image_scales_into_the_box() {
    let made = get_image(&TWO_BY_ONE_PNG).expect("a picture");
    assert_eq!(made.width(), 440);
    assert_eq!(made.height(), 220);
    assert_eq!(made.pixels().len(), 4 * 440 * 220);
    assert_eq!(&made.pixels()[0..4], &[255, 0, 0, 255]);
    let last = made.pixels().len() - 4;
    assert_eq!(&made.pixels()[last..], &[0, 0, 255, 255]);
}

#[test]
fn get_image_refuses_what_is_no_picture() {
    assert!(matches!(get_image(b"<html>not found</html>"), Err(GbError::Image(_))));
    assert!(matches!(get_image(&[]), Err(GbError::Image(_))));
    assert!(matches!(get_image(&TWO_BY_ONE_PNG[..40]), Err(GbError::Image(_))));
}

#[test]
fn from_rgba_takes_what_fits() {
    let made = Thumbnail::from_rgba(vec![9; 24], 3, 2).ok().expect("fits");
    assert_eq!(made.width(), 3);
    assert_eq!(made.height(), 2);
    assert_eq!(made.pixels(), &vec![9u8; 24]);
    let full = (4 * THUMB_WIDTH * THUMB_HEIGHT) as usize;
    assert!(Thumbnail::from_rgba(vec![0; full], THUMB_WIDTH, THUMB_HEIGHT).is_ok());
}

#[test]
fn from_rgba_refuses_what_does_not_fit() {
    assert!(matches!(Thumbnail::from_rgba(vec![9; 24], 2, 2), Err(GbError::Image(_))));
    assert!(matches!(Thumbnail::from_rgba(Vec::new(), 0, 0), Err(GbError::Image(_))));
    assert!(matches!(Thumbnail::from_rgba(vec![0; 4 * 441], 441, 1), Err(GbError::Image(_))));
    assert!(matches!(Thumbnail::from_rgba(vec![0; 4 * 249], 1, 249), Err(GbError::Image(_))));
    assert!(matches!(Thumbnail::from_rgba(vec![0; 25], 3, 2), Err(GbError::Image(_))));
}

const TWO_BY_TWO_BMP: [u8; 70] = [
    66, 77, 70, 0, 0, 0, 0, 0, 0, 0, 54, 0, 0, 0, 40, 0, 0, 0, 2, 0, 0, 0, 2, 0, 0, 0, 1, 0, 24, 0, 0, 0, 0, 0,
    16, 0, 0, 0, 19, 11, 0, 0, 19, 11, 0, 0, 0, 0, 0, 0, 0, 0, 0, 0, 255, 0, 0, 255, 255, 255, 0, 0, 0, 0, 255,
    0, 255, 0, 0, 0,
];

#[test]
fn get_image_keeps_the_proportions() {
    let made = get_image(&TWO_BY_TWO_BMP).expect("a picture");
    assert_eq!((made.width(), made.height()), (248, 248));
    assert_eq!(made.pixels().len(), 4 * 248 * 248);
    assert_eq!(&made.pixels()[0..4], &[255, 0, 0, 255]);
    let last = made.pixels().len() - 4;
    assert_eq!(&made.pixels()[last..], &[255, 255, 255, 255]);
    let top_right = 4 * 247;
    assert_eq!(&made.pixels()[top_right..top_right + 4], &[0, 255, 0, 255]);
}

#[test]
fn get_image_refuses_formats_it_does_not_decode() {
    let tiff = [0x49u8, 0x49, 0x2a, 0x00, 8, 0, 0, 0, 0, 0];
    assert_eq!(
        get_image(&tiff),
        Err(GbError::Image("the format of the picture is not known".to_string()))
    );
    assert_eq!(
        get_image(b"plain text"),
        Err(GbError::Image("the format of the picture is not known".to_string()))
    );
}

#[test]
fn get_image_gives_the_same_preview_for_the_same_bytes() {
    assert_eq!(get_image(&TWO_BY_ONE_PNG), get_image(&TWO_BY_ONE_PNG));
    assert_eq!(get_image(&TWO_BY_TWO_BMP[..60]).is_err(), get_image(&TWO_BY_TWO_BMP[..60]).is_err());
}
