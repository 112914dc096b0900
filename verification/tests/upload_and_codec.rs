use palettizer::codec::{decode, encode_png, grid_of_samples};
use palettizer::color::Color;
use palettizer::grid::PixelGrid;
use palettizer::markup::{anchor, LinkError};
use palettizer::upload::{
    classify, Part, Rejection, Reply, Role, Submission, MAX_UPLOAD_BYTES, PNG_MEDIA_TYPE,
};

fn target() -> PixelGrid {
    PixelGrid::new(2, 1, vec![Color::new(10, 10, 10, 255), Color::new(250, 250, 250, 128)])
        .unwrap()
}

fn source() -> PixelGrid {
    PixelGrid::new(2, 1, vec![Color::new(0, 0, 0, 255), Color::new(255, 255, 255, 255)]).unwrap()
}

fn png_of(grid: &PixelGrid) -> Vec<u8> {
    encode_png(grid).unwrap()
}

#[test]
fn png_round_trip_keeps_pixels_and_size() {
    let grid = PixelGrid::new(
        3,
        2,
        vec![
            Color::new(1, 2, 3, 4),
            Color::new(5, 6, 7, 8),
            Color::new(9, 10, 11, 12),
            Color::new(255, 0, 255, 0),
            Color::new(0, 255, 0, 255),
            Color::new(128, 127, 126, 125),
        ],
    )
    .unwrap();
    let file = png_of(&grid);
    assert_eq!(&file[..8], &[0x89, b'P', b'N', b'G', 0x0d, 0x0a, 0x1a, 0x0a]);
    assert_ne!(file, grid.to_rgba());
    let back = decode(&file).unwrap();
    assert_eq!((back.width(), back.height()), (3, 2));
    assert_eq!(back.pixels(), grid.pixels());
}

#[test]
fn samples_beyond_the_last_pixel_are_not_read() {
    let g = grid_of_samples(1, 2, vec![1, 2, 3, 4, 5, 6, 7, 8, 9, 10]).unwrap();
    assert_eq!((g.width(), g.height()), (1, 2));
    assert_eq!(g.pixels(), &vec![Color::new(1, 2, 3, 4), Color::new(5, 6, 7, 8)]);
    let g = grid_of_samples(2, 1, vec![1, 2, 3, 4, 5, 6, 7, 8]).unwrap();
    assert_eq!(g.pixels(), &vec![Color::new(1, 2, 3, 4), Color::new(5, 6, 7, 8)]);
    assert!(grid_of_samples(2, 1, vec![1, 2, 3, 4, 5, 6, 7]).is_none());
    assert!(grid_of_samples(u32::MAX, u32::MAX, vec![1, 2, 3, 4]).is_none());
    let g = grid_of_samples(0, 3, vec![1, 2]).unwrap();
    assert!(g.pixels().is_empty());
}

#[test]
fn bytes_that_are_no_image_do_not_decode() {
    assert!(decode(b"certainly not an image").is_none());
    assert!(decode(&[]).is_none());
    let mut file = png_of(&target());
    file.truncate(20);
    assert!(decode(&file).is_none());
}

#[test]
fn field_names_map_to_roles() {
    assert_eq!(classify(Some("image")), Ok(Role::Target));
    assert_eq!(classify(Some("palette")), Ok(Role::Source));
    assert_eq!(classify(Some("Image")), Ok(Role::Other));
    assert_eq!(classify(Some("")), Ok(Role::Other));
    assert_eq!(classify(Some("images")), Ok(Role::Other));
    assert_eq!(classify(None), Err(Rejection::Unnamed));
}

#[test]
fn rejections_carry_their_text_and_status() {
    assert_eq!(Rejection::Unnamed.message(), "need a name");
    assert_eq!(Rejection::MissingImage.message(), "need an image");
    assert_eq!(Rejection::InvalidImage.message(), "image is invalid");
    assert_eq!(Rejection::MissingPalette.message(), "need a palette");
    assert_eq!(Rejection::InvalidPalette.message(), "palette is invalid");
    for r in [
        Rejection::Unnamed,
        Rejection::MissingImage,
        Rejection::InvalidImage,
        Rejection::MissingPalette,
        Rejection::InvalidPalette,
    ] {
        assert_eq!(Reply::Refused(r).status(), 400);
    }
    assert_eq!(MAX_UPLOAD_BYTES, 8_000_000);
    assert_eq!(PNG_MEDIA_TYPE, "image/png");
}

#[test]
fn reply_carries_the_png_of_the_remapped_image() {
    let mut s = Submission::new();
    s.record("image", &png_of(&target()));
    s.record("palette", &png_of(&source()));
    let reply = s.reply();
    assert_eq!(reply.status(), 200);
    let Reply::Png(file) = reply else {
        panic!("no image in the reply");
    };
    let back = decode(&file).unwrap();
    assert_eq!((back.width(), back.height()), (2, 1));
    assert_eq!(back.pixels(), &vec![Color::new(0, 0, 0, 255), Color::new(255, 255, 255, 128)]);
    assert_eq!(file, encode_png(&s.resolve().unwrap()).unwrap());
}

#[test]
fn reply_refuses_incomplete_submissions() {
    let mut s = Submission::new();
    assert!(matches!(s.reply(), Reply::Refused(Rejection::MissingImage)));
    s.record("image", b"junk");
    assert!(matches!(s.reply(), Reply::Refused(Rejection::InvalidImage)));
    s.record("image", &png_of(&target()));
    assert!(matches!(s.reply(), Reply::Refused(Rejection::MissingPalette)));
    s.record("palette", b"junk");
    let reply = s.reply();
    assert!(matches!(reply, Reply::Refused(Rejection::InvalidPalette)));
    assert_eq!(reply.status(), 400);
}

#[test]
fn encoding_outcome_decides_the_reply() {
    let ok = Reply::deliver(Ok(vec![1, 2, 3]));
    assert_eq!(ok.status(), 200);
    assert!(matches!(ok, Reply::Png(ref b) if b == &vec![1, 2, 3]));
    let full = std::io::Error::new(std::io::ErrorKind::Other, "no space");
    let bad = Reply::deliver(Err(image::ImageError::IoError(full)));
    assert_eq!(bad.status(), 500);
    let Reply::Failed(image::ImageError::IoError(cause)) = bad else {
        panic!("the error was not handed on");
    };
    assert_eq!(cause.to_string(), "no space");
}

#[test]
fn anchor_writes_the_link() {
    assert_eq!(
        anchor(Some("home"), Some("/index")),
        Ok(String::from("<a href=/index>home</a>"))
    );
    assert_eq!(anchor(Some(""), Some("")), Ok(String::from("<a href=></a>")));
    assert_eq!(anchor(None, Some("/index")), Err(LinkError::NoText));
    assert_eq!(anchor(Some("home"), None), Err(LinkError::NoHref));
    assert_eq!(anchor(None, None), Err(LinkError::NoText));
    assert_eq!(LinkError::NoText.message(), "need string text argument");
    assert_eq!(LinkError::NoHref.message(), "need string href argument");
}

#[test]
fn empty_submission_lacks_the_image() {
    let s = Submission::new();
    assert!(matches!(s.image, Part::Absent));
    assert!(matches!(s.palette, Part::Absent));
    assert_eq!(s.resolve().err(), Some(Rejection::MissingImage));
}

#[test]
fn image_is_checked_before_palette() {
    let mut s = Submission::new();
    s.record("palette", b"junk");
    assert_eq!(s.resolve().err(), Some(Rejection::MissingImage));
    s.record("image", b"junk");
    assert_eq!(s.resolve().err(), Some(Rejection::InvalidImage));
}

#[test]
fn palette_is_required_and_must_decode() {
    let mut s = Submission::new();
    s.record("image", &png_of(&target()));
    assert_eq!(s.resolve().err(), Some(Rejection::MissingPalette));
    s.record("palette", b"junk");
    assert_eq!(s.resolve().err(), Some(Rejection::InvalidPalette));
}

#[test]
fn complete_submission_is_remapped() {
    let mut s = Submission::new();
    s.record("palette", &png_of(&source()));
    s.record("comment", b"junk");
    s.record("image", &png_of(&target()));
    let out = s.resolve().unwrap();
    assert_eq!((out.width(), out.height()), (2, 1));
    assert_eq!(out.pixels(), &vec![Color::new(0, 0, 0, 255), Color::new(255, 255, 255, 128)]);
    let file = encode_png(&out).unwrap();
    assert_eq!(decode(&file).unwrap().pixels(), out.pixels());
}

#[test]
fn later_field_replaces_earlier_one() {
    let mut s = Submission::new();
    s.record("image", b"junk");
    s.record("image", &png_of(&target()));
    s.record("palette", &png_of(&source()));
    assert!(s.resolve().is_ok());
    s.record("palette", b"junk");
    assert_eq!(s.resolve().err(), Some(Rejection::InvalidPalette));
}

#[test]
fn store_takes_decoded_grids() {
    let mut s = Submission::new();
    s.store(Role::Other, Some(target()));
    assert!(matches!(s.image, Part::Absent));
    assert!(matches!(s.palette, Part::Absent));
    s.store(Role::Target, Some(target()));
    s.store(Role::Source, None);
    assert!(matches!(s.image, Part::Loaded(_)));
    assert!(matches!(s.palette, Part::Broken));
    assert_eq!(s.resolve().err(), Some(Rejection::InvalidPalette));
    s.store(Role::Source, Some(source()));
    assert_eq!(
        s.resolve().unwrap().pixels(),
        &vec![Color::new(0, 0, 0, 255), Color::new(255, 255, 255, 128)]
    );
}
