use app_icons::catalog::{factor_fits_value, ICON_SIZE};
use app_icons::index::{file_icon_name, join_path};
use app_icons::render::{premultiply, render_raster, resize_needed};
use app_icons::{
    parse_descriptor, Content, DesktopEntries, Error, Format, Icon, IconIndex, IconLoader, ReadError,
    ThemeDir,
};

fn png(width: u32, height: u32, pixel: [u8; 4]) -> Vec<u8> {
    let image = image::RgbaImage::from_pixel(width, height, image::Rgba(pixel));
    let mut bytes = std::io::Cursor::new(Vec::new());
    image.write_to(&mut bytes, image::ImageOutputFormat::Png).unwrap();
    bytes.into_inner()
}

fn dir(path: &str, format: Format, files: &[&str]) -> ThemeDir {
    ThemeDir {
        dir: path.to_string(),
        format,
        files: files.iter().map(|f| f.to_string()).collect(),
    }
}

fn themes() -> Vec<ThemeDir> {
    vec![
        dir("/usr/share/pixmaps", Format::Raster, &["foo.png", "bar.png", "notes.txt"]),
        dir("/usr/share/icons/hicolor/scalable/apps", Format::Vector, &["foo.svg", "baz.png"]),
    ]
}

fn solid_icon(size: usize, value: u8) -> Vec<u8> {
    vec![value; size * size * 4]
}

#[test]
fn premultiply_rounds_to_nearest() {
    let mut data = vec![200, 100, 50, 128, 255, 255, 255, 0, 10, 20, 30, 255, 1, 1, 1, 128];
    premultiply(&mut data);
    assert_eq!(data, vec![100, 50, 25, 128, 0, 0, 0, 0, 10, 20, 30, 255, 1, 1, 1, 128]);
}

#[test]
fn premultiply_empty() {
    let mut data: Vec<u8> = Vec::new();
    premultiply(&mut data);
    assert!(data.is_empty());
}

#[test]
fn resize_only_when_both_dimensions_differ() {
    assert!(!resize_needed(64, 64, 64));
    assert!(resize_needed(32, 32, 64));
    assert!(resize_needed(32, 128, 64));
    assert!(!resize_needed(64, 32, 64));
    assert!(!resize_needed(32, 64, 64));
}

#[test]
fn icon_names_of_files() {
    assert_eq!(file_icon_name("foo.png", Format::Raster), Some("foo".to_string()));
    assert_eq!(file_icon_name("foo.svg", Format::Vector), Some("foo".to_string()));
    assert_eq!(file_icon_name("foo.svg", Format::Raster), None);
    assert_eq!(file_icon_name("foo.tar.png", Format::Raster), Some("foo.tar".to_string()));
    assert_eq!(file_icon_name(".png", Format::Raster), Some(String::new()));
    assert_eq!(file_icon_name("png", Format::Raster), None);
    assert_eq!(file_icon_name("foopng", Format::Raster), None);
    assert_eq!(file_icon_name("été.png", Format::Raster), Some("été".to_string()));
}

#[test]
fn paths_are_joined_with_one_separator() {
    assert_eq!(join_path("/usr/share/pixmaps/", "foo.png"), "/usr/share/pixmaps/foo.png");
    assert_eq!(join_path("/usr/share/pixmaps", "foo.png"), "/usr/share/pixmaps/foo.png");
    assert_eq!(join_path("", "foo.png"), "foo.png");
}

#[test]
fn later_directory_wins_lookup() {
    let index = IconIndex::build(&themes());
    let foo = index.lookup("foo").unwrap();
    assert_eq!(foo.path, "/usr/share/icons/hicolor/scalable/apps/foo.svg");
    assert_eq!(foo.format, Format::Vector);
    let bar = index.lookup("bar").unwrap();
    assert_eq!(bar.path, "/usr/share/pixmaps/bar.png");
    assert_eq!(bar.format, Format::Raster);
    assert!(index.lookup("baz").is_none());
    assert!(index.lookup("notes").is_none());
    assert!(index.lookup("nonexistent").is_none());
}

#[test]
fn insert_replaces_an_entry() {
    let mut index = IconIndex::new();
    index.insert("a".to_string(), "/x/a.png".to_string(), Format::Raster);
    index.insert("a".to_string(), "/y/a.svg".to_string(), Format::Vector);
    let a = index.lookup("a").unwrap();
    assert_eq!(a.path, "/y/a.svg");
    assert_eq!(a.format, Format::Vector);
}

#[test]
fn vector_icon_wins_and_renders_through_vector_path() {
    let loader = IconLoader::new(&themes());
    let found = loader.lookup("foo").unwrap();
    assert_eq!(found.format, Format::Vector);
    let pixels = solid_icon(64, 7);
    let icon = loader.load("foo", 64, Ok(Content::Vector(pixels.clone(), 64))).unwrap();
    assert_eq!(icon.width, 64);
    assert_eq!(icon.data, pixels);
    assert_eq!(icon.name, "foo");
    let wrong = loader.load("foo", 64, Ok(Content::Raster(png(64, 64, [1, 2, 3, 4]))));
    assert!(matches!(wrong, Err(Error::UnsupportedFormat)));
}

#[test]
fn exact_size_raster_is_only_premultiplied() {
    let icon = render_raster(&png(64, 64, [200, 100, 50, 128]), 64, "app".to_string()).unwrap();
    assert_eq!(icon.width, 64);
    assert_eq!(icon.data.len(), 64 * 64 * 4);
    assert!(icon.data.chunks(4).all(|p| p == [100, 50, 25, 128]));
    assert_eq!(icon.name, "app");
}

#[test]
fn smaller_raster_is_resized_to_the_requested_size() {
    let icon = render_raster(&png(32, 32, [255, 255, 255, 255]), 64, "app".to_string()).unwrap();
    assert_eq!(icon.width, 64);
    assert_eq!(icon.data.len(), 64 * 64 * 4);
}

#[test]
fn raster_matching_one_dimension_is_not_resized() {
    let icon = render_raster(&png(64, 32, [0, 0, 0, 255]), 64, "wide".to_string()).unwrap();
    assert_eq!(icon.width, 64);
    assert_eq!(icon.data.len(), 64 * 32 * 4);
}

#[test]
fn undecodable_raster_is_an_image_error() {
    let result = render_raster(b"not an image", 64, "broken".to_string());
    assert!(matches!(result, Err(Error::Image(_))));
}

#[test]
fn missing_name_is_not_found() {
    let loader = IconLoader::new(&themes());
    let result = loader.load("nonexistent", 64, Ok(Content::Raster(png(64, 64, [0, 0, 0, 0]))));
    assert!(matches!(result, Err(Error::NotFound)));
}

#[test]
fn read_failure_is_passed_on() {
    let loader = IconLoader::new(&themes());
    let failure = std::io::Error::new(std::io::ErrorKind::NotFound, "gone");
    let result = loader.load("bar", 64, Err(ReadError::Io(failure)));
    assert!(matches!(result, Err(Error::Io(_))));
    let result = loader.load("foo", 64, Err(ReadError::Svg("bad scene".to_string())));
    assert!(matches!(result, Err(Error::Svg(_))));
}

#[test]
fn application_with_missing_icon_is_left_out() {
    let mut entries = DesktopEntries::new(1, IconLoader::new(&themes()));
    let added = entries.add_application(
        "Ghost".to_string(),
        "ghost".to_string(),
        "nonexistent",
        Ok(Content::Raster(png(64, 64, [0, 0, 0, 0]))),
    );
    assert!(!added);
    assert_eq!(entries.len(), 0);
    let added = entries.add_application(
        "Bar".to_string(),
        "bar".to_string(),
        "bar",
        Ok(Content::Raster(png(64, 64, [10, 20, 30, 255]))),
    );
    assert!(added);
    assert_eq!(entries.len(), 1);
    let entry = entries.get(0).unwrap();
    assert_eq!(entry.name, "Bar");
    assert_eq!(entry.command, "bar");
    assert_eq!(entry.icon.width, 64);
    assert!(entries.get(1).is_none());
    assert_eq!(entries.iter().len(), 1);
}

#[test]
fn push_drops_failed_icons() {
    let mut entries = DesktopEntries::new(1, IconLoader::new(&themes()));
    assert!(!entries.push("A".to_string(), "a".to_string(), Err(Error::NotFound)));
    let icon = Icon { data: vec![0; 16], width: 2, name: "a".to_string() };
    assert!(entries.push("A".to_string(), "a".to_string(), Ok(icon)));
    assert_eq!(entries.len(), 1);
}

#[test]
fn icon_size_follows_scale_factor() {
    let mut entries = DesktopEntries::new(1, IconLoader::new(&themes()));
    assert_eq!(entries.icon_size(), ICON_SIZE);
    assert_eq!(entries.icon_size(), 64);
    assert!(!entries.set_scale_factor(1));
    assert!(entries.set_scale_factor(2));
    assert_eq!(entries.icon_size(), 128);
}

#[test]
fn same_scale_factor_changes_nothing() {
    let mut entries = DesktopEntries::new(1, IconLoader::new(&themes()));
    entries.add_application(
        "Bar".to_string(),
        "bar".to_string(),
        "bar",
        Ok(Content::Raster(png(64, 64, [10, 20, 30, 255]))),
    );
    let before = entries.get(0).unwrap().icon.data.clone();
    assert!(!entries.set_scale_factor(1));
    assert_eq!(entries.get(0).unwrap().icon.data, before);
}

#[test]
fn failed_rerender_keeps_the_previous_icon() {
    let mut entries = DesktopEntries::new(1, IconLoader::new(&themes()));
    entries.add_application(
        "Bar".to_string(),
        "bar".to_string(),
        "bar",
        Ok(Content::Raster(png(64, 64, [10, 20, 30, 255]))),
    );
    entries.add_application(
        "Foo".to_string(),
        "foo".to_string(),
        "foo",
        Ok(Content::Vector(solid_icon(64, 9), 64)),
    );
    let bar_before = entries.get(0).unwrap().icon.data.clone();
    assert!(entries.set_scale_factor(2));
    entries.rerender(vec![
        Ok(Content::Raster(b"corrupt".to_vec())),
        Ok(Content::Vector(solid_icon(128, 3), 128)),
    ]);
    let bar = &entries.get(0).unwrap().icon;
    assert_eq!(bar.width, 64);
    assert_eq!(bar.data, bar_before);
    let foo = &entries.get(1).unwrap().icon;
    assert_eq!(foo.width, 128);
    assert_eq!(foo.data, solid_icon(128, 3));
    assert_eq!(entries.get(1).unwrap().name, "Foo");
}

#[test]
fn descriptor_fields_are_read() {
    let text = "[Desktop Entry]\nName=Terminal\r\nExec=alacritty --class x\nIcon=utilities-terminal\nName=Other\n";
    let fields = parse_descriptor(text).unwrap();
    assert_eq!(fields.name, "Terminal");
    assert_eq!(fields.command, "alacritty");
    assert_eq!(fields.icon, "utilities-terminal");
}

#[test]
fn descriptor_missing_a_key_gives_nothing() {
    assert!(parse_descriptor("Name=Terminal\nExec=alacritty\n").is_none());
    assert!(parse_descriptor("").is_none());
    assert!(parse_descriptor("XName=a\nExec=b\nIcon=c").is_none());
}

#[test]
fn descriptor_keys_only_at_line_starts() {
    let fields = parse_descriptor("Comment Name=x\nName=Real\nExec=run\nIcon=icon").unwrap();
    assert_eq!(fields.name, "Real");
    assert_eq!(fields.command, "run");
    assert_eq!(fields.icon, "icon");
}

#[test]
fn scale_factors_that_fit() {
    assert!(!factor_fits_value(0));
    assert!(factor_fits_value(1));
    assert!(factor_fits_value(3));
    assert!(!factor_fits_value(u32::MAX));
    assert!(!factor_fits_value(u32::MAX / 64 + 1));
}

#[test]
fn vector_output_of_another_size_is_refused() {
    let loader = IconLoader::new(&themes());
    let result = loader.load("foo", 64, Ok(Content::Vector(solid_icon(32, 1), 32)));
    assert!(matches!(result, Err(Error::VectorSize)));
    let result = loader.load("foo", 64, Ok(Content::Vector(vec![0; 16], 64)));
    assert!(matches!(result, Err(Error::VectorSize)));
}

#[test]
fn read_errors_never_look_like_a_missing_name() {
    let loader = IconLoader::new(&themes());
    let failure = std::io::Error::new(std::io::ErrorKind::NotFound, "gone");
    let result = loader.load("bar", 64, Err(ReadError::Io(failure)));
    assert!(!matches!(result, Err(Error::NotFound)));
}

#[test]
fn loaded_raster_is_resized_to_the_requested_size() {
    let loader = IconLoader::new(&themes());
    let icon = loader.load("bar", 64, Ok(Content::Raster(png(32, 32, [9, 9, 9, 255])))).unwrap();
    assert_eq!(icon.width, 64);
    assert_eq!(icon.data.len(), 64 * 64 * 4);
    assert_eq!(icon.name, "bar");
}

#[test]
fn errors_convert_from_their_causes() {
    let io = std::io::Error::new(std::io::ErrorKind::Other, "x");
    assert!(matches!(Error::from(io), Error::Io(_)));
    let read = ReadError::Svg("scene".to_string());
    assert!(matches!(Error::from(read), Error::Svg(m) if m == "scene"));
    let image_error = image::load_from_memory(b"nope").unwrap_err();
    assert!(matches!(Error::from(image_error), Error::Image(_)));
}
