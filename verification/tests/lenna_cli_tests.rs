use lenna_cli::archive::{add_images, finish_archive, zip_images, ArchiveError, EncodedImage, InMemoryZip};
use lenna_cli::cli::{choose_command, plan_output, plugins_path, Command, OutputTarget};
use lenna_cli::discovery::images_in_path;
use lenna_cli::output::{
    conversion_format, image_format_for_extension, write_to_path, Destination, ImageFormat,
    ZipCompression,
};
use lenna_cli::plugins::{
    check_plugin_versions, is_plugin_extension, plugin_libraries, versions_match, PluginError,
    PluginRegistry,
};
use lenna_cli::text::text_is;
use std::io::Read;
use std::path::PathBuf;

#[test]
fn test_images_in_path() {
    let path: PathBuf = [".", "lenna.png"].iter().collect();
    let images = images_in_path(path, false, Vec::new());
    assert_eq!(images.len(), 1);
}

#[test]
fn images_in_path_of_a_file_is_the_file() {
    let images = images_in_path("a.png".to_string(), false, vec![("b.png".to_string(), false)]);
    assert_eq!(images, vec!["a.png".to_string()]);
}

#[test]
fn images_in_path_of_a_directory_skips_directories_in_order() {
    let entries = vec![
        ("dir/x.png".to_string(), false),
        ("dir/sub".to_string(), true),
        ("dir/y.jpg".to_string(), false),
        ("dir/other".to_string(), true),
        ("dir/z.png".to_string(), false),
    ];
    let images = images_in_path("dir".to_string(), true, entries);
    assert_eq!(
        images,
        vec!["dir/x.png".to_string(), "dir/y.jpg".to_string(), "dir/z.png".to_string()]
    );
}

#[test]
fn images_in_path_of_an_empty_directory_is_empty() {
    let images: Vec<String> = images_in_path("dir".to_string(), true, Vec::new());
    assert!(images.is_empty());
    let only_dirs = images_in_path("dir".to_string(), true, vec![("dir/a".to_string(), true)]);
    assert!(only_dirs.is_empty());
}

#[test]
fn text_comparison() {
    assert!(text_is("zip", "zip"));
    assert!(!text_is("zip", "ZIP"));
    assert!(!text_is("zi", "zip"));
}

#[test]
fn write_to_path_zip_packs_a_jpg_entry() {
    let plan = write_to_path("test".to_string(), "./test.zip".to_string(), "zip");
    assert_eq!(plan.name, "test.jpg");
    assert_eq!(plan.path, "./test.zip");
    assert_eq!(
        plan.destination,
        Destination::ZipArchive {
            format: ImageFormat::Jpeg(80),
            compression: ZipCompression::Deflated
        }
    );
}

#[test]
fn write_to_path_png_in_both_cases() {
    for ext in ["png", "PNG"] {
        let plan = write_to_path("test".to_string(), "./".to_string(), ext);
        assert_eq!(plan.name, "test");
        assert_eq!(plan.path, "./");
        assert_eq!(plan.destination, Destination::ImageFile { format: ImageFormat::Png });
    }
}

#[test]
fn write_to_path_other_extensions_give_jpeg() {
    for ext in ["jpg", "Png", "ZIP", "", "gif"] {
        let plan = write_to_path("test".to_string(), "out".to_string(), ext);
        assert_eq!(plan.name, "test");
        assert_eq!(plan.path, "out");
        assert_eq!(plan.destination, Destination::ImageFile { format: ImageFormat::Jpeg(80) });
    }
}

#[test]
fn image_format_for_extensions() {
    assert_eq!(image_format_for_extension("png"), ImageFormat::Png);
    assert_eq!(image_format_for_extension("PNG"), ImageFormat::Png);
    assert_eq!(image_format_for_extension("pNg"), ImageFormat::Jpeg(80));
    assert_eq!(image_format_for_extension("jpeg"), ImageFormat::Jpeg(80));
}

#[test]
fn conversion_formats() {
    assert_eq!(conversion_format("jpg"), ImageFormat::Jpeg(90));
    assert_eq!(conversion_format("png"), ImageFormat::Png);
    assert_eq!(conversion_format("PNG"), ImageFormat::Jpeg(90));
    assert_eq!(conversion_format("webp"), ImageFormat::Jpeg(90));
}

#[test]
fn plugin_extensions() {
    assert!(is_plugin_extension("so"));
    assert!(is_plugin_extension("dll"));
    assert!(is_plugin_extension("dylib"));
    assert!(!is_plugin_extension("SO"));
    assert!(!is_plugin_extension("txt"));
    assert!(!is_plugin_extension(""));
}

#[test]
fn versions_must_both_match() {
    assert_eq!(versions_match("1.70.0", "0.2.0", "1.70.0", "0.2.0"), Ok(()));
    assert_eq!(
        versions_match("1.69.0", "0.2.0", "1.70.0", "0.2.0"),
        Err(PluginError::VersionMismatch)
    );
    assert_eq!(
        versions_match("1.70.0", "0.1.9", "1.70.0", "0.2.0"),
        Err(PluginError::VersionMismatch)
    );
}

#[test]
fn plugin_versions_against_this_build() {
    let host = lenna_core::RUSTC_VERSION;
    assert_eq!(check_plugin_versions(host, lenna_core::CORE_VERSION, host), Ok(()));
    assert_eq!(check_plugin_versions("1.70.0", "0.2.0", "1.70.0"), Ok(()));
    assert_eq!(
        check_plugin_versions(host, "0.1.9", host),
        Err(PluginError::VersionMismatch)
    );
    assert_eq!(
        check_plugin_versions("0.0.0-other", "0.2.0", host),
        Err(PluginError::VersionMismatch)
    );
}

#[test]
fn registry_hands_out_the_first_registered() {
    let mut registry = PluginRegistry::new();
    registry.add_plugin("resize");
    registry.add_plugin("blur");
    registry.add_plugin("crop");
    assert_eq!(registry.len(), 3);
    assert_eq!(registry.take_first(), "resize");
    assert_eq!(registry.len(), 2);
    assert_eq!(registry.take_first(), "crop");
    assert_eq!(registry.take_first(), "blur");
    assert_eq!(registry.len(), 0);
}

#[test]
fn command_choice() {
    assert_eq!(choose_command(true, true), Command::ListPlugins);
    assert_eq!(choose_command(true, false), Command::ListPlugins);
    assert_eq!(choose_command(false, true), Command::PrintExampleConfig);
    assert_eq!(choose_command(false, false), Command::ProcessImages);
}

#[test]
fn plugins_path_choice() {
    assert_eq!(plugins_path(Some("a"), Some("b"), "plugins/"), "a");
    assert_eq!(plugins_path(None, Some("b"), "plugins/"), "b");
    assert_eq!(plugins_path(None, None, "plugins/"), "plugins/");
}

#[test]
fn output_plans() {
    let plan = plan_output("lenna".to_string(), "output".to_string(), OutputTarget::Directory);
    assert_eq!(plan.name, "lenna");
    assert_eq!(plan.path, "output");
    assert_eq!(plan.destination, Destination::ImageFile { format: ImageFormat::Jpeg(80) });
    let plan = plan_output(
        "lenna".to_string(),
        "out/result.zip".to_string(),
        OutputTarget::File { stem: "result".to_string(), ext: "zip".to_string() },
    );
    assert_eq!(plan.name, "result.jpg");
    assert_eq!(plan.path, "out/result.zip");
    let plan = plan_output(
        "lenna".to_string(),
        "out/result.png".to_string(),
        OutputTarget::File { stem: "result".to_string(), ext: "png".to_string() },
    );
    assert_eq!(plan.name, "result");
    assert_eq!(plan.destination, Destination::ImageFile { format: ImageFormat::Png });
}

fn read_entries(bytes: Vec<u8>) -> Vec<(String, Vec<u8>, Option<u32>)> {
    let mut archive = zip::ZipArchive::new(std::io::Cursor::new(bytes)).unwrap();
    let mut out = Vec::new();
    for i in 0..archive.len() {
        let mut file = archive.by_index(i).unwrap();
        let mut data = Vec::new();
        file.read_to_end(&mut data).unwrap();
        out.push((file.name().unwrap().to_string(), data, file.unix_mode()));
    }
    out
}

#[test]
fn zip_images_packs_each_image_in_order() {
    let images = vec![
        EncodedImage { name: "a.jpg".to_string(), data: vec![1, 2, 3, 4, 5] },
        EncodedImage { name: "b.jpg".to_string(), data: vec![9; 1000] },
        EncodedImage { name: "empty.jpg".to_string(), data: Vec::new() },
    ];
    for compression in [ZipCompression::Deflated, ZipCompression::Stored] {
        let bytes = match zip_images(&images, compression) {
            Ok(bytes) => bytes,
            Err(_) => panic!("archive refused"),
        };
        let entries = read_entries(bytes);
        assert_eq!(entries.len(), 3);
        assert_eq!(entries[0].0, "a.jpg");
        assert_eq!(entries[0].1, vec![1, 2, 3, 4, 5]);
        assert_eq!(entries[1].0, "b.jpg");
        assert_eq!(entries[1].1, vec![9; 1000]);
        assert_eq!(entries[2].0, "empty.jpg");
        assert!(entries[2].1.is_empty());
        assert_eq!(entries[0].2.map(|m| m & 0o777), Some(0o755));
    }
}

#[test]
fn zip_images_of_nothing_is_an_empty_archive() {
    let bytes = match zip_images(&Vec::new(), ZipCompression::Deflated) {
        Ok(bytes) => bytes,
        Err(_) => panic!("archive refused"),
    };
    assert!(!bytes.is_empty());
    assert!(read_entries(bytes).is_empty());
}

#[test]
fn zip_images_refuses_a_repeated_name() {
    let images = vec![
        EncodedImage { name: "a.jpg".to_string(), data: vec![1] },
        EncodedImage { name: "a.jpg".to_string(), data: vec![2] },
    ];
    match zip_images(&images, ZipCompression::Deflated) {
        Err(ArchiveError::Zip(_)) => {}
        _ => panic!("a repeated name must be refused"),
    }
}

#[test]
fn add_images_appends_after_earlier_entries() {
    let mut zip = InMemoryZip::new();
    let first = vec![EncodedImage { name: "one.jpg".to_string(), data: vec![1, 1] }];
    let second = vec![
        EncodedImage { name: "two.jpg".to_string(), data: vec![2, 2] },
        EncodedImage { name: "three.png".to_string(), data: vec![3] },
    ];
    assert!(add_images(&mut zip, &first, ZipCompression::Stored).is_ok());
    assert!(add_images(&mut zip, &second, ZipCompression::Deflated).is_ok());
    let bytes = match finish_archive(zip) {
        Ok(bytes) => bytes,
        Err(_) => panic!("archive refused"),
    };
    let entries = read_entries(bytes);
    let names: Vec<&str> = entries.iter().map(|e| e.0.as_str()).collect();
    assert_eq!(names, vec!["one.jpg", "two.jpg", "three.png"]);
    assert_eq!(entries[1].1, vec![2, 2]);
    assert_eq!(entries[2].1, vec![3]);
}

#[test]
fn plugin_libraries_keeps_libraries_in_listing_order() {
    let files = vec![
        ("plugins/a.so", Some("so".to_string())),
        ("plugins/readme", None),
        ("plugins/b.txt", Some("txt".to_string())),
        ("plugins/c.dylib", Some("dylib".to_string())),
        ("plugins/d.DLL", Some("DLL".to_string())),
        ("plugins/e.dll", Some("dll".to_string())),
    ];
    assert_eq!(
        plugin_libraries(files),
        vec!["plugins/a.so", "plugins/c.dylib", "plugins/e.dll"]
    );
    let none: Vec<(&str, Option<String>)> = Vec::new();
    assert!(plugin_libraries(none).is_empty());
}

#[test]
fn zip_images_of_no_images_is_the_empty_archive() {
    for compression in [ZipCompression::Stored, ZipCompression::Deflated] {
        let bytes = match zip_images(&Vec::new(), compression) {
            Ok(bytes) => bytes,
            Err(_) => panic!("archive refused"),
        };
        let mut expected = vec![0x50, 0x4B, 0x05, 0x06];
        expected.extend(std::iter::repeat(0u8).take(18));
        assert_eq!(bytes, expected);
    }
}

#[test]
fn zip_images_end_record_counts_the_images() {
    let images: Vec<EncodedImage> = (0..5)
        .map(|i| EncodedImage { name: format!("img{}.jpg", i), data: vec![i as u8; 10 * i] })
        .collect();
    let bytes = match zip_images(&images, ZipCompression::Deflated) {
        Ok(bytes) => bytes,
        Err(_) => panic!("archive refused"),
    };
    let n = bytes.len();
    assert_eq!(&bytes[n - 22..n - 18], &[0x50, 0x4B, 0x05, 0x06]);
    assert_eq!(&bytes[n - 18..n - 10], &[0, 0, 0, 0, 5, 0, 5, 0]);
    assert_eq!(&bytes[n - 2..], &[0, 0]);
    assert_eq!(read_entries(bytes).len(), 5);
}

#[test]
fn zip_images_keeps_slash_separated_names() {
    let images = vec![
        EncodedImage { name: "out/a.jpg".to_string(), data: vec![1, 2] },
        EncodedImage { name: "out/deep/b.jpg".to_string(), data: vec![3] },
    ];
    let bytes = match zip_images(&images, ZipCompression::Deflated) {
        Ok(bytes) => bytes,
        Err(_) => panic!("archive refused"),
    };
    let entries = read_entries(bytes);
    assert_eq!(entries[0].0, "out/a.jpg");
    assert_eq!(entries[0].1, vec![1, 2]);
    assert_eq!(entries[1].0, "out/deep/b.jpg");
    assert_eq!(entries[1].1, vec![3]);
}
