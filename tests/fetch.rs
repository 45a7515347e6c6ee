use epine::fetch::{archive_root, classify_remote, first_directory};
use epine::{FetchStep, ModuleCoordinate, RemoteRejection};
use std::io::Write;

fn coordinate(o: &str, r: &str, t: &str) -> ModuleCoordinate {
    ModuleCoordinate {
        owner: o.to_string(),
        repository: r.to_string(),
        reference: t.to_string(),
    }
}

#[test]
fn remote_name_parses_into_coordinate() {
    assert_eq!(
        ModuleCoordinate::parse("@acme/widgets/v1"),
        Some(coordinate("acme", "widgets", "v1"))
    );
}

#[test]
fn malformed_coordinate_is_rejected_before_fetching() {
    assert_eq!(classify_remote("@acme"), Err(RemoteRejection::Malformed));
    assert_eq!(classify_remote("@acme/widgets"), Err(RemoteRejection::Malformed));
    assert_eq!(classify_remote("@acme/widgets/v1/x"), Err(RemoteRejection::Malformed));
    assert_eq!(classify_remote("@acme//v1"), Err(RemoteRejection::Malformed));
    assert_eq!(classify_remote("@/widgets/v1"), Err(RemoteRejection::Malformed));
    assert_eq!(classify_remote("@acme/widgets/"), Err(RemoteRejection::Malformed));
    assert_eq!(classify_remote("@"), Err(RemoteRejection::Malformed));
    assert_eq!(ModuleCoordinate::parse("@acme"), None);
    assert_eq!(
        classify_remote("@acme").unwrap_err().message(),
        "couldn't fetch remote module"
    );
}

#[test]
fn local_names_are_not_remote() {
    assert_eq!(classify_remote("acme/widgets/v1"), Err(RemoteRejection::NotRemote));
    assert_eq!(classify_remote(""), Err(RemoteRejection::NotRemote));
    assert_eq!(RemoteRejection::NotRemote.message(), "not a remote module");
    assert_eq!(RemoteRejection::Malformed.message(), "couldn't fetch remote module");
    assert_eq!(classify_remote("@acme/widgets/v1"), Ok(coordinate("acme", "widgets", "v1")));
}

#[test]
fn first_fetch_downloads_then_cache_is_used() {
    let c = ModuleCoordinate::parse("@acme/widgets/v1").unwrap();
    assert_eq!(c.cache_dir("cache-root"), "cache-root/github/@acme/widgets/v1");
    let first = c.fetch_step("cache-root", false);
    assert_eq!(
        first,
        FetchStep::Download {
            url: "https://github.com/acme/widgets/tarball/v1".to_string(),
            dir: "cache-root/github/@acme/widgets/v1".to_string(),
        }
    );
    let later = c.fetch_step("cache-root", true);
    assert_eq!(later, FetchStep::UseCached("cache-root/github/@acme/widgets/v1".to_string()));
    assert_eq!(c.fetch_step("cache-root", true), later);
}

#[test]
fn tarball_url_uses_every_part() {
    assert_eq!(
        coordinate("o", "r", "main").tarball_url(),
        "https://github.com/o/r/tarball/main"
    );
}

#[test]
fn first_directory_of_listing() {
    let listing = vec![
        ("pax_global_header".to_string(), false),
        ("acme-widgets-1a2b/".to_string(), true),
        ("acme-widgets-1a2b/sub/".to_string(), true),
    ];
    assert_eq!(first_directory(&listing), Some("acme-widgets-1a2b/".to_string()));
    assert_eq!(first_directory(&vec![("f".to_string(), false)]), None);
}

fn package_archive() -> Vec<u8> {
    let mut tar_bytes = Vec::new();
    {
        let mut builder = tar::Builder::new(&mut tar_bytes);
        let mut dir = tar::Header::new_gnu();
        dir.set_entry_type(tar::EntryType::Directory);
        dir.set_size(0);
        dir.set_mode(0o755);
        dir.set_cksum();
        builder.append_data(&mut dir, "acme-widgets-1a2b/", &[][..]).unwrap();
        let body = b"return {}\n";
        let mut file = tar::Header::new_gnu();
        file.set_size(body.len() as u64);
        file.set_mode(0o644);
        file.set_cksum();
        builder.append_data(&mut file, "acme-widgets-1a2b/init.lua", &body[..]).unwrap();
        builder.finish().unwrap();
    }
    let mut gz = flate2::write::GzEncoder::new(Vec::new(), flate2::Compression::default());
    gz.write_all(&tar_bytes).unwrap();
    gz.finish().unwrap()
}

#[test]
fn archive_root_is_the_wrapping_folder() {
    let root = archive_root(&package_archive()).unwrap();
    assert_eq!(root.trim_end_matches('/'), "acme-widgets-1a2b");
}

#[test]
fn corrupt_archive_has_no_root() {
    assert_eq!(archive_root(b"not gzip at all"), None);
    assert_eq!(archive_root(&[]), None);
}
