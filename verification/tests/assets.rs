use novel_fetch::assets::ImageData;
use novel_fetch::assets::ImageMap;
use novel_fetch::assets::SnapshotError;
use novel_fetch::relay::add_or_update_images;
use novel_fetch::relay::clear_images;
use novel_fetch::relay::filter_images;
use novel_fetch::relay::get_all_images;
use novel_fetch::relay::get_image_by_url;
use novel_fetch::relay::get_server_port;
use novel_fetch::relay::init_controller;
use novel_fetch::relay::is_server_running;
use novel_fetch::relay::load_images_from_file;
use novel_fetch::relay::remove_image;
use novel_fetch::relay::save_images_to_file;
use novel_fetch::relay::set_images;
use novel_fetch::relay::start_failed;
use novel_fetch::relay::start_server;
use novel_fetch::relay::stop_server;
use novel_fetch::relay::update_config;
use novel_fetch::relay::AppConfig;
use novel_fetch::relay::Controller;
use novel_fetch::relay::Relay;
use novel_fetch::relay::RelayError;

fn image(seed: usize) -> ImageData {
    ImageData {
        u8_data: (0..(seed % 7 + 1)).map(|k| ((seed * 31 + k) % 256) as u8).collect(),
        base64_data: format!("b64-{}", seed),
        filename: format!("{}.png", seed),
        mime_type: "image/png".to_string(),
        file_path: if seed % 2 == 0 { Some(format!("downloads/{}.png", seed)) } else { None },
    }
}

fn same(a: &ImageData, b: &ImageData) -> bool {
    a.u8_data == b.u8_data
        && a.base64_data == b.base64_data
        && a.filename == b.filename
        && a.mime_type == b.mime_type
        && a.file_path == b.file_path
}

fn store(n: usize) -> ImageMap {
    let mut map = ImageMap::new();
    for i in 0..n {
        assert!(!map.insert(format!("https://example.org/{}.png", i), image(i)));
    }
    map
}

fn same_map(a: &ImageMap, b: &ImageMap) -> bool {
    a.len() == b.len()
        && a.entries().iter().zip(b.entries().iter()).all(|(x, y)| x.url == y.url && same(&x.image, &y.image))
}

#[test]
fn the_last_write_wins() {
    let mut map = ImageMap::new();
    assert!(map.is_empty());
    assert!(!map.insert("a".to_string(), image(1)));
    assert!(!map.insert("b".to_string(), image(2)));
    assert!(map.insert("a".to_string(), image(3)));
    assert_eq!(map.len(), 2);
    assert!(same(map.get("a").unwrap(), &image(3)));
    assert!(same(map.get("b").unwrap(), &image(2)));
    assert!(map.get("c").is_none());
    assert!(map.contains_key("a"));
    assert!(!map.contains_key("A"));
    assert_eq!(map.urls(), vec!["a".to_string(), "b".to_string()]);
}

#[test]
fn remove_and_clear() {
    let mut map = store(4);
    let gone = map.remove("https://example.org/1.png").unwrap();
    assert!(same(&gone, &image(1)));
    assert!(map.remove("https://example.org/1.png").is_none());
    assert_eq!(map.len(), 3);
    assert!(same(map.get("https://example.org/3.png").unwrap(), &image(3)));
    map.clear();
    assert!(map.is_empty());
    assert_eq!(map.len(), 0);
}

#[test]
fn extend_prefers_the_records_of_the_other_map() {
    let mut map = store(3);
    let mut other = ImageMap::new();
    other.insert("https://example.org/1.png".to_string(), image(11));
    other.insert("https://example.org/9.png".to_string(), image(9));
    map.extend(&other);
    assert_eq!(map.len(), 4);
    assert!(same(map.get("https://example.org/1.png").unwrap(), &image(11)));
    assert!(same(map.get("https://example.org/9.png").unwrap(), &image(9)));
    assert!(same(map.get("https://example.org/0.png").unwrap(), &image(0)));
}

#[test]
fn filter_keeps_what_the_predicate_accepts() {
    let map = store(6);
    let kept = map.filter(|_url: &String, image: &ImageData| image.file_path.is_some());
    assert_eq!(
        kept.urls(),
        vec![
            "https://example.org/0.png".to_string(),
            "https://example.org/2.png".to_string(),
            "https://example.org/4.png".to_string()
        ]
    );
    assert!(same(kept.get("https://example.org/2.png").unwrap(), &image(2)));
    let none = map.filter(|_url: &String, _image: &ImageData| false);
    assert!(none.is_empty());
}

fn round_trip(n: usize, level: u32) {
    let map = store(n);
    let bytes = map.to_snapshot(level).unwrap();
    let back = ImageMap::from_snapshot(&bytes).unwrap();
    assert!(same_map(&map, &back));
}

#[test]
fn a_snapshot_of_an_empty_store_gives_it_back() {
    round_trip(0, 6);
}

#[test]
fn a_snapshot_of_one_asset_gives_it_back() {
    round_trip(1, 0);
    round_trip(1, 9);
}

#[test]
fn a_snapshot_of_ten_thousand_assets_gives_them_back() {
    round_trip(10_000, 1);
}

#[test]
fn a_snapshot_is_compressed_and_is_not_the_encoding_itself() {
    let map = store(3);
    let bytes = map.to_snapshot(6).unwrap();
    // A gzip stream begins with its magic number.
    assert_eq!(&bytes[..2], &[0x1f, 0x8b]);
    let other = map.to_snapshot(0).unwrap();
    assert_ne!(bytes, other);
}

#[test]
fn every_level_up_to_nine_gives_a_snapshot() {
    let map = store(3);
    for level in 0..=9 {
        let bytes = map.to_snapshot(level).unwrap();
        assert!(same_map(&ImageMap::from_snapshot(&bytes).unwrap(), &map));
    }
    assert!(ImageMap::new().to_snapshot(0).is_ok());
}

#[test]
fn a_level_above_nine_is_refused() {
    let map = store(1);
    assert_eq!(map.to_snapshot(10).unwrap_err(), SnapshotError::Level);
    assert!(map.to_snapshot(9).is_ok());
}

#[test]
fn bytes_that_are_no_snapshot_are_refused() {
    assert_eq!(ImageMap::from_snapshot(b"not a snapshot").unwrap_err(), SnapshotError::Decompress);
    assert_eq!(ImageMap::from_snapshot(&[]).unwrap_err(), SnapshotError::Decompress);
    // A gzip stream whose data is no encoding of entries.
    let mut corrupt = store(2).to_snapshot(6).unwrap();
    let n = corrupt.len();
    corrupt.truncate(n / 2);
    assert!(ImageMap::from_snapshot(&corrupt).is_err());
}

#[test]
fn a_relay_without_a_controller_refuses() {
    let mut relay = Relay::new();
    assert_eq!(start_server(&mut relay).unwrap_err(), RelayError::NotInitialized);
    assert_eq!(stop_server(&mut relay).unwrap_err(), RelayError::NotInitialized);
    assert_eq!(get_image_by_url(&relay, "a").unwrap_err(), RelayError::NotInitialized);
    assert_eq!(get_all_images(&relay).unwrap_err(), RelayError::NotInitialized);
    assert_eq!(clear_images(&mut relay).unwrap_err(), RelayError::NotInitialized);
    assert_eq!(remove_image(&mut relay, "a").unwrap_err(), RelayError::NotInitialized);
    assert_eq!(is_server_running(&relay).unwrap_err(), RelayError::NotInitialized);
    assert_eq!(get_server_port(&relay).unwrap_err(), RelayError::NotInitialized);
    assert_eq!(update_config(&mut relay, |c: AppConfig| c).unwrap_err(), RelayError::NotInitialized);
    assert_eq!(set_images(&mut relay, store(1)).unwrap_err(), RelayError::NotInitialized);
    assert_eq!(add_or_update_images(&mut relay, store(1)).unwrap_err(), RelayError::NotInitialized);
    assert_eq!(load_images_from_file(&mut relay, b"x").unwrap_err(), RelayError::NotInitialized);
    assert_eq!(save_images_to_file(&relay, 6).unwrap_err(), RelayError::NotInitialized);
    assert_eq!(
        filter_images(&relay, |_u: &String, _i: &ImageData| true).unwrap_err(),
        RelayError::NotInitialized
    );
    assert!(relay.get_controller().is_err());
}

#[test]
fn a_relay_is_initialised_once() {
    let mut relay = Relay::new();
    assert!(init_controller(&mut relay, AppConfig::default()).is_ok());
    let mut other = AppConfig::default();
    other.set_server_port(9000);
    assert_eq!(init_controller(&mut relay, other).unwrap_err(), RelayError::AlreadyInitialized);
    assert_eq!(get_server_port(&relay).unwrap(), 8080);
}

#[test]
fn the_server_is_started_once() {
    let mut relay = Relay::new();
    init_controller(&mut relay, AppConfig::default()).unwrap();
    assert!(!is_server_running(&relay).unwrap());
    assert_eq!(start_server(&mut relay).unwrap(), 8080);
    assert!(is_server_running(&relay).unwrap());
    assert_eq!(start_server(&mut relay).unwrap_err(), RelayError::AlreadyRunning);
    stop_server(&mut relay).unwrap();
    assert!(!is_server_running(&relay).unwrap());
    assert!(relay.get_controller().unwrap().should_stop());
    assert_eq!(start_server(&mut relay).unwrap(), 8080);
    start_failed(&mut relay).unwrap();
    assert!(!is_server_running(&relay).unwrap());
    assert_eq!(start_server(&mut relay).unwrap(), 8080);
    assert_eq!(start_failed(&mut Relay::new()).unwrap_err(), RelayError::NotInitialized);
}

#[test]
fn the_assets_of_a_relay() {
    let mut relay = Relay::new();
    init_controller(&mut relay, AppConfig::default()).unwrap();
    set_images(&mut relay, store(3)).unwrap();
    assert!(same(&get_image_by_url(&relay, "https://example.org/2.png").unwrap().unwrap(), &image(2)));
    assert!(get_image_by_url(&relay, "https://example.org/7.png").unwrap().is_none());
    let mut more = ImageMap::new();
    more.insert("https://example.org/2.png".to_string(), image(22));
    more.insert("https://example.org/7.png".to_string(), image(7));
    add_or_update_images(&mut relay, more).unwrap();
    assert_eq!(get_all_images(&relay).unwrap().len(), 4);
    assert!(same(&get_image_by_url(&relay, "https://example.org/2.png").unwrap().unwrap(), &image(22)));
    let gone = remove_image(&mut relay, "https://example.org/0.png").unwrap().unwrap();
    assert!(same(&gone, &image(0)));
    assert!(remove_image(&mut relay, "https://example.org/0.png").unwrap().is_none());
    let odd = filter_images(&relay, |_u: &String, i: &ImageData| i.file_path.is_none()).unwrap();
    assert_eq!(odd.urls(), vec!["https://example.org/1.png".to_string(), "https://example.org/7.png".to_string()]);
    clear_images(&mut relay).unwrap();
    assert!(get_all_images(&relay).unwrap().is_empty());
}

#[test]
fn the_assets_of_a_relay_survive_a_snapshot() {
    let mut relay = Relay::new();
    init_controller(&mut relay, AppConfig::default()).unwrap();
    set_images(&mut relay, store(5)).unwrap();
    let bytes = save_images_to_file(&relay, 6).unwrap();
    assert_eq!(
        save_images_to_file(&relay, 12).unwrap_err(),
        RelayError::Snapshot(SnapshotError::Level)
    );
    clear_images(&mut relay).unwrap();
    assert_eq!(
        load_images_from_file(&mut relay, b"garbage").unwrap_err(),
        RelayError::Snapshot(SnapshotError::Decompress)
    );
    assert!(get_all_images(&relay).unwrap().is_empty());
    load_images_from_file(&mut relay, &bytes).unwrap();
    assert!(same_map(&get_all_images(&relay).unwrap(), &store(5)));
}

#[test]
fn the_settings_of_a_relay() {
    let config = AppConfig::default();
    assert_eq!(config.regex_pattern, "");
    assert_eq!(config.output_path, "downloads");
    assert_eq!(config.wait_time, 1000);
    assert!(config.send_to_rust);
    assert_eq!(config.server_port, 8080);
    assert!(!config.save_to_file);
    assert!(config.open_download);

    let mut config = config;
    config.set_regex_pattern(".*\\.png");
    config.set_output_path("out");
    config.set_wait_time(5);
    config.set_send_to_rust(false);
    config.set_server_port(1234);
    config.set_save_to_file(true);
    config.set_open_download(false);
    assert_eq!(config.regex_pattern, ".*\\.png");
    assert_eq!(config.output_path, "out");
    assert_eq!(config.wait_time, 5);
    assert!(!config.send_to_rust);
    assert_eq!(config.server_port, 1234);
    assert!(config.save_to_file);
    assert!(!config.open_download);

    let mut controller = Controller::new(config);
    assert_eq!(controller.get_port(), 1234);
    controller.update_config(|mut c: AppConfig| {
        c.set_server_port(4321);
        c
    });
    assert_eq!(controller.get_config().server_port, 4321);
    assert_eq!(controller.get_config().output_path, "out");
    assert!(!controller.is_running());
}
