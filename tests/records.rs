use vs_launcher::auth::{login_error, session_error};
use vs_launcher::installations::{launch_args, save_name};
use vs_launcher::mods::{
    archive_summary, is_modinfo_entry, mod_file_name, mod_query_params, output_mod,
    FetchModsParams, ModSortBy, ModSortOrder,
};
use vs_launcher::news::{Channel, NewsItem, Rss};
use vs_launcher::split_on;

#[test]
fn sort_keys_parse() {
    assert_eq!("asset.created".parse::<ModSortBy>(), Ok(ModSortBy::Created));
    assert_eq!("lastreleased".parse::<ModSortBy>(), Ok(ModSortBy::LastReleased));
    assert_eq!("downloads".parse::<ModSortBy>(), Ok(ModSortBy::Downloads));
    assert_eq!("follows".parse::<ModSortBy>(), Ok(ModSortBy::Follows));
    assert_eq!("comments".parse::<ModSortBy>(), Ok(ModSortBy::Comments));
    assert_eq!("trendingpoints".parse::<ModSortBy>(), Ok(ModSortBy::TrendingPoints));
    assert_eq!("Downloads".parse::<ModSortBy>(), Err("unknown sort key"));
    assert_eq!("asc".parse::<ModSortOrder>(), Ok(ModSortOrder::Asc));
    assert_eq!("desc".parse::<ModSortOrder>(), Ok(ModSortOrder::Desc));
    assert_eq!("up".parse::<ModSortOrder>(), Err("unknown sort order"));
}

#[test]
fn output_mod_defaults() {
    let m = output_mod(None, None, None, None, "/m/a.zip".to_string());
    assert_eq!(m.modid, "0");
    assert_eq!(m.name, "Unknown Mod");
    assert_eq!(m.authors, vec!["Unknown".to_string()]);
    assert_eq!(m.version, "0.0.0");
    assert_eq!(m.path, "/m/a.zip");
    let n = output_mod(
        Some("x".to_string()),
        Some("X".to_string()),
        Some(vec![]),
        Some("1.2.3".to_string()),
        "p".to_string(),
    );
    assert_eq!(n.modid, "x");
    assert!(n.authors.is_empty());
    assert_eq!(n.version, "1.2.3");
}

#[test]
fn modinfo_entries() {
    assert!(is_modinfo_entry("modinfo.json"));
    assert!(is_modinfo_entry("inner/ModInfo.JSON"));
    assert!(!is_modinfo_entry("modinfo.json.bak"));
}

#[test]
fn archive_summaries() {
    let a = archive_summary("/m/a.zip", false, false).unwrap();
    assert_eq!(a.stage, "missing_modinfo");
    assert_eq!(a.file, "/m/a.zip");
    let b = archive_summary("/m/a.zip", true, false).unwrap();
    assert_eq!(b.stage, "zip_summary");
    assert!(archive_summary("/m/a.zip", true, true).is_none());
}

#[test]
fn mod_downloads_and_queries() {
    assert_eq!(mod_file_name("https://mods/download?dl=mymod_1.0.zip"), "mymod_1.0.zip");
    let q = mod_query_params(&FetchModsParams {
        versions: vec!["1.20".to_string(), "1.21".to_string()],
        search: "map".to_string(),
    });
    assert_eq!(
        q,
        vec![
            ("gameversions[]".to_string(), "1.20".to_string()),
            ("gameversions[]".to_string(), "1.21".to_string()),
            ("text".to_string(), "map".to_string()),
        ]
    );
    let empty = mod_query_params(&FetchModsParams { versions: vec![], search: String::new() });
    assert!(empty.is_empty());
}

#[test]
fn session_and_login_errors() {
    assert!(session_error(1, None).is_none());
    let e = session_error(0, None).unwrap();
    assert_eq!(e.name, "invalid_session");
    assert_eq!(e.message, "Invalid session");
    assert!(login_error(1, None, None).is_none());
    let p = login_error(0, Some("tok".to_string()), None).unwrap();
    assert_eq!(p.name, "tok");
    assert_eq!(p.message, "Pre-login required");
    let l = login_error(0, None, Some("bad password".to_string())).unwrap();
    assert_eq!(l.name, "invalid_login");
    assert_eq!(l.message, "bad password");
}

#[test]
fn launch_arguments() {
    assert_eq!(
        launch_args("/data", Some("host:1"), None, "  -a  b\t"),
        vec!["--dataPath", "/data", "--connect", "host:1", "-a", "b"]
    );
    assert_eq!(
        launch_args("/data", None, Some("pw"), ""),
        vec!["--dataPath", "/data", "--password", "pw"]
    );
}

#[test]
fn save_file_names() {
    assert_eq!(save_name("world.vcdbs"), Some("world".to_string()));
    assert_eq!(save_name("a.b.vcdbs"), Some("a.b".to_string()));
    assert_eq!(save_name(".vcdbs"), None);
    assert_eq!(save_name("world.VCDBS"), None);
    assert_eq!(save_name("world.txt"), None);
}

#[test]
fn feed_items_in_order() {
    let item = |t: &str| NewsItem {
        title: t.to_string(),
        link: String::new(),
        description: String::new(),
        guid: String::new(),
        pub_date: String::new(),
    };
    let rss = Rss { channel: Channel { item: vec![item("one"), item("two")] } };
    let items = rss.into_items();
    assert_eq!(items.len(), 2);
    assert_eq!(items[1].title, "two");
}

#[test]
fn split_keeps_empty_parts() {
    assert_eq!(split_on("a;;b", ';'), vec!["a", "", "b"]);
    assert_eq!(split_on("", ';'), vec![""]);
}
