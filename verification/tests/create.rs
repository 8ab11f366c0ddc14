use waj::create::content::{Added, CachedContentPack};
use waj::create::creator::{FsCreator, MainEntry};
use waj::create::entry::{Entry, EntryKind as StoredKind, Value};
use waj::create::entry_store_creator::{schema, EntryStoreCreator, PropertySchema, Store};
use waj::create::fs_adder::{
    detect_mime, file_type, keep_name, mime_from_head, mime_from_path, sniff_html, sniff_size,
    FileType, FsAdder, FsEntry, FsEntryKind, Namer, StripPrefix,
};
use waj::create::order::sort_by_path;
use waj::create::output::{
    check_input_accessible, check_input_relative, check_output_path_writable,
    concat_mode_or_default, CachedSize, ConcatMode, CreateError,
};
use waj::create::{EntryKind, EntryTrait};
use waj::entry::{ContentAddress, EntryType};
use waj::error::CreatorError;
use waj::properties::Property;
use waj::Waj;

#[test]
fn entry_store_creator_test_empty() {
    let entry_store_creator = EntryStoreCreator::new(None);
    let store = entry_store_creator.finalize();
    assert!(store.entries.is_empty());
    assert_eq!(store.index.name, "waj_entries");
    assert_eq!(store.index.entry_count, 0);
    assert_eq!(store.index.first_entry, 0);
}

struct SimpleEntry(String);

impl EntryTrait for SimpleEntry {
    fn name(&self) -> String {
        self.0.clone()
    }

    fn kind(&self) -> Result<Option<EntryKind>, CreatorError> {
        Ok(Some(EntryKind::Content(
            ContentAddress::new(1, 0),
            "application/octet-stream".to_string(),
        )))
    }
}

#[test]
fn entry_store_creator_test_one_content() {
    let mut entry_store_creator = EntryStoreCreator::new(None);
    let entry = SimpleEntry("foo.txt".into());
    entry_store_creator.add_entry(&entry).unwrap();
    let store = entry_store_creator.finalize();

    assert_eq!(store.index.name, "waj_entries");
    assert!(store.index.entry_count != 0);
    assert_eq!(store.index.entry_count, 1);
    let waj = Waj::new(store.entries).unwrap();
    assert_eq!(waj.len(), 1);
    match waj.get_entry("foo.txt").unwrap() {
        waj::Entry::Content(content) => {
            assert_eq!(content.mimetype(), b"application/octet-stream");
            assert_eq!(content.content(), ContentAddress::new(1, 0));
        }
        waj::Entry::Redirect(_) => panic!("a file was added"),
    }
}

#[test]
fn empty_test_empty() {
    let creator = FsCreator::new(StripPrefix::new(String::new()));
    let store = creator.finalize();
    assert!(store.entries.is_empty());
    assert!(Waj::new(store.entries).is_ok());
}

struct Failing;

impl EntryTrait for Failing {
    fn name(&self) -> String {
        "never".to_string()
    }

    fn kind(&self) -> Result<Option<EntryKind>, CreatorError> {
        Err(CreatorError::IoError("unreadable".to_string()))
    }
}

struct Nothing;

impl EntryTrait for Nothing {
    fn name(&self) -> String {
        "nothing".to_string()
    }

    fn kind(&self) -> Result<Option<EntryKind>, CreatorError> {
        Ok(None)
    }
}

#[test]
fn add_entry_hands_errors_on_and_skips_what_has_no_kind() {
    let mut creator = EntryStoreCreator::new(Some(4));
    let error = creator.add_entry(&Failing).unwrap_err();
    assert_eq!(error.message(), "unreadable");
    assert_eq!(creator.len(), 0);
    creator.add_entry(&Nothing).unwrap();
    assert_eq!(creator.len(), 0);
    creator.add_entry(&SimpleEntry("a".into())).unwrap();
    assert_eq!(creator.len(), 1);
    assert_eq!(CreatorError::Jbk("pack".into()).message(), "pack");
}

#[test]
fn test_crate_non_existant_output_directory() {
    let waj_file = "/tmp/non_existant_directory/test.waj";
    let parent = "/tmp/non_existant_directory";
    let error = check_output_path_writable(waj_file, parent, false, false, false).unwrap_err();
    assert_eq!(
        format!("Error : {}\n", error.message()),
        format!("Error : Directory {} doesn't exist\n", parent)
    );
    assert!(matches!(error, CreateError::MissingDirectory(_)));
    let error = check_output_path_writable(waj_file, parent, false, true, true).unwrap_err();
    assert!(matches!(error, CreateError::MissingDirectory(_)));
}

#[test]
fn existing_output_needs_force() {
    let waj_file = "/tmp/out/test.waj";
    let error = check_output_path_writable(waj_file, "/tmp/out", true, true, false).unwrap_err();
    assert_eq!(
        format!("Error : {}\n", error.message()),
        format!("Error : File {} already exists. Use option --force to overwrite it.\n", waj_file)
    );
    assert!(check_output_path_writable(waj_file, "/tmp/out", true, true, true).is_ok());
    assert!(check_output_path_writable(waj_file, "/tmp/out", true, false, false).is_ok());
    assert!(check_output_path_writable(waj_file, "/tmp/out", true, false, true).is_ok());
}

#[test]
fn inputs_must_be_relative() {
    assert!(check_input_relative("dir/a", false).is_ok());
    let error = check_input_relative("/abs/a", true).unwrap_err();
    assert_eq!(error.message(), "Input file (/abs/a) must be relative.");
}

#[test]
fn concat_mode_defaults_to_one_file() {
    assert_eq!(concat_mode_or_default(None), ConcatMode::OneFile);
    assert_eq!(concat_mode_or_default(Some(ConcatMode::OneFile)), ConcatMode::OneFile);
    assert_eq!(concat_mode_or_default(Some(ConcatMode::NoConcat)), ConcatMode::NoConcat);
    assert_eq!(concat_mode_or_default(Some(ConcatMode::TwoFiles)), ConcatMode::TwoFiles);
}

#[test]
fn test_crate_non_existant_input() {
    let error = check_input_accessible("non_existant_dir", false).unwrap_err();
    assert_eq!(
        format!("Error : {}\n", error.message()),
        "Error : Input non_existant_dir path doesn't exist or cannot be accessed\n"
    );
    assert!(matches!(error, CreateError::MissingInput(_)));
    assert!(check_input_accessible("existing_dir", true).is_ok());
}

#[test]
fn cached_size_adds_up() {
    let mut size = CachedSize::new();
    assert_eq!(size.get(), 0);
    size.cached_data(10);
    size.cached_data(32);
    assert_eq!(size.get(), 42);
    size.cached_data(u64::MAX - 42);
    assert_eq!(size.get(), u64::MAX);
}

fn path_of(entry: &Entry) -> &[u8] {
    &entry.path
}

fn target_of(entry: &Entry) -> Option<&[u8]> {
    match &entry.kind {
        StoredKind::Redirect(target) => Some(target),
        StoredKind::Content(_) => None,
    }
}

#[test]
fn main_entry_is_a_redirect_from_the_empty_path() {
    let mut creator = FsCreator::new(StripPrefix::new(String::new()));
    creator.add_redirect("zzz", "a").unwrap();
    creator.add_redirect("index.html", "a").unwrap();
    assert_eq!(creator.add_main(Some("main.html")), MainEntry::Declared);
    let store = creator.finalize();
    assert_eq!(store.entries.len(), 3);
    assert_eq!(path_of(&store.entries[0]), b"");
    assert_eq!(target_of(&store.entries[0]), Some(&b"main.html"[..]));

    let mut creator = FsCreator::new(StripPrefix::new(String::new()));
    assert!(!creator.has_index());
    creator.add_redirect("dir/index.html", "a").unwrap();
    creator.add_redirect("index.htm", "a").unwrap();
    assert!(!creator.has_index());
    creator.add_redirect("index.html", "a").unwrap();
    assert!(creator.has_index());
    assert_eq!(creator.add_main(None), MainEntry::Implicit);
    let store = creator.finalize();
    assert_eq!(path_of(&store.entries[0]), b"");
    assert_eq!(target_of(&store.entries[0]), Some(&b"index.html"[..]));

    let mut creator = FsCreator::new(StripPrefix::new(String::new()));
    creator.add_redirect("a.html", "b").unwrap();
    assert_eq!(creator.add_main(None), MainEntry::Absent);
    assert_eq!(creator.finalize().entries.len(), 1);

    let mut store = EntryStoreCreator::new(None);
    store.add_kind("a", Some(EntryKind::Redirect("b".to_string())));
    assert!(store.has_path(b"a"));
    assert!(!store.has_path(b"b"));
    assert!(!store.has_path(b""));
}

#[test]
fn entries_are_sorted_by_path_bytes() {
    let mut creator = EntryStoreCreator::new(None);
    for name in ["b", "a/b", "a", "", "B", "a.txt", "\u{e9}", "ab", "a/"] {
        creator.add_kind(name, Some(EntryKind::Redirect(name.to_uppercase())));
    }
    let store = creator.finalize();
    let paths: Vec<&[u8]> = store.entries.iter().map(path_of).collect();
    let expected: Vec<&[u8]> =
        vec![b"", b"B", b"a", b"a.txt", b"a/", b"a/b", b"ab", b"b", "\u{e9}".as_bytes()];
    assert_eq!(paths, expected);
    assert_eq!(store.index.entry_count, 9);
}

#[test]
fn sort_keeps_the_order_of_equal_paths() {
    let mut entries = Vec::new();
    for (path, tag) in [("b", "1"), ("a", "2"), ("b", "3"), ("a", "4"), ("c", "5"), ("a", "6"), ("b", "7")] {
        entries.push(Entry::new_redirect(path.into(), tag.into()));
    }
    let sorted = sort_by_path(entries);
    let got: Vec<(&[u8], &[u8])> =
        sorted.iter().map(|e| (path_of(e), target_of(e).unwrap())).collect();
    let expected: Vec<(&[u8], &[u8])> = vec![
        (b"a", b"2"),
        (b"a", b"4"),
        (b"a", b"6"),
        (b"b", b"1"),
        (b"b", b"3"),
        (b"b", b"7"),
        (b"c", b"5"),
    ];
    assert_eq!(got, expected);
}

#[test]
fn sort_of_many_entries_agrees_with_a_stable_sort() {
    let mut seed: u32 = 12345;
    let mut names = Vec::new();
    for i in 0..1000u32 {
        seed = seed.wrapping_mul(1664525).wrapping_add(1013904223);
        names.push((format!("p{}", seed % 97), i));
    }
    let entries: Vec<Entry> = names
        .iter()
        .map(|(name, i)| Entry::new_redirect(name.clone().into_bytes(), i.to_string().into_bytes()))
        .collect();
    let sorted = sort_by_path(entries);
    let mut expected = names.clone();
    expected.sort_by(|a, b| a.0.as_bytes().cmp(b.0.as_bytes()));
    assert_eq!(sorted.len(), expected.len());
    for (entry, (name, i)) in sorted.iter().zip(expected.iter()) {
        assert_eq!(path_of(entry), name.as_bytes());
        assert_eq!(target_of(entry).unwrap(), i.to_string().as_bytes());
    }
}

#[test]
fn lookup_after_creation_finds_first_added_entry() {
    let mut creator = EntryStoreCreator::new(None);
    creator.add_kind("dup", Some(EntryKind::Redirect("first".to_string())));
    creator.add_kind("other", Some(EntryKind::Redirect("x".to_string())));
    creator.add_kind("dup", Some(EntryKind::Redirect("second".to_string())));
    let waj = Waj::new(creator.finalize().entries).unwrap();
    match waj.get_entry("dup").unwrap() {
        waj::Entry::Redirect(redirect) => assert_eq!(redirect.target(), b"first"),
        waj::Entry::Content(_) => panic!("redirects were added"),
    }
}

#[test]
fn mime_comes_from_the_extension_first() {
    assert_eq!(mime_from_path("a.txt").as_deref(), Some("text/plain"));
    assert_eq!(mime_from_path("dir/page.HTML").as_deref(), Some("text/html"));
    assert_eq!(mime_from_path("style.css").as_deref(), Some("text/css"));
    assert_eq!(mime_from_path("pic.png").as_deref(), Some("image/png"));
    assert_eq!(mime_from_path("noext"), None);
    assert_eq!(mime_from_path("a.unknownext"), None);
    assert_eq!(detect_mime("a.txt", b"<html>"), "text/plain");
    assert_eq!(detect_mime("noext", b"<html>"), "text/html");
    assert_eq!(detect_mime("noext", b"hello"), "application/octet-stream");
}

#[test]
fn sniffing_looks_for_html_in_the_first_hundred_bytes() {
    assert!(sniff_html(b"html"));
    assert!(sniff_html(b"<!DOCTYPE html>"));
    assert!(!sniff_html(b"HTML"));
    assert!(!sniff_html(b"htm"));
    assert!(!sniff_html(b""));
    assert!(!sniff_html(b"h t m l"));
    let mut late = vec![b' '; 96];
    late.extend_from_slice(b"html");
    assert_eq!(late.len(), 100);
    assert!(sniff_html(&late));
    let mut straddling = vec![b' '; 97];
    straddling.extend_from_slice(b"html");
    assert!(!sniff_html(&straddling));
    let mut beyond = vec![b' '; 100];
    beyond.extend_from_slice(b"html");
    assert!(!sniff_html(&beyond));
    assert_eq!(mime_from_head(&late), "text/html");
    assert_eq!(mime_from_head(&beyond), "application/octet-stream");
    assert_eq!(sniff_size(0), 0);
    assert_eq!(sniff_size(99), 99);
    assert_eq!(sniff_size(100), 100);
    assert_eq!(sniff_size(u64::MAX), 100);
}

#[test]
fn file_type_prefers_regular_files() {
    assert_eq!(file_type(true, false), FileType::File);
    assert_eq!(file_type(true, true), FileType::File);
    assert_eq!(file_type(false, true), FileType::Link);
    assert_eq!(file_type(false, false), FileType::Other);
}

#[test]
fn fs_entries_become_content_redirects_or_nothing() {
    let file = FsEntry::new_from_walk_entry(
        "/src/a.txt".to_string(),
        "a.txt".to_string(),
        FsEntryKind::File(ContentAddress::new(1, 7), "text/plain".to_string()),
    );
    assert_eq!(file.name(), "a.txt");
    match file.kind().unwrap() {
        Some(EntryKind::Content(address, mime)) => {
            assert_eq!(address, ContentAddress::new(1, 7));
            assert_eq!(mime, "text/plain");
        }
        _ => panic!("a file is content"),
    }
    let link = FsEntry::new_from_walk_entry(
        "/src/l".to_string(),
        "l".to_string(),
        FsEntryKind::Link { target: "a.txt".to_string(), to_directory: false },
    );
    assert!(matches!(link.kind().unwrap(), Some(EntryKind::Redirect(t)) if t == "a.txt"));
    let dir_link = FsEntry::new_from_walk_entry(
        "/src/d".to_string(),
        "d".to_string(),
        FsEntryKind::Link { target: "sub".to_string(), to_directory: true },
    );
    assert!(dir_link.kind().unwrap().is_none());
    let other = FsEntry::new_from_walk_entry("/src/x".to_string(), "x".to_string(), FsEntryKind::Other);
    assert!(other.kind().unwrap().is_none());

    let mut creator = EntryStoreCreator::new(None);
    let namer = StripPrefix::new("/src".to_string());
    let mut adder = FsAdder::new(&mut creator, &namer);
    for entry in [&file, &link, &dir_link, &other] {
        adder.add_entry(entry).unwrap();
    }
    assert_eq!(creator.len(), 2);
}

#[test]
fn strip_prefix_names_paths() {
    let namer = StripPrefix::new("/src/site".to_string());
    assert_eq!(namer.rename("/src/site/a/b.txt").as_deref(), Some("a/b.txt"));
    assert_eq!(namer.strip("/src/site/a/b.txt").as_deref(), Some("a/b.txt"));
    assert_eq!(namer.rename("/src/site").as_deref(), Some(""));
    assert_eq!(namer.rename("/src/site/").as_deref(), Some(""));
    assert_eq!(namer.rename("/src//site/a").as_deref(), Some("a"));
    assert_eq!(namer.rename("/src/other/a"), None);
    assert_eq!(namer.rename("/src/sitemap"), None);
    let relative = StripPrefix::new("site".to_string());
    assert_eq!(relative.rename("site/index.html").as_deref(), Some("index.html"));
    let none = StripPrefix::new(String::new());
    assert_eq!(none.rename("a/b").as_deref(), Some("a/b"));

    let mut creator = EntryStoreCreator::new(None);
    let adder = FsAdder::new(&mut creator, &namer);
    assert_eq!(adder.name_of("/src/site/a.txt").as_deref(), Some("a.txt"));
    assert_eq!(adder.name_of("/src/site"), None);
    assert_eq!(adder.name_of("/elsewhere"), None);
    assert_eq!(keep_name(Some("a".to_string())).as_deref(), Some("a"));
    assert_eq!(keep_name(Some(String::new())), None);
    assert_eq!(keep_name(None), None);
}

#[test]
fn same_content_is_stored_once() {
    let mut pack = CachedContentPack::new();
    assert_eq!(pack.add_content(b"hello"), Added::Fresh(0));
    assert_eq!(pack.add_content(b"world"), Added::Fresh(1));
    assert_eq!(pack.add_content(b"hello"), Added::Cached(0));
    assert_eq!(pack.add_content(b""), Added::Fresh(2));
    assert_eq!(pack.add_content(b"world"), Added::Cached(1));
    assert_eq!(pack.add_content(b""), Added::Cached(2));
    assert_eq!(pack.len(), 3);
    assert_eq!(Added::Cached(1).address(), ContentAddress::new(1, 1));
    assert_eq!(Added::Fresh(2).address(), ContentAddress { pack_id: 1, content_id: 2 });
}

#[test]
fn digests_tell_contents_apart() {
    let mut pack = CachedContentPack::new();
    let digest = blake3::hash(b"hello").as_bytes().to_vec();
    assert_eq!(pack.add_digest(digest.clone()), Added::Fresh(0));
    assert_eq!(pack.add_content(b"hello"), Added::Cached(0));
    assert_eq!(pack.find(&digest), Some(0));
    assert_eq!(pack.find(b"hello"), None);
    assert_eq!(pack.add_content(b"hellp"), Added::Fresh(1));
}

#[test]
fn schema_of_a_web_archive() {
    let schema = schema();
    assert_eq!(
        schema.common,
        [PropertySchema::Array { inline: 1, store: Store::Path, name: Property::Path }]
    );
    assert_eq!(
        schema.content,
        [
            PropertySchema::Array { inline: 0, store: Store::Mime, name: Property::Mimetype },
            PropertySchema::ContentAddress { name: Property::Content },
        ]
    );
    assert_eq!(
        schema.redirect,
        [PropertySchema::Array { inline: 1, store: Store::Path, name: Property::Target }]
    );
    assert_eq!(schema.sort_keys, [Property::Path]);
}

#[test]
fn records_give_their_values_by_property() {
    let file = Entry::new_content(b"a.txt".to_vec(), b"text/plain".to_vec(), ContentAddress::new(1, 3));
    assert_eq!(file.variant_name(), Some(EntryType::Content));
    assert_eq!(file.value_count(), 3);
    assert!(matches!(file.value(&Property::Path), Value::Array(v) if v == b"a.txt"));
    assert!(matches!(file.value(&Property::Mimetype), Value::Array(v) if v == b"text/plain"));
    assert!(matches!(file.value(&Property::Content), Value::Content(a) if a == ContentAddress::new(1, 3)));

    let link = Entry::new_redirect(b"l".to_vec(), b"a.txt".to_vec());
    assert_eq!(link.variant_name(), Some(EntryType::Redirect));
    assert_eq!(link.value_count(), 2);
    assert!(matches!(link.value(&Property::Path), Value::Array(v) if v == b"l"));
    assert!(matches!(link.value(&Property::Target), Value::Array(v) if v == b"a.txt"));
}
