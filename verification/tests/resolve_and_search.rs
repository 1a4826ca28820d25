use deep_search::catalog::Catalog;
use deep_search::decode::decode_buffer;
use deep_search::entry::FileEntry;
use deep_search::resolve::{name_is_pseudo, resolve_path, MAX_HOPS};
use deep_search::search::{entry_matches, folded_name_matches};

fn entry(id: u64, parent_id: u64, name: &str, is_dir: bool, drive_idx: u8) -> FileEntry {
    FileEntry::new(id, parent_id, name.to_string(), is_dir, drive_idx)
}

fn small_catalog() -> Catalog {
    Catalog::build(vec![
        entry(3, 2, "report.txt", false, 0),
        entry(1, 1, "Root", true, 0),
        entry(2, 1, "Docs", true, 0),
    ])
}

fn drives() -> Vec<String> {
    vec!["V:".to_string()]
}

fn ids(hits: &[FileEntry]) -> Vec<u64> {
    hits.iter().map(|e| e.id).collect()
}

#[test]
fn resolves_nested_file_below_volume_name() {
    let catalog = small_catalog();
    assert_eq!(catalog.resolve(3, 0, &drives()), "V:\\Docs\\report.txt");
    let leaf = catalog.get(0, 3).unwrap();
    assert_eq!(resolve_path(leaf, &catalog, &drives()), "V:\\Docs\\report.txt");
}

#[test]
fn search_by_prefix_returns_only_the_matching_entry() {
    let catalog = small_catalog();
    let hits = catalog.search("rep");
    assert_eq!(hits.len(), 1);
    assert_eq!(hits[0].id, 3);
    assert_eq!(hits[0].name, "report.txt");
    assert_eq!(hits[0].parent_id, 2);
    assert!(!hits[0].is_dir);
}

#[test]
fn root_resolves_to_volume_name_and_separator() {
    let catalog = small_catalog();
    assert_eq!(catalog.resolve(1, 0, &drives()), "V:\\");
}

#[test]
fn directory_resolves_without_trailing_separator() {
    let catalog = small_catalog();
    assert_eq!(catalog.resolve(2, 0, &drives()), "V:\\Docs");
}

#[test]
fn resolving_twice_gives_the_same_path() {
    let catalog = small_catalog();
    let first = catalog.resolve(3, 0, &drives());
    let second = catalog.resolve(3, 0, &drives());
    assert_eq!(first, second);
    assert_eq!(catalog.len(), 3);
}

#[test]
fn unknown_entry_resolves_to_volume_name_alone() {
    let catalog = small_catalog();
    assert_eq!(catalog.resolve(99, 0, &drives()), "V:\\");
    assert_eq!(Catalog::new().resolve(1, 0, &drives()), "V:\\");
}

#[test]
fn dangling_parent_resolves_to_what_was_gathered() {
    let catalog = Catalog::build(vec![
        entry(10, 777, "orphans", true, 0),
        entry(11, 10, "child.bin", false, 0),
    ]);
    assert_eq!(catalog.resolve(11, 0, &drives()), "V:\\orphans\\child.bin");
}

#[test]
fn unknown_volume_gets_placeholder() {
    let catalog = Catalog::build(vec![entry(1, 1, "Root", true, 5), entry(2, 1, "a", false, 5)]);
    assert_eq!(catalog.resolve(2, 5, &drives()), "?\\a");
    assert_eq!(catalog.resolve(1, 5, &Vec::new()), "?\\");
}

#[test]
fn parents_are_looked_up_on_the_entrys_own_volume() {
    let catalog = Catalog::build(vec![
        entry(1, 1, "RootC", true, 0),
        entry(2, 1, "OnC", true, 0),
        entry(1, 1, "RootD", true, 1),
        entry(2, 1, "OnD", true, 1),
        entry(3, 2, "leaf", false, 1),
    ]);
    let drives = vec!["C:".to_string(), "D:".to_string()];
    assert_eq!(catalog.resolve(3, 1, &drives), "D:\\OnD\\leaf");
    assert_eq!(catalog.resolve(2, 0, &drives), "C:\\OnC");
    assert_eq!(catalog.resolve(3, 0, &drives), "C:\\");
}

#[test]
fn pseudo_names_are_left_out() {
    let catalog = Catalog::build(vec![
        entry(1, 1, "Root", true, 0),
        entry(2, 1, "a", true, 0),
        entry(3, 2, ".", true, 0),
        entry(4, 3, "..", true, 0),
        entry(5, 4, "...", true, 0),
        entry(6, 5, "b", false, 0),
    ]);
    assert_eq!(catalog.resolve(6, 0, &drives()), "V:\\a\\...\\b");
    assert!(name_is_pseudo("."));
    assert!(name_is_pseudo(".."));
    assert!(!name_is_pseudo("..."));
    assert!(!name_is_pseudo(""));
    assert!(!name_is_pseudo("a"));
    assert!(!name_is_pseudo(".a"));
}

#[test]
fn cycle_of_parents_ends_at_the_hop_limit() {
    let catalog = Catalog::build(vec![entry(1, 2, "a", true, 0), entry(2, 1, "b", true, 0)]);
    let path = catalog.resolve(1, 0, &drives());
    let parts: Vec<&str> = path.strip_prefix("V:\\").unwrap().split('\\').collect();
    assert_eq!(parts.len(), MAX_HOPS);
    assert_eq!(parts[parts.len() - 1], "a");
    assert_eq!(parts[parts.len() - 2], "b");
    assert_eq!(parts[0], "b");
    assert_eq!(MAX_HOPS, 200);
}

#[test]
fn chain_longer_than_the_hop_limit_is_cut() {
    let mut entries = vec![entry(0, 0, "Root", true, 0)];
    for id in 1..=300u64 {
        entries.push(entry(id, id - 1, &format!("d{}", id), true, 0));
    }
    let catalog = Catalog::build(entries);
    let names = |from: u64, to: u64| -> String {
        let parts: Vec<String> = (from..=to).map(|id| format!("d{}", id)).collect();
        format!("V:\\{}", parts.join("\\"))
    };
    assert_eq!(catalog.resolve(300, 0, &drives()), names(101, 300));
    assert_eq!(catalog.resolve(201, 0, &drives()), names(2, 201));
    assert_eq!(catalog.resolve(200, 0, &drives()), names(1, 200));
    assert_eq!(catalog.resolve(199, 0, &drives()), names(1, 199));
}

#[test]
fn empty_query_finds_nothing() {
    assert!(small_catalog().search("").is_empty());
    assert!(Catalog::new().search("").is_empty());
    let with_empty_name = Catalog::build(vec![entry(1, 1, "", false, 0)]);
    assert!(with_empty_name.search("").is_empty());
}

#[test]
fn search_sets_letter_case_aside() {
    let catalog = Catalog::build(vec![
        entry(1, 1, "README.md", false, 0),
        entry(2, 1, "readme.txt", false, 0),
        entry(3, 1, "Reader", true, 0),
        entry(4, 1, "thread", false, 0),
        entry(5, 1, "ÄRGER", false, 0),
    ]);
    assert_eq!(ids(&catalog.search("read")), vec![1, 2, 3]);
    assert_eq!(ids(&catalog.search("READ")), vec![1, 2, 3]);
    assert_eq!(ids(&catalog.search("ReAdMe")), vec![1, 2]);
    assert_eq!(ids(&catalog.search("ärg")), vec![5]);
}

#[test]
fn search_matches_beginnings_only() {
    let catalog = small_catalog();
    assert!(catalog.search("port").is_empty());
    assert!(catalog.search("report.txt.bak").is_empty());
    assert_eq!(ids(&catalog.search("report.txt")), vec![3]);
}

#[test]
fn search_returns_all_matches_in_catalog_order() {
    let mut entries = Vec::new();
    for id in (0..5000u64).rev() {
        let name = if id % 3 == 0 { format!("match{}", id) } else { format!("other{}", id) };
        entries.push(entry(id, 0, &name, false, (id % 2) as u8));
    }
    let catalog = Catalog::build(entries);
    let hits = catalog.search("MATCH");
    let mut expected: Vec<(u8, u64)> =
        (0..5000u64).filter(|id| id % 3 == 0).map(|id| ((id % 2) as u8, id)).collect();
    expected.sort();
    let got: Vec<(u8, u64)> = hits.iter().map(|e| (e.drive_idx, e.id)).collect();
    assert_eq!(got, expected);
}

#[test]
fn entry_matches_folds_the_name_only() {
    let e = entry(1, 1, "Report.TXT", false, 0);
    assert!(entry_matches(&e, &"rep".chars().collect()));
    assert!(entry_matches(&e, &Vec::new()));
    assert!(!entry_matches(&e, &"Rep".chars().collect()));
    assert!(folded_name_matches("report", &"rep".chars().collect()));
    assert!(!folded_name_matches("report", &"port".chars().collect()));
    assert!(!folded_name_matches("re", &"rep".chars().collect()));
}

#[test]
fn refused_name_is_never_found() {
    fn record(id: u64, name: &str) -> Vec<u8> {
        let units: Vec<u16> = name.encode_utf16().collect();
        let length = (60 + units.len() * 2 + 7) / 8 * 8;
        let mut rec = vec![0u8; 60];
        rec[0..4].copy_from_slice(&(length as u32).to_le_bytes());
        rec[8..16].copy_from_slice(&id.to_le_bytes());
        rec[16..24].copy_from_slice(&1u64.to_le_bytes());
        rec[56..58].copy_from_slice(&((units.len() * 2) as u16).to_le_bytes());
        rec[58..60].copy_from_slice(&60u16.to_le_bytes());
        for unit in units {
            rec.extend_from_slice(&unit.to_le_bytes());
        }
        rec.resize(length, 0);
        rec
    }
    let mut buf = 0u64.to_le_bytes().to_vec();
    buf.extend(record(2, "evil:stream"));
    buf.extend(record(3, "evil.txt"));
    let catalog = Catalog::build(decode_buffer(&buf, 0).entries);
    assert_eq!(ids(&catalog.search("evil")), vec![3]);
    assert_eq!(ids(&catalog.search("e")), vec![3]);
    assert!(catalog.search("evil:").is_empty());
    assert!(catalog.get(0, 2).is_none());
}
