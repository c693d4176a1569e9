use tray_importer::assembly::{assemble_gallery_item, GalleryPlan};
use tray_importer::tray_files::{
    file_role, FileRole, TrayEntry, TrayError, TrayFolderContent, TrayItem, TrayItemFile,
};
use tray_importer::utils::read_tray_files;

fn household_bytes(name: &[u8]) -> Vec<u8> {
    let mut v = vec![0u8; 0x26];
    v.push(name.len() as u8);
    v.extend_from_slice(name);
    v
}

fn stem(ty: u32, id: u64) -> String {
    format!("0x{:08x}!0000{:016x}", ty, id)
}

fn companion(ty: u32, id: u64, ext: &str) -> TrayItemFile {
    let filename = format!("{}.{}", stem(ty, id), ext);
    TrayItemFile::new(format!("/tray/{}", filename), filename).ok().unwrap()
}

fn primary(id: u64, name: &str) -> TrayItem {
    let filename = format!("{}.trayitem", stem(1, id));
    TrayItem::new(format!("/tray/{}", filename), filename, &household_bytes(name.as_bytes()))
        .ok()
        .unwrap()
}

fn folder(aux: Vec<TrayItemFile>, sgi: Vec<TrayItemFile>) -> TrayFolderContent {
    let mut c = TrayFolderContent::new();
    c.unknown_files = aux;
    c.sgi_files = sgi;
    c
}

fn extra_names(plan: &GalleryPlan) -> Vec<String> {
    plan.extras.iter().map(|s| s.file_name.clone()).collect()
}

#[test]
fn roles_by_extension() {
    assert_eq!(file_role("a!b.trayitem"), Ok(FileRole::Primary));
    for ext in ["householdbinary", "hhi", "blueprint", "bpi", "room", "rmi"] {
        assert_eq!(file_role(&format!("a!b.{}", ext)), Ok(FileRole::Auxiliary));
    }
    assert_eq!(file_role("a!b.sgi"), Ok(FileRole::Sequel));
    assert_eq!(file_role("a!b.TRAYITEM"), Err(TrayError::UnsupportedExtension));
    assert_eq!(file_role("a!b.txt"), Err(TrayError::UnsupportedExtension));
    assert_eq!(file_role("a!b"), Err(TrayError::UnsupportedExtension));
}

#[test]
fn item_constructors() {
    let item = primary(0x1234500006789, "Acme!");
    assert_eq!(item.name, "Acme!");
    assert_eq!(item.id, 0x1234500006789);
    assert_eq!(item.file_type, 1);
    assert_eq!(item.filename, "0x00000001!00000001234500006789.trayitem");
    let bad = TrayItem::new(String::from("p"), String::from("nope.trayitem"), &household_bytes(b"x"));
    assert_eq!(bad.err(), Some(TrayError::MalformedFilename));
    let f = companion(3, 77, "hhi");
    assert_eq!(f.id, 77);
    assert_eq!(f.file_type, 3);
    let bad = TrayItemFile::new(String::from("p"), String::from("x!y!z.sgi"));
    assert_eq!(bad.err(), Some(TrayError::MalformedFilename));
}

#[test]
fn classification_sorts_and_reports() {
    let n: u64 = 0x500;
    let entries = vec![
        TrayEntry {
            path: String::from("/tray/a"),
            filename: format!("{}.trayitem", stem(1, n)),
            content: Some(household_bytes(b"Acme!")),
        },
        TrayEntry {
            path: String::from("/tray/b"),
            filename: format!("{}.hhi", stem(3, n)),
            content: None,
        },
        TrayEntry {
            path: String::from("/tray/c"),
            filename: format!("{}.sgi", stem(5, n + 1)),
            content: None,
        },
        TrayEntry {
            path: String::from("/tray/d"),
            filename: format!("{}.trayitem", stem(0x99, n + 9)),
            content: Some(household_bytes(b"Ghost")),
        },
        TrayEntry {
            path: String::from("/tray/e"),
            filename: String::from("notes.txt"),
            content: None,
        },
        TrayEntry {
            path: String::from("/tray/f"),
            filename: format!("{}.trayitem", stem(1, n + 2)),
            content: None,
        },
        TrayEntry {
            path: String::from("/tray/g"),
            filename: String::from("broken.blueprint"),
            content: None,
        },
        TrayEntry {
            path: String::from("/tray/h"),
            filename: format!("{}.trayitem", stem(2, n + 3)),
            content: Some(vec![0u8; 10]),
        },
    ];
    let c = read_tray_files(&entries);
    assert_eq!(c.trayitem_files.len(), 1);
    assert_eq!(c.trayitem_files[0].name, "Acme!");
    assert_eq!(c.trayitem_files[0].path, "/tray/a");
    assert_eq!(c.unknown_files.len(), 1);
    assert_eq!(c.unknown_files[0].path, "/tray/b");
    assert_eq!(c.sgi_files.len(), 1);
    assert_eq!(c.sgi_files[0].id, n + 1);
    let skipped: Vec<(String, TrayError)> =
        c.skipped.iter().map(|s| (s.filename.clone(), s.error)).collect();
    assert_eq!(
        skipped,
        vec![
            (format!("{}.trayitem", stem(0x99, n + 9)), TrayError::UnknownItemType),
            (String::from("notes.txt"), TrayError::UnsupportedExtension),
            (format!("{}.trayitem", stem(1, n + 2)), TrayError::UnreadableFile),
            (String::from("broken.blueprint"), TrayError::MalformedFilename),
            (format!("{}.trayitem", stem(2, n + 3)), TrayError::TruncatedHeader),
        ]
    );
}

#[test]
fn unknown_type_is_not_a_primary_item() {
    let entries = vec![TrayEntry {
        path: String::from("/tray/x"),
        filename: String::from("0x99!00001234500006789.trayitem"),
        content: Some(household_bytes(b"Acme!")),
    }];
    let c = read_tray_files(&entries);
    assert_eq!(c.trayitem_files.len(), 0);
    assert_eq!(c.skipped.len(), 1);
    assert_eq!(c.skipped[0].error, TrayError::UnknownItemType);
}

#[test]
fn sequel_chain_stops_at_gap() {
    let n: u64 = 0x1000;
    let item = primary(n, "Acme!");
    let sgi = vec![companion(7, n + 4, "sgi"), companion(7, n + 2, "sgi"), companion(7, n + 1, "sgi")];
    let plan = assemble_gallery_item(&item, &folder(Vec::new(), sgi)).unwrap();
    assert_eq!(
        extra_names(&plan),
        vec![format!("{}.sgi", stem(7, n + 1)), format!("{}.sgi", stem(7, n + 2))]
    );
}

#[test]
fn sequel_chain_needs_first_successor() {
    let n: u64 = 0x1000;
    let item = primary(n, "Acme!");
    let sgi = vec![companion(7, n + 2, "sgi"), companion(7, n, "sgi")];
    let plan = assemble_gallery_item(&item, &folder(Vec::new(), sgi)).unwrap();
    assert!(plan.extras.is_empty());
}

#[test]
fn auxiliary_files_match_by_identifier() {
    let n: u64 = 0x2000;
    let m: u64 = 0x2001;
    let item = primary(n, "Acme!");
    let aux = vec![companion(3, n, "hhi"), companion(3, m, "hhi")];
    let plan = assemble_gallery_item(&item, &folder(aux, Vec::new())).unwrap();
    assert_eq!(extra_names(&plan), vec![format!("{}.hhi", stem(3, n))]);
}

#[test]
fn auxiliaries_come_before_sequels() {
    let n: u64 = 0x30;
    let item = primary(n, "Home");
    let aux = vec![companion(4, n, "householdbinary"), companion(3, n, "hhi")];
    let sgi = vec![companion(7, n + 1, "sgi")];
    let plan = assemble_gallery_item(&item, &folder(aux, sgi)).unwrap();
    assert_eq!(
        extra_names(&plan),
        vec![
            format!("{}.householdbinary", stem(4, n)),
            format!("{}.hhi", stem(3, n)),
            format!("{}.sgi", stem(7, n + 1)),
        ]
    );
    assert_eq!(plan.extras[0].source, format!("/tray/{}.householdbinary", stem(4, n)));
}

#[test]
fn folders_of_a_plan() {
    let item = primary(0x1234500006789, "Acme!");
    let plan = assemble_gallery_item(&item, &TrayFolderContent::new()).unwrap();
    assert_eq!(plan.type_folder, "households");
    assert_eq!(plan.item_folder, "Acme! (0x1234500006789)");
    assert_eq!(plan.primary.source, item.path);
    assert_eq!(plan.primary.file_name, item.filename);
}

#[test]
fn plan_for_unknown_type_is_none() {
    let item = TrayItem {
        path: String::from("p"),
        name: String::from("n"),
        id: 5,
        file_type: 9,
        filename: String::from("f"),
    };
    assert!(assemble_gallery_item(&item, &TrayFolderContent::new()).is_none());
}

#[test]
fn largest_identifier_has_no_sequels() {
    let item = TrayItem {
        path: String::from("p"),
        name: String::from("Top"),
        id: u64::MAX,
        file_type: 3,
        filename: String::from("f"),
    };
    let sgi = vec![companion(7, 0, "sgi"), companion(7, u64::MAX, "sgi")];
    let plan = assemble_gallery_item(&item, &folder(Vec::new(), sgi)).unwrap();
    assert!(plan.extras.is_empty());
    assert_eq!(plan.type_folder, "rooms");
    assert_eq!(plan.item_folder, "Top (0xffffffffffffffff)");
}

#[test]
fn chain_runs_to_the_largest_identifier() {
    let n: u64 = u64::MAX - 2;
    let item = TrayItem {
        path: String::from("p"),
        name: String::from("Edge"),
        id: n,
        file_type: 2,
        filename: String::from("f"),
    };
    let sgi = vec![companion(7, u64::MAX, "sgi"), companion(7, n + 1, "sgi")];
    let plan = assemble_gallery_item(&item, &folder(Vec::new(), sgi)).unwrap();
    assert_eq!(
        extra_names(&plan),
        vec![format!("{}.sgi", stem(7, n + 1)), format!("{}.sgi", stem(7, u64::MAX))]
    );
}
