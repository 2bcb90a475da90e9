use std::collections::HashMap;

use blindspot::installer::{
    ArchiveError, Archived, Compression, FileOp, InstallError, Installer, TarEntry, EXE_MODE,
};

type Disk = HashMap<String, Vec<u8>>;

/// Carries out `op` on an in-memory disk; `payload` is what a fetch
/// downloads or an extraction reads.
fn perform(disk: &mut Disk, op: &FileOp, payload: &[u8]) {
    match op {
        FileOp::Fetch { to, .. } => {
            disk.insert(to.clone(), payload.to_vec());
        }
        FileOp::Move { from, to } => {
            let bytes = disk[from].clone();
            disk.insert(to.clone(), bytes);
            disk.remove(from);
        }
        FileOp::Extract { to, .. } => {
            disk.insert(to.clone(), payload.to_vec());
        }
        FileOp::Remove { path } => {
            disk.remove(path);
        }
    }
}

fn tool(url: &str) -> Installer {
    Installer {
        url: url.to_string(),
        path: "/usr/local/bin/tool".to_string(),
        compression: None,
        archive: None,
        backup: None,
    }
}

fn entries() -> Vec<TarEntry> {
    vec![
        TarEntry { path: "a".to_string(), size: 10 },
        TarEntry { path: "b".to_string(), size: 20 },
    ]
}

#[test]
fn executables_get_owner_and_group_access_only() {
    assert_eq!(EXE_MODE, 0o750);
}

#[test]
fn temporary_file_carries_the_destination_name() {
    let i = tool("https://host/tool.gz");
    assert_eq!(
        i.tmp_file("/tmp"),
        Ok(("/tmp/blindspot".to_string(), "/tmp/blindspot/tool".to_string()))
    );
    assert_eq!(
        i.tmp_file("/var/tmp/"),
        Ok(("/var/tmp/blindspot".to_string(), "/var/tmp/blindspot/tool".to_string()))
    );
}

#[test]
fn destination_without_file_name_is_refused() {
    let mut i = tool("https://host/tool");
    i.path = "/usr/local/bin/..".to_string();
    assert_eq!(i.tmp_file("/tmp"), Err(InstallError::NoFileName));
    assert_eq!(i.download("/tmp"), Err(InstallError::NoFileName));
    assert_eq!(i.install("/tmp/blindspot/x", true, "/data"), Err(InstallError::NoFileName));
    assert_eq!(i.backup, None);
    i.path = "/".to_string();
    assert_eq!(i.tmp_file("/tmp"), Err(InstallError::NoFileName));
}

#[test]
fn download_names_formats_and_temporary_file() {
    let i = tool("https://host/tool.tar.xz");
    let d = i.download("/tmp").unwrap();
    assert_eq!(d.url, "https://host/tool.tar.xz");
    assert_eq!(d.compression, Compression::Xz);
    assert_eq!(d.archive, Archived::Tar);
    assert_eq!(d.dir, "/tmp/blindspot");
    assert_eq!(d.to, "/tmp/blindspot/tool");
    assert_eq!(
        d.fetch(),
        FileOp::Fetch {
            url: "https://host/tool.tar.xz".to_string(),
            compression: Compression::Xz,
            to: "/tmp/blindspot/tool".to_string(),
        }
    );
}

#[test]
fn install_on_free_destination_displaces_nothing() {
    let mut i = tool("https://host/tool");
    let p = i.install("/tmp/blindspot/tool", false, "/data").unwrap();
    assert_eq!(p.displace, None);
    assert_eq!(p.archive, Archived::Plain);
    assert_eq!(p.from, "/tmp/blindspot/tool");
    assert_eq!(p.to, "/usr/local/bin/tool");
    assert_eq!(i.backup, None);
}

#[test]
fn install_over_existing_file_keeps_a_backup() {
    let mut i = tool("https://host/tool.tgz");
    let p = i.install("/tmp/blindspot/tool", true, "/data/blindspot").unwrap();
    assert_eq!(
        p.displace,
        Some(FileOp::Move {
            from: "/usr/local/bin/tool".to_string(),
            to: "/data/blindspot/tool".to_string(),
        })
    );
    assert_eq!(p.archive, Archived::Tar);
    assert_eq!(i.backup, Some("/data/blindspot/tool".to_string()));
    assert_eq!(i.url, "https://host/tool.tgz");
    assert_eq!(i.path, "/usr/local/bin/tool");
}

#[test]
fn second_overwrite_replaces_the_backup() {
    let mut i = tool("https://host/tool");
    i.backup = Some("/elsewhere/old".to_string());
    i.install("/tmp/blindspot/tool", true, "/data").unwrap();
    assert_eq!(i.backup, Some("/data/tool".to_string()));
    let mut j = tool("https://host/tool");
    j.backup = Some("/elsewhere/old".to_string());
    j.install("/tmp/blindspot/tool", false, "/data").unwrap();
    assert_eq!(j.backup, Some("/elsewhere/old".to_string()));
}

#[test]
fn plain_install_is_a_move_of_the_payload() {
    let op = Archived::Plain.install("/tmp/blindspot/tool", "/usr/local/bin/tool", &vec![], 0);
    assert_eq!(
        op,
        Ok(FileOp::Move {
            from: "/tmp/blindspot/tool".to_string(),
            to: "/usr/local/bin/tool".to_string(),
        })
    );
}

#[test]
fn plain_install_copies_one_hundred_bytes() {
    let input: Vec<u8> = (0..100u8).collect();
    let mut disk = Disk::new();
    let mut i = tool("https://host/tool");
    let d = i.download("/tmp").unwrap();
    perform(&mut disk, &d.fetch(), &input);
    let occupied = disk.contains_key(&i.path);
    let p = i.install(&d.to, occupied, "/data").unwrap();
    assert_eq!(p.displace, None);
    let place = p.archive.install(&p.from, &p.to, &vec![], 0).unwrap();
    perform(&mut disk, &place, &[]);
    assert_eq!(disk["/usr/local/bin/tool"], input);
    assert_eq!(disk.len(), 1);
}

#[test]
fn tar_listing_shows_index_size_and_path_in_order() {
    assert_eq!(
        Archived::list_tar(&entries()),
        Ok(vec![(0, 10, "a".to_string()), (1, 20, "b".to_string())])
    );
}

#[test]
fn tar_install_extracts_the_chosen_member_only() {
    let op = Archived::Tar.install("/tmp/blindspot/tool", "/usr/local/bin/tool", &entries(), 1);
    assert_eq!(
        op,
        Ok(FileOp::Extract {
            from: "/tmp/blindspot/tool".to_string(),
            index: 1,
            to: "/usr/local/bin/tool".to_string(),
        })
    );
    let contents: Vec<Vec<u8>> = vec![vec![b'a'; 10], vec![b'b'; 20]];
    let mut disk = Disk::new();
    disk.insert("/tmp/blindspot/tool".to_string(), vec![0; 512]);
    if let Ok(FileOp::Extract { index, .. }) = &op {
        perform(&mut disk, op.as_ref().unwrap(), &contents[*index]);
    }
    assert_eq!(disk["/usr/local/bin/tool"], vec![b'b'; 20]);
    let first = Archived::Tar.install_tar("/t", "/d", &entries(), 0);
    assert_eq!(
        first,
        Ok(FileOp::Extract { from: "/t".to_string(), index: 0, to: "/d".to_string() })
    );
}

#[test]
fn empty_container_fails_at_once() {
    assert_eq!(Archived::list_tar(&vec![]), Err(ArchiveError::Empty));
    assert_eq!(Archived::Tar.install_tar("/t", "/d", &vec![], 0), Err(ArchiveError::Empty));
    assert_eq!(Archived::Tar.install("/t", "/d", &vec![], 0), Err(ArchiveError::Empty));
}

#[test]
fn choice_outside_the_container_is_refused() {
    assert_eq!(Archived::Tar.install_tar("/t", "/d", &entries(), 2), Err(ArchiveError::NoSuchEntry));
    assert_eq!(
        Archived::Tar.install("/t", "/d", &entries(), usize::MAX),
        Err(ArchiveError::NoSuchEntry)
    );
}

#[test]
fn revert_moves_the_backup_back_and_spends_it() {
    let mut i = tool("https://host/tool");
    i.backup = Some("/data/tool".to_string());
    assert_eq!(
        i.revert(),
        Some(FileOp::Move { from: "/data/tool".to_string(), to: "/usr/local/bin/tool".to_string() })
    );
    assert_eq!(i.backup, None);
    assert_eq!(i.revert(), None);
    assert_eq!(i.backup, None);
    assert_eq!(i.path, "/usr/local/bin/tool");
}

#[test]
fn revert_after_update_restores_the_displaced_bytes() {
    let displaced = b"the first version".to_vec();
    let update = b"the second version, which is longer".to_vec();
    let mut disk = Disk::new();
    disk.insert("/usr/local/bin/tool".to_string(), displaced.clone());
    let mut i = tool("https://host/tool");

    let d = i.download("/tmp").unwrap();
    perform(&mut disk, &d.fetch(), &update);
    let occupied = disk.contains_key(&i.path);
    assert!(occupied);
    let p = i.install(&d.to, occupied, "/data").unwrap();
    perform(&mut disk, p.displace.as_ref().unwrap(), &[]);
    let place = p.archive.install(&p.from, &p.to, &vec![], 0).unwrap();
    perform(&mut disk, &place, &[]);
    assert_eq!(disk["/usr/local/bin/tool"], update);
    assert_eq!(disk["/data/tool"], displaced);
    assert_eq!(i.backup, Some("/data/tool".to_string()));

    let undo = i.revert().unwrap();
    perform(&mut disk, &undo, &[]);
    assert_eq!(disk["/usr/local/bin/tool"], displaced);
    assert!(!disk.contains_key("/data/tool"));
    assert_eq!(i.backup, None);

    let before = disk.clone();
    assert_eq!(i.revert(), None);
    assert_eq!(disk, before);
}

#[test]
fn uninstall_removes_backup_and_executable() {
    let mut i = tool("https://host/tool");
    assert_eq!(i.uninstall(), vec![FileOp::Remove { path: "/usr/local/bin/tool".to_string() }]);
    i.backup = Some("/data/tool".to_string());
    assert_eq!(
        i.uninstall(),
        vec![
            FileOp::Remove { path: "/data/tool".to_string() },
            FileOp::Remove { path: "/usr/local/bin/tool".to_string() },
        ]
    );
}

#[test]
fn installer_clone_is_equal() {
    let mut i = tool("https://host/tool.gz");
    i.backup = Some("/data/tool".to_string());
    i.compression = Some(Compression::Gzip);
    assert_eq!(i.clone(), i);
}

#[test]
fn download_into_names_what_it_is_given() {
    let i = tool("https://host/tool.tbz");
    let d = i.download_into("/scratch".to_string(), "/scratch/payload".to_string());
    assert_eq!(d.url, "https://host/tool.tbz");
    assert_eq!(d.compression, Compression::Bzip2);
    assert_eq!(d.archive, Archived::Tar);
    assert_eq!(d.dir, "/scratch");
    assert_eq!(d.to, "/scratch/payload");
}

#[test]
fn install_with_a_place_records_it_as_backup() {
    let mut i = tool("https://host/tool");
    i.backup = Some("/old/place".to_string());
    let p = i.install_with("/tmp/payload", Some("/keep/tool".to_string()));
    assert_eq!(
        p.displace,
        Some(FileOp::Move { from: "/usr/local/bin/tool".to_string(), to: "/keep/tool".to_string() })
    );
    assert_eq!(p.from, "/tmp/payload");
    assert_eq!(p.to, "/usr/local/bin/tool");
    assert_eq!(p.archive, Archived::Plain);
    assert_eq!(i.backup, Some("/keep/tool".to_string()));
    let q = i.install_with("/tmp/payload", None);
    assert_eq!(q.displace, None);
    assert_eq!(i.backup, Some("/keep/tool".to_string()));
}
