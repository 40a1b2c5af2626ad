use http_vfs::vfs::{HttpVfs, OpenKind};
use http_vfs::{HttpVfsRegister, VfsError, HTTP_VFS, SQLITE_PAGE_SIZE};

fn plain_vfs() -> HttpVfs {
    HttpVfs { client: None, block_size: 16, download_threshold: 0 }
}

#[test]
fn test_vfs_name() {
    assert_eq!(HTTP_VFS, "http");
}

#[test]
fn test_open_rejects_non_main_database() {
    let vfs = plain_vfs();
    for kind in [
        OpenKind::MainJournal,
        OpenKind::TempDb,
        OpenKind::TempJournal,
        OpenKind::TransientDb,
        OpenKind::SubJournal,
        OpenKind::SuperJournal,
        OpenKind::Wal,
    ] {
        assert_eq!(
            vfs.open("http://127.0.0.1:1/db", kind).err(),
            Some(VfsError::UnsupportedOpenKind)
        );
    }
}

#[test]
fn test_open_main_db_against_unreachable_server() {
    let vfs = plain_vfs();
    let r = vfs.open("http://127.0.0.1:1/db", OpenKind::MainDb);
    assert!(matches!(r, Err(VfsError::InitFailed)));
}

#[test]
fn test_read_only_filesystem_operations() {
    let vfs = plain_vfs();
    assert_eq!(vfs.delete("http://127.0.0.1:1/db"), Err(VfsError::DeleteNotSupported));
    assert_eq!(vfs.db_exists("http://127.0.0.1:1/db"), Ok(false));
    assert_eq!(vfs.temporary_name(), "main.db".to_string());
}

#[test]
fn test_random_keeps_length() {
    let vfs = plain_vfs();
    let mut buf = vec![0i8; 32];
    vfs.random(&mut buf);
    assert_eq!(buf.len(), 32);
    let mut empty: Vec<i8> = Vec::new();
    vfs.random(&mut empty);
    assert!(empty.is_empty());
}

#[test]
fn test_register_builder_defaults() {
    let reg = HttpVfsRegister::new();
    assert_eq!(reg.block_size, SQLITE_PAGE_SIZE * 1024 * 2);
    assert_eq!(reg.download_threshold, 0);
    assert_eq!(reg.page_size, SQLITE_PAGE_SIZE);
    assert!(reg.client.is_none());
}

#[test]
fn test_register_builder_settings() {
    let reg = HttpVfsRegister::new().with_block_size(2).with_download_threshold(1);
    assert_eq!(reg.block_size, 2 * SQLITE_PAGE_SIZE);
    assert_eq!(reg.download_threshold, SQLITE_PAGE_SIZE);

    let reg = HttpVfsRegister::new().with_page_size(1024).with_block_size(2);
    assert_eq!(reg.block_size, 2048);

    let client = reqwest::Client::new();
    let reg = HttpVfsRegister::new().with_client(client);
    assert!(reg.client.is_some());

    let vfs = HttpVfsRegister::new().with_block_size(4).into_vfs();
    assert_eq!(vfs.block_size, 4 * SQLITE_PAGE_SIZE);
    assert_eq!(vfs.download_threshold, 0);
}
