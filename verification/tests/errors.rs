use dlc_installer::config::Config;
use dlc_installer::error::{DownloadError, Error, ErrorKind, ExtractError, LocateError};
use dlc_installer::locate::{resolve, Lookup};

#[test]
fn each_error_has_its_kind() {
    assert_eq!(Error::Locate(LocateError::RootNotFound).kind(), ErrorKind::Locate);
    assert_eq!(Error::Locate(LocateError::TargetNotFound).kind(), ErrorKind::Locate);
    assert_eq!(Error::Locate(LocateError::NoParent).kind(), ErrorKind::Locate);
    assert_eq!(Error::Download(DownloadError::Request("x".into())).kind(), ErrorKind::Download);
    assert_eq!(Error::Download(DownloadError::ContentLength).kind(), ErrorKind::Download);
    assert_eq!(Error::Download(DownloadError::CreateFile("x".into())).kind(), ErrorKind::Download);
    assert_eq!(
        Error::Download(DownloadError::DownloadChunk("x".into())).kind(),
        ErrorKind::Download
    );
    assert_eq!(
        Error::Download(DownloadError::OpenExisting("x".into())).kind(),
        ErrorKind::Download
    );
    assert_eq!(Error::Extract(ExtractError::Decode("x".into())).kind(), ErrorKind::Decode);
    assert_eq!(Error::Extract(ExtractError::NoParent).kind(), ErrorKind::Extract);
    assert_eq!(Error::Extract(ExtractError::Io("x".into())).kind(), ErrorKind::Extract);
    assert_eq!(Error::Extract(ExtractError::Cleanup("x".into())).kind(), ErrorKind::Cleanup);
    assert_eq!(Error::Download(DownloadError::Cancelled).kind(), ErrorKind::Download);
    assert_eq!(Error::Extract(ExtractError::Cancelled).kind(), ErrorKind::Extract);
}

#[test]
fn cancellation_messages() {
    assert_eq!(DownloadError::Cancelled.message(), "the download was cancelled");
    assert_eq!(ExtractError::Cancelled.message(), "the extraction was cancelled");
}

#[test]
fn extract_errors_tell_decode_from_entry_from_cleanup() {
    assert_eq!(ExtractError::Decode(String::new()).kind(), ErrorKind::Decode);
    assert_eq!(ExtractError::NoParent.kind(), ErrorKind::Extract);
    assert_eq!(ExtractError::Io(String::new()).kind(), ErrorKind::Extract);
    assert_eq!(ExtractError::Cleanup(String::new()).kind(), ErrorKind::Cleanup);
}

#[test]
fn locate_messages() {
    assert_eq!(
        LocateError::RootNotFound.message(),
        "the package manager's directory could not be found"
    );
    assert_eq!(LocateError::TargetNotFound.message(), "the target application could not be found");
    assert_eq!(
        LocateError::NoParent.message(),
        "the target application's directory has no parent"
    );
}

#[test]
fn download_messages_end_with_the_cause() {
    assert_eq!(
        DownloadError::Request("timed out".into()).message(),
        "failed to download the archive: timed out"
    );
    assert_eq!(DownloadError::ContentLength.message(), "failed to get content length");
    assert_eq!(
        DownloadError::CreateFile("denied".into()).message(),
        "failed to create the archive file: denied"
    );
    assert_eq!(
        DownloadError::DownloadChunk("reset".into()).message(),
        "failed to download a chunk: reset"
    );
    assert_eq!(
        DownloadError::OpenExisting("gone".into()).message(),
        "failed to open the archive file: gone"
    );
}

#[test]
fn extract_messages_end_with_the_cause() {
    assert_eq!(
        ExtractError::Decode("PasswordRequired".into()).message(),
        "failed to open the archive: PasswordRequired"
    );
    assert_eq!(
        ExtractError::NoParent.message(),
        "no parent directory found for an entry of the archive"
    );
    assert_eq!(
        ExtractError::Io("disk full".into()).message(),
        "failed to extract the archive: disk full"
    );
    assert_eq!(
        ExtractError::Cleanup("in use".into()).message(),
        "failed to remove the archive: in use"
    );
}

#[test]
fn run_errors_speak_as_their_cause_does() {
    assert_eq!(
        Error::Locate(LocateError::TargetNotFound).message(),
        LocateError::TargetNotFound.message()
    );
    assert_eq!(
        Error::Download(DownloadError::ContentLength).message(),
        "failed to get content length"
    );
    assert_eq!(
        Error::Extract(ExtractError::Io("é".into())).message(),
        "failed to extract the archive: é"
    );
    assert_eq!(Error::Extract(ExtractError::Io(String::new())).message(), "failed to extract the archive: ");
}

#[test]
fn lookup_without_root_is_root_not_found() {
    assert_eq!(resolve(Lookup::NoRoot), Err(LocateError::RootNotFound));
}

#[test]
fn lookup_without_target_is_target_not_found() {
    assert_eq!(resolve(Lookup::NoTarget), Err(LocateError::TargetNotFound));
}

#[test]
fn lookup_of_target_without_parent_is_no_parent() {
    assert_eq!(resolve(Lookup::Target { parent: None }), Err(LocateError::NoParent));
}

#[test]
fn lookup_of_target_gives_its_parent() {
    assert_eq!(
        resolve(Lookup::Target { parent: Some("/games/common".to_string()) }),
        Ok("/games/common".to_string())
    );
    assert_eq!(resolve(Lookup::Target { parent: Some(String::new()) }), Ok(String::new()));
}

#[test]
fn config_protects_dynamic_libraries_by_default() {
    let config = Config::new("u".to_string(), "p".to_string(), None, false);
    assert_eq!(config.protected_extensions, vec!["dll".to_string()]);
    assert_eq!(config.archive_url, "u");
    assert_eq!(config.archive_local_path, "p");
    assert_eq!(config.credential, None);
    assert!(!config.delete_after);
}

#[test]
fn config_keeps_what_it_is_given() {
    let mut config = Config::new("u".to_string(), "p".to_string(), Some("pw".to_string()), true);
    assert_eq!(config.credential.as_deref(), Some("pw"));
    assert!(config.delete_after);
    config.protected_extensions.push("so".to_string());
    assert_eq!(config.protected_extensions, vec!["dll".to_string(), "so".to_string()]);
}
