use stem::popups::{copy_result_popup, delete_result_popup, import_result_popup, PopUpCode, PopUpKind};
use stem::events::{WrapperMessages, WrapperRequest};

#[test]
fn delete_popups() {
    let p = delete_result_popup(1, 1);
    assert_eq!((p.kind, p.msg.as_str(), p.code), (PopUpKind::Success, "Deleted 1 point", PopUpCode::DeletePoints));
    let p = delete_result_popup(3, 3);
    assert_eq!(p.msg, "Deleted 3 points");
    let p = delete_result_popup(3, 2);
    assert_eq!((p.kind, p.msg.as_str()), (PopUpKind::Error, "Failed to delete some points. Deleted 2 of 3."));
    let p = delete_result_popup(3, 0);
    assert_eq!((p.kind, p.msg.as_str()), (PopUpKind::Error, "Failed to delete points."));
    let p = delete_result_popup(0, 0);
    assert_eq!((p.kind, p.msg.as_str()), (PopUpKind::Success, "Deleted 0 points"));
}

#[test]
fn copy_popups() {
    let p = copy_result_popup(2, 2, 2);
    assert_eq!((p.kind, p.msg.as_str(), p.code), (PopUpKind::Success, "Copied 2 points.", PopUpCode::CopyPoints));
    let p = copy_result_popup(1, 1, 2);
    assert_eq!(p.msg, "Copied 1 point. Ignored 1 point already in database.");
    let p = copy_result_popup(3, 1, 6);
    assert_eq!((p.kind, p.msg.as_str()), (PopUpKind::Error, "Failed to copy some points. Copied 1 of 3. Ignored 3 points already in database."));
    let p = copy_result_popup(1, 0, 1);
    assert_eq!((p.kind, p.msg.as_str()), (PopUpKind::Error, "Failed to copy 1 point."));
}

#[test]
fn import_popups() {
    let p = import_result_popup(4, 4);
    assert_eq!((p.kind, p.msg.as_str(), p.code), (PopUpKind::Success, "Saved 4 places", PopUpCode::Other));
    assert_eq!(import_result_popup(4, 1).msg, "Failed to save some places. Saved 1 of 4.");
    assert_eq!(import_result_popup(4, 0).msg, "Failed to save places.");
    assert_eq!(import_result_popup(1, 1).msg, "Saved 1 place");
}

#[test]
fn wrapper_requests_raise_one_flag_each() {
    let mut m = WrapperMessages::default();
    assert_eq!(m, WrapperMessages::default());
    m.request(WrapperRequest::ExportSqliteLog);
    assert!(m.should_export_sqlite_log);
    assert!(!m.should_import_sqlite_log);
    m.request(WrapperRequest::RequestWhenInUseAuthorization);
    assert!(m.should_request_when_in_use_authorization);
    assert!(m.should_export_sqlite_log);
    m.request(WrapperRequest::ImportSqliteLog);
    assert!(m.should_import_sqlite_log);
    assert!(!m.should_mount_db && !m.should_export_image && !m.should_export_track);
}
