//! The byte-string path helpers.

use sprinkle::paths::{join, parent_dir, set_extension};

#[test]
fn parent_of_nested_path() {
    assert_eq!(parent_dir(&b"/w/target/app".to_vec()), b"/w/target".to_vec());
    assert_eq!(parent_dir(&b"app".to_vec()), b"".to_vec());
}

#[test]
fn join_skips_empty_directory() {
    assert_eq!(join(&b"".to_vec(), &b"exefs".to_vec()), b"exefs".to_vec());
    assert_eq!(join(&b"/w".to_vec(), &b"exefs".to_vec()), b"/w/exefs".to_vec());
}

#[test]
fn extension_replaces_only_the_final_component() {
    let ext = b"nsp".to_vec();
    assert_eq!(
        set_extension(&b"/a.b/app".to_vec(), &ext),
        Some(b"/a.b/app.nsp".to_vec())
    );
    assert_eq!(
        set_extension(&b"/w/app.elf".to_vec(), &ext),
        Some(b"/w/app.nsp".to_vec())
    );
    // a leading dot starts the name, it is no extension
    assert_eq!(
        set_extension(&b"/w/.hidden".to_vec(), &ext),
        Some(b"/w/.hidden.nsp".to_vec())
    );
}

#[test]
fn extension_needs_a_file_name() {
    let ext = b"nsp".to_vec();
    assert_eq!(set_extension(&b"".to_vec(), &ext), None);
    assert_eq!(set_extension(&b"/w/..".to_vec(), &ext), None);
    assert_eq!(set_extension(&b"/w/.".to_vec(), &ext), None);
}
