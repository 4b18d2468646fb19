use kms_present::context::{check_extensions, contains_word, MissingExtension};

#[test]
fn both_extensions_present() {
    let list = "EGL_EXT_buffer_age EGL_KHR_create_context EGL_KHR_image EGL_KHR_surfaceless_context";
    assert_eq!(check_extensions(list), Ok(()));
}

#[test]
fn surfaceless_missing_is_reported_first() {
    assert_eq!(check_extensions(""), Err(MissingExtension::SurfacelessContext));
    assert_eq!(check_extensions("EGL_KHR_image"), Err(MissingExtension::SurfacelessContext));
}

#[test]
fn create_context_missing() {
    assert_eq!(
        check_extensions("EGL_KHR_surfaceless_context EGL_KHR_image"),
        Err(MissingExtension::CreateContext)
    );
}

#[test]
fn only_whole_words_count() {
    assert_eq!(
        check_extensions("EGL_KHR_surfaceless_context_x EGL_KHR_create_context"),
        Err(MissingExtension::SurfacelessContext)
    );
    assert_eq!(
        check_extensions("EGL_KHR_surfaceless_context XEGL_KHR_create_context"),
        Err(MissingExtension::CreateContext)
    );
    assert!(contains_word(b"a bc d", b"bc"));
    assert!(!contains_word(b"a bcd", b"bc"));
    assert!(!contains_word(b"abc", b"bc"));
    assert!(contains_word(b"bc", b"bc"));
    assert!(!contains_word(b"b", b"bc"));
}
