use imessage_collate::render::{get_attachment_path, get_file_icon, html_escape, sanitize_filename};

#[test]
fn escape_markup_characters() {
    assert_eq!(html_escape("a < b & c > \"d\" 'e'"), "a &lt; b &amp; c &gt; &quot;d&quot; &#39;e&#39;");
    assert_eq!(html_escape("&lt;"), "&amp;lt;");
    assert_eq!(html_escape(""), "");
    assert_eq!(html_escape("plain"), "plain");
}

#[test]
fn sanitize_replaces_path_characters() {
    assert_eq!(sanitize_filename("Direct: A/B\\C*?\"<>|"), "Direct_ A_B_C______");
    assert_eq!(sanitize_filename("Family Chat"), "Family Chat");
}

#[test]
fn attachment_path_two_levels() {
    assert_eq!(
        get_attachment_path("FE718EBE-BB92-4650-A656-D59ACB15619C"),
        "FE/71/FE718EBE-BB92-4650-A656-D59ACB15619C"
    );
}

#[test]
fn icons_by_extension() {
    assert_eq!(get_file_icon("report.PDF"), "\u{1F4C4}");
    assert_eq!(get_file_icon("clip.MoV"), "\u{1F3A5}");
    assert_eq!(get_file_icon("song.m4a"), "\u{1F3B5}");
    assert_eq!(get_file_icon("a.tar.GZ"), "\u{1F4E6}");
    assert_eq!(get_file_icon("letter.docx"), "\u{1F4DD}");
    assert_eq!(get_file_icon("photo.heic"), "\u{1F4CE}");
    assert_eq!(get_file_icon("gz"), "\u{1F4CE}");
}
