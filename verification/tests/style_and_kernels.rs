use newsroom::auth::LoginInfo;
use newsroom::auth::Role;
use newsroom::auth::role_for_login;
use newsroom::gdrive::ServerDriveFile;
use newsroom::numfmt::i32_to_dec;
use newsroom::numfmt::u32_to_dec;
use newsroom::numfmt::u64_to_dec;
use newsroom::paginated::Paginated;
use newsroom::paginated::div_ceil;
use newsroom::section::Section;
use newsroom::slug::make_slug;
use newsroom::style::parse_style;
use newsroom::writer::ClientWriter;
use newsroom::article_submission::ClientArticleSubmission;

#[test]
fn style_parses_simple_declarations() {
    let map = parse_style("color: red; font-weight:700;");
    assert_eq!(map.get_or("color", "missing"), "red");
    assert_eq!(map.get_or("font-weight", "missing"), "700");
    assert_eq!(map.get_or("text-align", "left"), "left");
}

#[test]
fn malformed_style_segment_is_dropped() {
    let map = parse_style("color red; font-weight:700");
    assert_eq!(map.get_or("color", "missing"), "missing");
    assert_eq!(map.get_or("color red", "missing"), "missing");
    assert_eq!(map.get_or("font-weight", "missing"), "700");
}

#[test]
fn style_duplicate_key_last_wins() {
    let map = parse_style("color: red; color: blue");
    assert_eq!(map.get_or("color", ""), "blue");
}

#[test]
fn style_trims_keys_and_values() {
    let map = parse_style("  text-align :  center  ;");
    assert_eq!(map.get_or("text-align", ""), "center");
}

#[test]
fn style_splits_value_on_first_colon_only() {
    let map = parse_style("background: url(a:b)");
    assert_eq!(map.get_or("background", ""), "url(a:b)");
}

#[test]
fn empty_style_gives_empty_map() {
    let map = parse_style("");
    assert_eq!(map.get_or("anything", "fallback"), "fallback");
}

#[test]
fn div_ceil_values() {
    assert_eq!(div_ceil(7, 2), 4);
    assert_eq!(div_ceil(6, 2), 3);
    assert_eq!(div_ceil(0, 5), 0);
    assert_eq!(div_ceil(-7, 2), -3);
    assert_eq!(div_ceil(7, -2), -3);
    assert_eq!(div_ceil(-7, -2), 4);
    assert_eq!(div_ceil(1, 10), 1);
}

#[test]
fn page_links_middle_page() {
    let page = Paginated::new((), 10, 2, 25);
    let (previous, next) = page.links();
    assert_eq!(previous, Some((1, 10)));
    assert_eq!(next, Some((3, 10)));
}

#[test]
fn page_links_first_and_last() {
    let first = Paginated::new((), 10, 1, 25);
    let (previous, next) = first.links();
    assert_eq!(previous, None);
    assert_eq!(next, Some((2, 10)));

    let last = Paginated::new((), 10, 3, 25);
    let (previous, next) = last.links();
    assert_eq!(previous, Some((2, 10)));
    assert_eq!(next, None);
}

#[test]
fn page_links_past_the_end_point_back_to_last() {
    let page = Paginated::new((), 10, 9, 25);
    let (previous, next) = page.links();
    assert_eq!(previous, Some((3, 10)));
    assert_eq!(next, None);
}

#[test]
fn paginated_hands_content_back() {
    let page = Paginated::new(vec![1, 2, 3], 10, 1, 3);
    assert_eq!(page.into_content(), vec![1, 2, 3]);
}

#[test]
fn slug_from_headline() {
    assert_eq!(make_slug("Hello World"), "hello-world");
    assert_eq!(make_slug("Breaking News: 100% True"), "breaking-news-100-true");
    assert_eq!(make_slug(""), "");
    assert_eq!(make_slug("Already-Fine-123"), "already-fine-123");
}

#[test]
fn section_from_param_is_case_insensitive() {
    assert_eq!(Section::from_param("news"), Ok(Section::News));
    assert_eq!(Section::from_param("NEWS"), Ok(Section::News));
    assert_eq!(Section::from_param("Sports"), Ok(Section::Sports));
    assert_eq!(Section::from_param("humor"), Ok(Section::Humor));
    assert_eq!(Section::from_param("bogus"), Err("Invalid section type"));
}

#[test]
fn role_gates() {
    assert!(Role::Admin.is_admin());
    assert!(!Role::Editor.is_admin());
    assert!(!Role::Default.is_admin());
    assert!(Role::Admin.can_edit());
    assert!(Role::Editor.can_edit());
    assert!(!Role::Default.can_edit());
    assert_eq!(Role::Admin.name(), "Admin");
    assert_eq!(Role::Editor.name(), "Editor");
    assert_eq!(Role::Default.name(), "Default");
}

#[test]
fn login_decides_role() {
    let admin = LoginInfo { username: "root", password: "s1" };
    let editor = LoginInfo { username: "ed", password: "s2" };
    let wrong = LoginInfo { username: "root", password: "s2" };
    assert_eq!(role_for_login(&admin, "root", "s1", "ed", "s2"), Some(Role::Admin));
    assert_eq!(role_for_login(&editor, "root", "s1", "ed", "s2"), Some(Role::Editor));
    assert_eq!(role_for_login(&wrong, "root", "s1", "ed", "s2"), None);
}

#[test]
fn decimal_formatting() {
    assert_eq!(u64_to_dec(0), "0");
    assert_eq!(u64_to_dec(12345), "12345");
    assert_eq!(u32_to_dec(10), "10");
    assert_eq!(i32_to_dec(-42), "-42");
    assert_eq!(i32_to_dec(2024), "2024");
    assert_eq!(i32_to_dec(i32::MIN), "-2147483648");
}

#[test]
fn drive_file_from_parts() {
    let all = ServerDriveFile::from_parts(
        Some("id".to_owned()),
        Some("name".to_owned()),
        Some("mime".to_owned()),
        Some("link".to_owned()),
        Some("author".to_owned()),
        Some("mail".to_owned()),
        Some("pic".to_owned()),
    );
    let file = all.unwrap();
    assert_eq!(file.id, "id");
    assert_eq!(file.author_email, "mail");
    let missing = ServerDriveFile::from_parts(
        Some("id".to_owned()),
        None,
        Some("mime".to_owned()),
        Some("link".to_owned()),
        Some("author".to_owned()),
        Some("mail".to_owned()),
        Some("pic".to_owned()),
    );
    assert!(missing.is_none());
}

#[test]
fn client_forms_keep_their_fields() {
    let writer = ClientWriter::new("Ada", "Lovelace", "Editor", Some("bio"), None);
    assert_eq!(writer.first_name, "Ada");
    assert_eq!(writer.last_name, "Lovelace");
    assert_eq!(writer.title, "Editor");
    assert_eq!(writer.bio, Some("bio"));
    assert_eq!(writer.image_url, None);

    let submission = ClientArticleSubmission::new(
        "Headline",
        "Focus",
        Section::News,
        7,
        "file-id",
        None,
    );
    assert_eq!(submission.headline, "Headline");
    assert_eq!(submission.focus, "Focus");
    assert_eq!(submission.section, Section::News);
    assert_eq!(submission.author_id, 7);
    assert_eq!(submission.drive_file_id, "file-id");
    assert_eq!(submission.thumbnail_url, None);
}
