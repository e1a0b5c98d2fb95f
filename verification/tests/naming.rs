use pdf_to_image::naming::page_path;

#[test]
fn page_path_joins_the_parts() {
    assert_eq!(
        page_path("/srv/out", "report.pdf", 3, 2, 1_700_000_000_000, ".png"),
        "/srv/out/report.pdf-03-1700000000000.png"
    );
}

#[test]
fn page_path_takes_any_extension() {
    assert_eq!(page_path("/srv/out", "report.pdf", 3, 2, 17, ".tmp"), "/srv/out/report.pdf-03-17.tmp");
    assert_eq!(page_path("d", "f", 1, 1, 0, ""), "d/f-1-0");
}

#[test]
fn page_path_keeps_other_scripts() {
    assert_eq!(page_path("/輸出", "文件.pdf", 12, 3, 5, ".png"), "/輸出/文件.pdf-012-5.png");
}

#[test]
fn page_path_with_empty_parts() {
    assert_eq!(page_path("", "", 0, 0, 0, ".png"), "/-0-0.png");
}

#[test]
fn page_paths_differ_by_page() {
    let first = page_path("/o", "a.pdf", 1, 2, 9, ".png");
    let second = page_path("/o", "a.pdf", 11, 2, 9, ".png");
    assert_ne!(first, second);
    assert_eq!(first, "/o/a.pdf-01-9.png");
    assert_eq!(second, "/o/a.pdf-11-9.png");
}

#[test]
fn page_paths_differ_by_timestamp() {
    assert_ne!(
        page_path("/o", "a.pdf", 1, 1, 100, ".png"),
        page_path("/o", "a.pdf", 1, 1, 101, ".png")
    );
}
