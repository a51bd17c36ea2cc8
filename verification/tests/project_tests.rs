use wasp::project::{first_field_of, join_sources, lines, order_sources, project_entries, project_packages, split_fields};

fn strings(v: &[&str]) -> Vec<String> {
    v.iter().map(|s| s.to_string()).collect()
}

#[test]
fn split_keeps_empty_fields() {
    assert_eq!(split_fields("a b  c", ' '), strings(&["a", "b", "", "c"]));
    assert_eq!(split_fields("", ' '), strings(&[""]));
    assert_eq!(split_fields("./vendor/std/x.w", '/'), strings(&[".", "vendor", "std", "x.w"]));
}

#[test]
fn first_field_stops_at_the_separator() {
    assert_eq!(first_field_of("std git@host:std.git", ' '), "std");
    assert_eq!(first_field_of("alone", ' '), "alone");
    assert_eq!(first_field_of(" lead", ' '), "");
}

#[test]
fn lines_like_bufread() {
    assert_eq!(lines(""), Vec::<String>::new());
    assert_eq!(lines("\n"), strings(&[""]));
    assert_eq!(lines("a\r\nb\n"), strings(&["a", "b"]));
    assert_eq!(lines("a\nb"), strings(&["a", "b"]));
    assert_eq!(lines("a\nb\r"), strings(&["a", "b\r"]));
    assert_eq!(lines("a\n\nb\n"), strings(&["a", "", "b"]));
}

#[test]
fn packages_of_a_project_file() {
    let text = "std git@github.com:wasplang/std.git\nbar git@github.com:richardanaya/bar.git@specific-bar\n";
    assert_eq!(project_packages(text), strings(&["std", "bar"]));
    let entries = project_entries(text);
    assert_eq!(entries.len(), 2);
    assert_eq!(entries[0], strings(&["std", "git@github.com:wasplang/std.git"]));
    assert_eq!(entries[1], strings(&["bar", "git@github.com:richardanaya/bar.git@specific-bar"]));
}

#[test]
fn vendored_files_come_first_in_package_order() {
    let files = strings(&[
        "./main.w",
        "./vendor/bar/a.w",
        "./vendor/std/b.w",
        "./vendor/zzz/c.w",
        "./other.w",
        "./vendor/std/d.w",
    ]);
    let packages = strings(&["std", "bar"]);
    assert_eq!(
        order_sources(&files, &packages),
        strings(&[
            "./vendor/std/b.w",
            "./vendor/std/d.w",
            "./vendor/bar/a.w",
            "./vendor/zzz/c.w",
            "./main.w",
            "./other.w",
        ])
    );
}

#[test]
fn sources_are_joined_after_line_breaks() {
    assert_eq!(join_sources(&strings(&["a", "b"])), "\na\nb");
    assert_eq!(join_sources(&strings(&[])), "");
}
