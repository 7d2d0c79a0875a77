use asg::metadata::derive_metadata;
use asg::metadata::get_destination_url;
use asg::metadata::make_file_info;

#[test]
fn title_and_description_fall_back_to_lines() {
    let d = derive_metadata("First line\n\n  \nSecond line\nThird", &None, &None, &None);
    assert_eq!(d.title, "First line");
    assert_eq!(d.description, "Second line");
}

#[test]
fn configured_title_and_description_win() {
    let d = derive_metadata(
        "Content line one\nContent line two",
        &Some("Configured title".to_string()),
        &Some("Configured description".to_string()),
        &None,
    );
    assert_eq!(d.title, "Configured title");
    assert_eq!(d.description, "Configured description");
}

#[test]
fn too_few_lines_leave_fields_empty() {
    let d = derive_metadata("Only line", &None, &None, &None);
    assert_eq!(d.title, "Only line");
    assert_eq!(d.description, "");

    let d = derive_metadata("   \n\t\n", &None, &None, &None);
    assert_eq!(d.title, "");
    assert_eq!(d.description, "");
}

#[test]
fn empty_tags_value_yields_one_empty_tag() {
    let d = derive_metadata("x", &None, &None, &Some(String::new()));
    assert_eq!(d.tags, vec![String::new()]);

    let d = derive_metadata("x", &None, &None, &None);
    assert_eq!(d.tags, vec![String::new()]);
}

#[test]
fn tags_split_on_commas_keeping_empties() {
    let d = derive_metadata("x", &None, &None, &Some("a,b,,c".to_string()));
    assert_eq!(d.tags, vec!["a", "b", "", "c"]);
}

#[test]
fn word_count_splits_on_whitespace() {
    let d = derive_metadata("Hello brave  new\tworld\n", &None, &None, &None);
    assert_eq!(d.word_count, 4);

    let d = derive_metadata("", &None, &None, &None);
    assert_eq!(d.word_count, 0);

    let d = derive_metadata("  one  ", &None, &None, &None);
    assert_eq!(d.word_count, 1);
}

#[test]
fn destination_url_rewrites_markup_extension() {
    assert_eq!(get_destination_url("/in/post.md", "/in"), "./post.html");
    assert_eq!(get_destination_url("/in/style.css", "/in"), "./style.css");
    assert_eq!(get_destination_url("/in/sub/page.md", "/in"), "./sub/page.html");
}

#[test]
fn destination_url_outside_base_falls_back_to_base() {
    assert_eq!(get_destination_url("elsewhere.md", "/in"), "/in");
    assert_eq!(get_destination_url("/in", "/in"), "./");
}

#[test]
fn file_info_assembly_keeps_fields() {
    let d = derive_metadata("One two three", &Some("T".to_string()), &None, &Some("a,b".to_string()));
    let info = make_file_info(
        d,
        "f.md".to_string(),
        "./f.html".to_string(),
        0,
        "mtime-os".to_string(),
        "mtime-vc".to_string(),
        "created-vc".to_string(),
    );
    assert_eq!(info.filename, "f.md");
    assert_eq!(info.url, "./f.html");
    assert_eq!(info.size, 0);
    assert_eq!(info.word_count, 3);
    assert_eq!(info.last_modified_os, "mtime-os");
    assert_eq!(info.last_modified, "mtime-vc");
    assert_eq!(info.created_at, "created-vc");
    assert_eq!(info.title, "T");
    assert_eq!(info.description, "");
    assert_eq!(info.tags, vec!["a", "b"]);
}

#[test]
fn markup_is_stripped_before_derivation() {
    let d = asg::metadata::derive_metadata_from_html(
        "<h1>Top heading</h1>\n<p>Body text here</p>",
        &None,
        &None,
        &None,
    );
    assert_eq!(d.title, "Top heading");
    assert_eq!(d.description, "Body text here");
    assert_eq!(d.word_count, 5);
}

#[test]
fn asset_dir_sits_beside_executable_dir() {
    assert_eq!(asg::paths::get_asset_dir_path("/opt/bin"), "/opt/bin/assets");
    assert_eq!(asg::paths::join_path("/a/", "b"), "/a/b");
    assert_eq!(asg::paths::join_path("/a", "/abs"), "/abs");
}

#[test]
fn file_name_is_the_final_component() {
    assert_eq!(asg::paths::file_name_of("a/b/c.md"), "c.md");
    assert_eq!(asg::paths::file_name_of("c.md"), "c.md");
    assert_eq!(asg::paths::file_name_of("/c.md"), "c.md");
    assert_eq!(asg::paths::file_name_of("a/"), "");
    assert_eq!(asg::paths::file_name_of(""), "");
}
